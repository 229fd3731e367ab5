//! Sizes and formats that the audio path is built around.

use vstd::prelude::*;

use super::Sample;

verus! {

/// Channels of the samples between the decoder and the output.
pub const INTERNAL_CHANNELS: u16 = 2;

/// Frames per second of the samples between the decoder and the output.
pub const INTERNAL_SAMPLE_RATE: u32 = 48_000;

/// Seconds of audio that fit between the decoder and the output.
pub const INTERNAL_BUFFER_SECONDS: usize = 4;

/// Milliseconds of audio that have to be there before playing starts.
pub const PREBUFFER_MS: usize = 300;

/// Frames that a resampler takes at a time.
pub const FFT_CHUNK_SIZE: usize = 1024;

/// Most samples that may accumulate in a resampler's input buffer. A buffer
/// that would grow beyond is not fed. At 48 kHz stereo that is about ten
/// seconds of audio.
pub const ACCUM_MAX_SAMPLES: usize = 960_000;

/// The sample that makes no sound: the bit pattern of zero.
pub const SILENCE: Sample = 0;

} // verus!
