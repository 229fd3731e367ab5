//! Samples on their way from a decoder to a sound device.

pub mod constants;
pub mod decode;
pub mod feed;
pub mod ffmpeg;
pub mod normalize;
pub mod output;
pub mod output_adapter;
pub mod probe;
pub mod ring;
pub mod samples;
pub mod types;

use vstd::prelude::*;

pub use constants::{
    ACCUM_MAX_SAMPLES, FFT_CHUNK_SIZE, INTERNAL_BUFFER_SECONDS, INTERNAL_CHANNELS,
    INTERNAL_SAMPLE_RATE, PREBUFFER_MS, SILENCE,
};

verus! {

/// One sample, as the bit pattern of an IEEE 754 single.
pub type Sample = u32;

/// How a device encodes its samples.
#[derive(Clone, Copy, Debug, PartialEq, Eq, Structural)]
pub enum SampleFormat {
    F32,
    I16,
    U16,
    /// An encoding that the player does not write.
    Other,
}

/// Channel count, frames per second and encoding of an audio stream.
#[derive(Clone, Copy, Debug)]
pub struct AudioFormat {
    pub channels: u16,
    pub sample_rate: u32,
    pub sample_format: SampleFormat,
}

impl AudioFormat {
    pub fn new(channels: u16, sample_rate: u32, sample_format: SampleFormat) -> (format: Self)
        ensures
            format == (AudioFormat { channels, sample_rate, sample_format }),
    {
        Self { channels, sample_rate, sample_format }
    }
}

} // verus!
