//! The shape of an audio stream, whatever its encoding.

use vstd::prelude::*;

verus! {

/// Channel count and frames per second.
#[derive(Clone, Copy, Debug)]
pub struct AudioFormat {
    pub channels: u16,
    pub sample_rate: u32,
}

impl AudioFormat {
    pub fn new(channels: u16, sample_rate: u32) -> (format: Self)
        ensures
            format == (AudioFormat { channels, sample_rate }),
    {
        Self { channels, sample_rate }
    }
}

} // verus!
