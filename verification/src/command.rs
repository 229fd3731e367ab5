//! The transport controls on their own.

use vstd::prelude::*;

verus! {

/// A request that concerns the running track only.
#[derive(Debug)]
pub enum Command {
    Play(String),
    Stop,
    Pause,
    Resume,
    /// The level, as the bit pattern of an IEEE 754 single.
    SetVolume(u32),
}

} // verus!
