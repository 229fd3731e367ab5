//! Notifications that carry the whole state along.

use vstd::prelude::*;

use crate::state;

verus! {

/// A notification whose state changes tell the queue as well as the status.
#[derive(Clone, Debug)]
pub enum Event {
    PlaybackStarted(String),
    PlaybackStopped,
    PlaybackPaused,
    PlaybackResumed,
    PlaybackFinished,
    Error(String),
    QueueUpdated,
    StateChanged(state::PlaybackState),
}

} // verus!
