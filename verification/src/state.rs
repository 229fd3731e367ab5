//! What the player is doing and what it will play next.

use std::collections::VecDeque;
use vstd::prelude::*;

verus! {

/// Whether sound is coming out.
#[derive(Debug, Clone, Copy, PartialEq, Eq, Structural)]
pub enum PlaybackStatus {
    Playing,
    Paused,
    Stopped,
}

impl Default for PlaybackStatus {
    /// A player starts out stopped.
    fn default() -> (status: Self)
        ensures
            status == PlaybackStatus::Stopped,
    {
        PlaybackStatus::Stopped
    }
}

/// The status and the tracks that wait to be played, oldest first.
#[derive(Debug)]
pub struct PlaybackState {
    pub status: PlaybackStatus,
    pub queue: VecDeque<String>,
}

/// The mathematical value of a [`PlaybackState`].
#[verifier::ext_equal]
pub struct StateView {
    pub status: PlaybackStatus,
    pub queue: Seq<Seq<char>>,
}

impl View for PlaybackState {
    type V = StateView;

    open spec fn view(&self) -> StateView {
        StateView { status: self.status, queue: self.queue.deep_view() }
    }
}

/// Stopped, with nothing queued.
pub open spec fn initial_state() -> StateView {
    StateView { status: PlaybackStatus::Stopped, queue: Seq::empty() }
}

impl PlaybackState {
    pub fn new() -> (state: Self)
        ensures
            state@ == initial_state(),
    {
        let state = Self { status: PlaybackStatus::Stopped, queue: VecDeque::new() };
        assert(state@.queue =~= Seq::<Seq<char>>::empty());
        state
    }
}

impl Default for PlaybackState {
    fn default() -> (state: Self)
        ensures
            state@ == initial_state(),
    {
        Self::new()
    }
}

impl Clone for PlaybackState {
    /// An independent copy with the same status and the same queue.
    fn clone(&self) -> (copy: Self)
        ensures
            copy@ == self@,
    {
        let queue = self.queue.clone();
        assert(queue.deep_view() =~= self.queue.deep_view());
        Self { status: self.status, queue }
    }
}

/// What a state stands for is its status and every queued track, in order.
pub proof fn law_states_are_what_they_say(state: PlaybackState)
    ensures
        state@.status == state.status,
        state@.queue.len() == state.queue@.len(),
        forall|i: int| 0 <= i < state.queue@.len() ==> #[trigger] state@.queue[i]
            == state.queue@[i]@,
{
}

/// A player starts out stopped, with nothing queued.
pub proof fn law_fresh_state_is_stopped()
    ensures
        initial_state().status == PlaybackStatus::Stopped,
        initial_state().queue.len() == 0,
{
}

} // verus!
