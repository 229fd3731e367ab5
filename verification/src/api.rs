//! What clients ask of the player and what it tells them.

use vstd::prelude::*;

pub use crate::state::{PlaybackState, PlaybackStatus};

use crate::state::StateView;

verus! {

/// A request from a client.
#[derive(Debug)]
pub enum Command {
    Play(String),
    Stop,
    Pause,
    Resume,
    /// The level, as the bit pattern of an IEEE 754 single.
    SetVolume(u32),
    Enqueue(String),
    Next,
    Previous,
    ClearQueue,
    GetState,
}

/// The mathematical value of a [`Command`].
pub enum CommandView {
    Play(Seq<char>),
    Stop,
    Pause,
    Resume,
    SetVolume(u32),
    Enqueue(Seq<char>),
    Next,
    Previous,
    ClearQueue,
    GetState,
}

impl View for Command {
    type V = CommandView;

    open spec fn view(&self) -> CommandView {
        match *self {
            Command::Play(path) => CommandView::Play(path@),
            Command::Stop => CommandView::Stop,
            Command::Pause => CommandView::Pause,
            Command::Resume => CommandView::Resume,
            Command::SetVolume(level) => CommandView::SetVolume(level),
            Command::Enqueue(path) => CommandView::Enqueue(path@),
            Command::Next => CommandView::Next,
            Command::Previous => CommandView::Previous,
            Command::ClearQueue => CommandView::ClearQueue,
            Command::GetState => CommandView::GetState,
        }
    }
}

/// A notification to every client.
#[derive(Clone, Debug)]
pub enum Event {
    PlaybackStarted(String),
    PlaybackStopped,
    PlaybackPaused,
    PlaybackResumed,
    PlaybackFinished,
    Error(String),
    QueueUpdated,
    StateChanged(PlaybackStatus),
    FullState(PlaybackState),
}

/// The mathematical value of an [`Event`].
pub enum EventView {
    PlaybackStarted(Seq<char>),
    PlaybackStopped,
    PlaybackPaused,
    PlaybackResumed,
    PlaybackFinished,
    Error(Seq<char>),
    QueueUpdated,
    StateChanged(PlaybackStatus),
    FullState(StateView),
}

impl View for Event {
    type V = EventView;

    open spec fn view(&self) -> EventView {
        match *self {
            Event::PlaybackStarted(path) => EventView::PlaybackStarted(path@),
            Event::PlaybackStopped => EventView::PlaybackStopped,
            Event::PlaybackPaused => EventView::PlaybackPaused,
            Event::PlaybackResumed => EventView::PlaybackResumed,
            Event::PlaybackFinished => EventView::PlaybackFinished,
            Event::Error(message) => EventView::Error(message@),
            Event::QueueUpdated => EventView::QueueUpdated,
            Event::StateChanged(status) => EventView::StateChanged(status),
            Event::FullState(state) => EventView::FullState(state@),
        }
    }
}

/// What a command stands for is the same request, with the same path or level.
pub proof fn law_commands_are_what_they_say(command: Command)
    ensures
        match command {
            Command::Play(path) => command@ == CommandView::Play(path@),
            Command::Stop => command@ == CommandView::Stop,
            Command::Pause => command@ == CommandView::Pause,
            Command::Resume => command@ == CommandView::Resume,
            Command::SetVolume(level) => command@ == CommandView::SetVolume(level),
            Command::Enqueue(path) => command@ == CommandView::Enqueue(path@),
            Command::Next => command@ == CommandView::Next,
            Command::Previous => command@ == CommandView::Previous,
            Command::ClearQueue => command@ == CommandView::ClearQueue,
            Command::GetState => command@ == CommandView::GetState,
        },
{
}

/// What an event stands for is the same news, with the same path, message,
/// status or state.
pub proof fn law_events_are_what_they_say(event: Event)
    ensures
        match event {
            Event::PlaybackStarted(path) => event@ == EventView::PlaybackStarted(path@),
            Event::PlaybackStopped => event@ == EventView::PlaybackStopped,
            Event::PlaybackPaused => event@ == EventView::PlaybackPaused,
            Event::PlaybackResumed => event@ == EventView::PlaybackResumed,
            Event::PlaybackFinished => event@ == EventView::PlaybackFinished,
            Event::Error(message) => event@ == EventView::Error(message@),
            Event::QueueUpdated => event@ == EventView::QueueUpdated,
            Event::StateChanged(status) => event@ == EventView::StateChanged(status),
            Event::FullState(state) => event@ == EventView::FullState(state@),
        },
{
}

} // verus!
