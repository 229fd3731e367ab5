//! The control loop: what the player does about each request and each thing
//! that happens to the running session.
//!
//! [`Controller::handle`] takes one input and answers with the actions to
//! perform, in order. An action that can fail is always the last one, and its
//! outcome is the next input.

use vstd::prelude::*;
use vstd::string::StringExecFns;

pub mod laws;
pub mod reactions;

use crate::api::{Command, CommandView, Event, EventView, PlaybackState, PlaybackStatus};
use crate::state::{initial_state, StateView};
use crate::text::texts;

verus! {

/// The full volume: the bit pattern of one.
pub const FULL_VOLUME: u32 = 0x3f80_0000;

/// The bit pattern of infinity, above which are no numbers from zero up.
pub const INFINITE_VOLUME: u32 = 0x7f80_0000;

/// A volume on the scale from mute to full, as the bit pattern of a single.
/// More than full is full; less than mute, and what is no number, is mute.
pub open spec fn on_scale(level: u32) -> u32 {
    if level <= FULL_VOLUME {
        level
    } else if level <= INFINITE_VOLUME {
        FULL_VOLUME
    } else {
        0
    }
}

/// Something the controller has to react to.
#[derive(Debug)]
pub enum Input {
    /// A client asked for something.
    Command(Command),
    /// No client can ask for anything any more.
    Closed,
    /// The running session has played its last sample.
    Drained,
    /// The output stream broke, with the message it left, if any.
    StreamError(Option<String>),
    /// How starting a session went.
    Started(Result<(), String>),
    /// How pausing the output stream went.
    Paused(Result<(), String>),
    /// How resuming the output stream went.
    Resumed(Result<(), String>),
}

/// The mathematical value of an [`Input`].
pub enum InputView {
    Command(CommandView),
    Closed,
    Drained,
    StreamError(Option<Seq<char>>),
    Started(Result<(), Seq<char>>),
    Paused(Result<(), Seq<char>>),
    Resumed(Result<(), Seq<char>>),
}

/// The value of an outcome whose error is a message.
pub open spec fn outcome_view(outcome: Result<(), String>) -> Result<(), Seq<char>> {
    match outcome {
        Ok(()) => Ok(()),
        Err(message) => Err(message@),
    }
}

impl View for Input {
    type V = InputView;

    open spec fn view(&self) -> InputView {
        match *self {
            Input::Command(command) => InputView::Command(command@),
            Input::Closed => InputView::Closed,
            Input::Drained => InputView::Drained,
            Input::StreamError(message) => InputView::StreamError(message.deep_view()),
            Input::Started(outcome) => InputView::Started(outcome_view(outcome)),
            Input::Paused(outcome) => InputView::Paused(outcome_view(outcome)),
            Input::Resumed(outcome) => InputView::Resumed(outcome_view(outcome)),
        }
    }
}

/// Something the program has to do for the controller.
#[derive(Debug)]
pub enum Action {
    /// Stop the running session and wait for it.
    StopSession,
    /// Start a session for a path and report [`Input::Started`].
    StartSession(String),
    /// Pause the output stream and report [`Input::Paused`].
    PauseStream,
    /// Resume the output stream and report [`Input::Resumed`].
    ResumeStream,
    /// Play at this volume from now on, as the bit pattern of a single from
    /// zero to one.
    SetVolume(u32),
    /// Tell every client.
    Emit(Event),
    /// Leave the control loop.
    Exit,
}

/// The mathematical value of an [`Action`].
pub enum ActionView {
    StopSession,
    StartSession(Seq<char>),
    PauseStream,
    ResumeStream,
    SetVolume(u32),
    Emit(EventView),
    Exit,
}

impl View for Action {
    type V = ActionView;

    open spec fn view(&self) -> ActionView {
        match *self {
            Action::StopSession => ActionView::StopSession,
            Action::StartSession(path) => ActionView::StartSession(path@),
            Action::PauseStream => ActionView::PauseStream,
            Action::ResumeStream => ActionView::ResumeStream,
            Action::SetVolume(level) => ActionView::SetVolume(level),
            Action::Emit(event) => ActionView::Emit(event@),
            Action::Exit => ActionView::Exit,
        }
    }
}

/// The values of a list of actions.
pub open spec fn action_views(actions: Seq<Action>) -> Seq<ActionView> {
    actions.map_values(|action: Action| action@)
}

/// What the controller waits for.
#[derive(Debug)]
pub enum Phase {
    /// A command, or news of the session.
    Idle,
    /// The outcome of starting a session for this path.
    Starting(String),
    /// The outcome of pausing the stream.
    Pausing,
    /// The outcome of resuming the stream.
    Resuming,
    /// Nothing: the loop was left.
    Exited,
}

/// The mathematical value of a [`Phase`].
pub enum PhaseView {
    Idle,
    Starting(Seq<char>),
    Pausing,
    Resuming,
    Exited,
}

impl View for Phase {
    type V = PhaseView;

    open spec fn view(&self) -> PhaseView {
        match *self {
            Phase::Idle => PhaseView::Idle,
            Phase::Starting(path) => PhaseView::Starting(path@),
            Phase::Pausing => PhaseView::Pausing,
            Phase::Resuming => PhaseView::Resuming,
            Phase::Exited => PhaseView::Exited,
        }
    }
}

/// The mathematical value of a [`Controller`].
#[verifier::ext_equal]
pub struct ControlView {
    pub state: StateView,
    /// The track of the session, if a session exists.
    pub track: Option<Seq<char>>,
    /// The tracks that were played before, oldest first.
    pub played: Seq<Seq<char>>,
    pub phase: PhaseView,
}

/// What a controller becomes, and the actions it asks for.
pub type Reaction = (ControlView, Seq<ActionView>);

impl ControlView {
    pub open spec fn with_status(self, status: PlaybackStatus) -> ControlView {
        ControlView { state: StateView { status, ..self.state }, ..self }
    }

    pub open spec fn with_queue(self, queue: Seq<Seq<char>>) -> ControlView {
        ControlView { state: StateView { queue, ..self.state }, ..self }
    }

    pub open spec fn with_track(self, track: Option<Seq<char>>) -> ControlView {
        ControlView { track, ..self }
    }

    pub open spec fn with_played(self, played: Seq<Seq<char>>) -> ControlView {
        ControlView { played, ..self }
    }

    pub open spec fn with_phase(self, phase: PhaseView) -> ControlView {
        ControlView { phase, ..self }
    }

    /// Whether a session exists.
    pub open spec fn active(self) -> bool {
        self.track is Some
    }

    /// Without the session, whose track is then one that was played.
    pub open spec fn ended(self) -> ControlView {
        match self.track {
            Some(track) => self.with_track(None).with_played(self.played.push(track)),
            None => self,
        }
    }

    /// What every controller keeps: a session is never stopped, it is playing
    /// while it is being paused and paused while it is being resumed, and none
    /// exists while one is being started or after the loop was left.
    pub open spec fn consistent(self) -> bool {
        &&& self.active() ==> self.state.status != PlaybackStatus::Stopped
        &&& match self.phase {
            PhaseView::Idle => true,
            PhaseView::Starting(_) => !self.active(),
            PhaseView::Pausing => self.active() && self.state.status == PlaybackStatus::Playing,
            PhaseView::Resuming => self.active() && self.state.status == PlaybackStatus::Paused,
            PhaseView::Exited => !self.active(),
        }
    }

    /// Nothing playing, nothing queued, waiting for a command.
    pub open spec fn initial() -> ControlView {
        ControlView {
            state: initial_state(),
            track: None,
            played: Seq::empty(),
            phase: PhaseView::Idle,
        }
    }

    /// The one action that stops the session, if there is a session.
    pub open spec fn stop_actions(self) -> Seq<ActionView> {
        if self.active() {
            seq![ActionView::StopSession]
        } else {
            seq![]
        }
    }

    /// Replace whatever plays by `path`.
    pub open spec fn play(self, path: Seq<char>) -> Reaction {
        (
            self.ended().with_phase(PhaseView::Starting(path)),
            self.stop_actions().push(ActionView::StartSession(path)),
        )
    }

    /// End the running session at a client's wish.
    pub open spec fn stop(self) -> Reaction {
        if self.active() {
            (
                self.ended().with_status(PlaybackStatus::Stopped),
                seq![
                    ActionView::StopSession,
                    ActionView::Emit(EventView::PlaybackStopped),
                    ActionView::Emit(EventView::StateChanged(PlaybackStatus::Stopped)),
                ],
            )
        } else {
            (self, seq![])
        }
    }

    /// Tell the client that a request cannot be met.
    pub open spec fn refuse(self, message: Seq<char>) -> Reaction {
        (self, seq![ActionView::Emit(EventView::Error(message))])
    }

    /// Take the oldest queued track and play it.
    pub open spec fn play_queued(self) -> Reaction {
        let (next, actions) = self.with_queue(self.state.queue.drop_first()).play(
            self.state.queue[0],
        );
        (next, seq![ActionView::Emit(EventView::QueueUpdated)] + actions)
    }

    /// Replace whatever plays by the track that was played last.
    pub open spec fn go_back(self) -> Reaction {
        if self.played.len() > 0 {
            (
                self.with_track(None).with_played(self.played.drop_last()).with_phase(
                    PhaseView::Starting(self.played.last()),
                ),
                self.stop_actions().push(ActionView::StartSession(self.played.last())),
            )
        } else {
            self.refuse("Cannot go back: no previous track"@)
        }
    }

    /// Adopt a status and tell about it, after `news`.
    pub open spec fn announce(self, news: EventView, status: PlaybackStatus) -> Reaction {
        (
            self.with_status(status),
            seq![
                ActionView::Emit(news),
                ActionView::Emit(EventView::StateChanged(status)),
            ],
        )
    }

    /// The reaction of an idle controller to a command.
    pub open spec fn on_command(self, command: CommandView) -> Reaction {
        match command {
            CommandView::Play(path) => self.play(path),
            CommandView::Stop => self.stop(),
            CommandView::Pause => if !self.active() {
                self.refuse("Cannot pause: no active session"@)
            } else if self.state.status != PlaybackStatus::Playing {
                self.refuse("Cannot pause: not currently playing"@)
            } else {
                (self.with_phase(PhaseView::Pausing), seq![ActionView::PauseStream])
            },
            CommandView::Resume => if !self.active() {
                self.refuse("Cannot resume: no active session"@)
            } else if self.state.status != PlaybackStatus::Paused {
                self.refuse("Cannot resume: not currently paused"@)
            } else {
                (self.with_phase(PhaseView::Resuming), seq![ActionView::ResumeStream])
            },
            CommandView::SetVolume(level) => (
                self,
                seq![ActionView::SetVolume(on_scale(level))],
            ),
            CommandView::Enqueue(path) => (
                self.with_queue(self.state.queue.push(path)),
                seq![ActionView::Emit(EventView::QueueUpdated)],
            ),
            CommandView::Next => if self.state.queue.len() > 0 {
                self.play_queued()
            } else {
                self.stop()
            },
            CommandView::Previous => self.go_back(),
            CommandView::ClearQueue => (
                self.with_queue(Seq::empty()),
                seq![ActionView::Emit(EventView::QueueUpdated)],
            ),
            CommandView::GetState => (
                self,
                seq![ActionView::Emit(EventView::FullState(self.state))],
            ),
        }
    }

    /// The reaction of an idle controller to the end of the session's track.
    pub open spec fn on_drained(self) -> Reaction {
        let ended = if self.active() {
            self.ended().with_status(PlaybackStatus::Stopped)
        } else {
            self
        };
        let finished = self.stop_actions().push(ActionView::Emit(EventView::PlaybackFinished));
        if self.state.queue.len() > 0 {
            let (next, actions) = ended.play_queued();
            (next, finished + actions)
        } else {
            (
                ended,
                finished.push(ActionView::Emit(EventView::StateChanged(ended.state.status))),
            )
        }
    }

    /// The reaction of an idle controller to a broken output stream.
    pub open spec fn on_stream_error(self, message: Option<Seq<char>>) -> Reaction {
        let text = match message {
            Some(text) => text,
            None => "unknown stream error"@,
        };
        let (next, news) = self.ended().announce(
            EventView::Error(text),
            PlaybackStatus::Stopped,
        );
        (next, self.stop_actions() + news)
    }

    /// The reaction to any input. One that the phase does not wait for changes
    /// nothing and asks for nothing.
    pub open spec fn react(self, input: InputView) -> Reaction {
        let idle = self.with_phase(PhaseView::Idle);
        match (self.phase, input) {
            (PhaseView::Idle, InputView::Command(command)) => self.on_command(command),
            (PhaseView::Idle, InputView::Closed) => (
                self.ended().with_phase(PhaseView::Exited),
                self.stop_actions().push(ActionView::Exit),
            ),
            (PhaseView::Idle, InputView::Drained) => self.on_drained(),
            (PhaseView::Idle, InputView::StreamError(message)) => self.on_stream_error(message),
            (PhaseView::Starting(path), InputView::Started(outcome)) => match outcome {
                Ok(()) => idle.with_track(Some(path)).announce(
                    EventView::PlaybackStarted(path),
                    PlaybackStatus::Playing,
                ),
                Err(message) => idle.refuse("Playback error: "@ + message),
            },
            (PhaseView::Pausing, InputView::Paused(outcome)) => match outcome {
                Ok(()) => idle.announce(EventView::PlaybackPaused, PlaybackStatus::Paused),
                Err(message) => idle.refuse("Failed to pause stream: "@ + message),
            },
            (PhaseView::Resuming, InputView::Resumed(outcome)) => match outcome {
                Ok(()) => idle.announce(EventView::PlaybackResumed, PlaybackStatus::Playing),
                Err(message) => idle.refuse("Failed to resume stream: "@ + message),
            },
            _ => (self, seq![]),
        }
    }
}

/// A list of one action.
fn single(action: Action) -> (actions: Vec<Action>)
    ensures
        action_views(actions@) == seq![action@],
{
    let mut actions: Vec<Action> = Vec::new();
    actions.push(action);
    assert(action_views(actions@) =~= seq![action@]);
    actions
}

/// Append `rest` to `actions`.
fn join(actions: &mut Vec<Action>, rest: Vec<Action>)
    ensures
        action_views(final(actions)@) == action_views(old(actions)@) + action_views(rest@),
{
    let mut tail = rest;
    actions.append(&mut tail);
    assert(action_views(actions@) =~= action_views(old(actions)@) + action_views(rest@));
}

/// The playback state, the track of the session, the tracks played before, and
/// what is waited for.
#[derive(Debug)]
pub struct Controller {
    state: PlaybackState,
    track: Option<String>,
    played: Vec<String>,
    phase: Phase,
}

impl View for Controller {
    type V = ControlView;

    closed spec fn view(&self) -> ControlView {
        ControlView {
            state: self.state@,
            track: self.track.deep_view(),
            played: texts(self.played@),
            phase: self.phase@,
        }
    }
}

impl Controller {
    /// A controller with no session and nothing queued.
    pub fn new() -> (controller: Self)
        ensures
            controller@ == ControlView::initial(),
            controller@.consistent(),
    {
        let controller = Controller {
            state: PlaybackState::new(),
            track: None,
            played: Vec::new(),
            phase: Phase::Idle,
        };
        assert(controller@.played =~= Seq::empty());
        controller
    }

    /// Take one input and answer with the actions to perform, in order.
    pub fn handle(&mut self, input: Input) -> (actions: Vec<Action>)
        ensures
            (final(self)@, action_views(actions@)) == old(self)@.react(input@),
            old(self)@.consistent() ==> final(self)@.consistent(),
    {
        let actions = match (&self.phase, input) {
            (Phase::Idle, Input::Command(command)) => self.on_command(command),
            (Phase::Idle, Input::Closed) => {
                let mut actions = self.stop_session();
                self.phase = Phase::Exited;
                actions.push(Action::Exit);
                actions
            },
            (Phase::Idle, Input::Drained) => self.on_drained(),
            (Phase::Idle, Input::StreamError(message)) => self.on_stream_error(message),
            (Phase::Starting(path), Input::Started(outcome)) => {
                let path = path.clone();
                self.phase = Phase::Idle;
                match outcome {
                    Ok(()) => {
                        self.track = Some(path.clone());
                        self.announce(Event::PlaybackStarted(path), PlaybackStatus::Playing)
                    },
                    Err(message) => self.fail("Playback error: ", message),
                }
            },
            (Phase::Pausing, Input::Paused(outcome)) => {
                self.phase = Phase::Idle;
                match outcome {
                    Ok(()) => self.announce(Event::PlaybackPaused, PlaybackStatus::Paused),
                    Err(message) => self.fail("Failed to pause stream: ", message),
                }
            },
            (Phase::Resuming, Input::Resumed(outcome)) => {
                self.phase = Phase::Idle;
                match outcome {
                    Ok(()) => self.announce(Event::PlaybackResumed, PlaybackStatus::Playing),
                    Err(message) => self.fail("Failed to resume stream: ", message),
                }
            },
            _ => {
                let actions: Vec<Action> = Vec::new();
                assert(action_views(actions@) =~= seq![]);
                actions
            },
        };
        actions
    }

    /// The reaction to a command.
    fn on_command(&mut self, command: Command) -> (actions: Vec<Action>)
        ensures
            (final(self)@, action_views(actions@)) == old(self)@.on_command(command@),
    {
        match command {
            Command::Play(path) => self.play(path),
            Command::Stop => self.stop(),
            Command::Pause => {
                if self.track.is_none() {
                    self.refuse("Cannot pause: no active session")
                } else if self.state.status != PlaybackStatus::Playing {
                    self.refuse("Cannot pause: not currently playing")
                } else {
                    self.phase = Phase::Pausing;
                    single(Action::PauseStream)
                }
            },
            Command::Resume => {
                if self.track.is_none() {
                    self.refuse("Cannot resume: no active session")
                } else if self.state.status != PlaybackStatus::Paused {
                    self.refuse("Cannot resume: not currently paused")
                } else {
                    self.phase = Phase::Resuming;
                    single(Action::ResumeStream)
                }
            },
            Command::SetVolume(level) => {
                let scaled: u32 = if level <= FULL_VOLUME {
                    level
                } else if level <= INFINITE_VOLUME {
                    FULL_VOLUME
                } else {
                    0
                };
                single(Action::SetVolume(scaled))
            },
            Command::Enqueue(path) => {
                let ghost before = self.state.queue;
                self.state.queue.push_back(path);
                assert(self.state.queue.deep_view() =~= before.deep_view().push(path@));
                single(Action::Emit(Event::QueueUpdated))
            },
            Command::Next => {
                match self.take_queued() {
                    Some(path) => {
                        let mut actions = single(Action::Emit(Event::QueueUpdated));
                        let rest = self.play(path);
                        join(&mut actions, rest);
                        actions
                    },
                    None => self.stop(),
                }
            },
            Command::Previous => self.go_back(),
            Command::ClearQueue => {
                self.state.queue.clear();
                assert(self.state.queue.deep_view() =~= Seq::empty());
                single(Action::Emit(Event::QueueUpdated))
            },
            Command::GetState => single(Action::Emit(Event::FullState(self.state.clone()))),
        }
    }

    /// The reaction to the end of the session's track.
    fn on_drained(&mut self) -> (actions: Vec<Action>)
        ensures
            (final(self)@, action_views(actions@)) == old(self)@.on_drained(),
    {
        let ended = self.track.is_some();
        let mut actions = self.stop_session();
        if ended {
            self.state.status = PlaybackStatus::Stopped;
        }
        actions.push(Action::Emit(Event::PlaybackFinished));
        match self.take_queued() {
            Some(path) => {
                actions.push(Action::Emit(Event::QueueUpdated));
                let rest = self.play(path);
                join(&mut actions, rest);
            },
            None => {
                actions.push(Action::Emit(Event::StateChanged(self.state.status)));
            },
        }
        actions
    }

    /// The reaction to a broken output stream.
    fn on_stream_error(&mut self, message: Option<String>) -> (actions: Vec<Action>)
        ensures
            (final(self)@, action_views(actions@)) == old(self)@.on_stream_error(
                message.deep_view(),
            ),
    {
        let text = match message {
            Some(text) => text,
            None => "unknown stream error".to_owned(),
        };
        let mut actions = self.stop_session();
        let rest = self.announce(Event::Error(text), PlaybackStatus::Stopped);
        join(&mut actions, rest);
        actions
    }

    /// Whether a session exists, so that its news have to be listened for.
    pub fn has_session(&self) -> (active: bool)
        ensures
            active == self@.active(),
    {
        self.track.is_some()
    }

    /// Give up the session, if there is one, and remember its track.
    fn stop_session(&mut self) -> (actions: Vec<Action>)
        ensures
            final(self)@ == old(self)@.ended(),
            action_views(actions@) == old(self)@.stop_actions(),
    {
        let mut actions: Vec<Action> = Vec::new();
        if let Some(track) = self.track.take() {
            actions.push(Action::StopSession);
            self.played.push(track);
        }
        assert(self@.played =~= old(self)@.ended().played);
        assert(action_views(actions@) =~= old(self)@.stop_actions());
        actions
    }

    /// Replace whatever plays by `path`.
    fn play(&mut self, path: String) -> (actions: Vec<Action>)
        ensures
            (final(self)@, action_views(actions@)) == old(self)@.play(path@),
    {
        let mut actions = self.stop_session();
        self.phase = Phase::Starting(path.clone());
        let rest = single(Action::StartSession(path));
        join(&mut actions, rest);
        assert(action_views(actions@) =~= old(self)@.play(path@).1);
        actions
    }

    /// Replace whatever plays by the track that was played last.
    fn go_back(&mut self) -> (actions: Vec<Action>)
        ensures
            (final(self)@, action_views(actions@)) == old(self)@.go_back(),
    {
        match self.played.pop() {
            Some(path) => {
                assert(self@.played =~= old(self)@.played.drop_last());
                let mut actions: Vec<Action> = Vec::new();
                if self.track.is_some() {
                    actions.push(Action::StopSession);
                }
                self.track = None;
                self.phase = Phase::Starting(path.clone());
                actions.push(Action::StartSession(path));
                assert(action_views(actions@) =~= old(self)@.go_back().1);
                actions
            },
            None => self.refuse("Cannot go back: no previous track"),
        }
    }

    /// End the running session at a client's wish.
    fn stop(&mut self) -> (actions: Vec<Action>)
        ensures
            (final(self)@, action_views(actions@)) == old(self)@.stop(),
    {
        let stopping = self.track.is_some();
        let mut actions = self.stop_session();
        if stopping {
            let rest = self.announce(Event::PlaybackStopped, PlaybackStatus::Stopped);
            join(&mut actions, rest);
        }
        assert(action_views(actions@) =~= old(self)@.stop().1);
        actions
    }

    /// Take the oldest queued track.
    fn take_queued(&mut self) -> (track: Option<String>)
        ensures
            match track {
                Some(path) => {
                    &&& old(self)@.state.queue.len() > 0
                    &&& path@ == old(self)@.state.queue[0]
                    &&& final(self)@ == old(self)@.with_queue(old(self)@.state.queue.drop_first())
                },
                None => old(self)@.state.queue.len() == 0 && final(self)@ == old(self)@,
            },
    {
        let track = self.state.queue.pop_front();
        assert(track is Some ==> self.state.queue.deep_view()
            =~= old(self).state.queue.deep_view().drop_first());
        assert(track is None ==> self.state.queue.deep_view()
            =~= old(self).state.queue.deep_view());
        track
    }

    /// Adopt a status and tell about it, after `news`.
    fn announce(&mut self, news: Event, status: PlaybackStatus) -> (actions: Vec<Action>)
        ensures
            (final(self)@, action_views(actions@)) == old(self)@.announce(news@, status),
    {
        self.state.status = status;
        let mut actions = single(Action::Emit(news));
        let rest = single(Action::Emit(Event::StateChanged(status)));
        join(&mut actions, rest);
        assert(action_views(actions@) =~= old(self)@.announce(news@, status).1);
        actions
    }

    /// Tell the client that a request cannot be met.
    fn refuse(&self, message: &str) -> (actions: Vec<Action>)
        ensures
            action_views(actions@) == self@.refuse(message@).1,
    {
        single(Action::Emit(Event::Error(message.to_owned())))
    }

    /// Tell the client that an action failed.
    fn fail(&self, what: &str, message: String) -> (actions: Vec<Action>)
        ensures
            action_views(actions@) == self@.refuse(what@ + message@).1,
    {
        let text = what.to_owned().concat(message.as_str());
        single(Action::Emit(Event::Error(text)))
    }

    /// The playback state.
    pub fn playback_state(&self) -> (state: &PlaybackState)
        ensures
            state@ == self@.state,
    {
        &self.state
    }
}

} // verus!
