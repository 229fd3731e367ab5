//! Laws that say of every input what comes of it, in terms of the controller
//! before and after and of the actions.

use vstd::prelude::*;

use super::{action_views, Action, ActionView, ControlView, Input, InputView, PhaseView};
use crate::api::{CommandView, EventView, PlaybackStatus};

verus! {

/// Whether the track of the session that was ended, if there was one, is the
/// last of those that were played, after all that were there.
pub open spec fn remembers(before: ControlView, after: ControlView) -> bool {
    after.played == match before.track {
        Some(track) => before.played.push(track),
        None => before.played,
    }
}

/// A fresh controller waits for a command; nothing is played, queued or
/// remembered.
pub proof fn law_fresh_controller_is_idle()
    ensures
        ({
            let fresh = ControlView::initial();
            &&& fresh.state.status == PlaybackStatus::Stopped
            &&& fresh.state.queue.len() == 0
            &&& fresh.track is None
            &&& fresh.played.len() == 0
            &&& fresh.phase == PhaseView::Idle
        }),
{
}

/// Playing a track stops the session, if there is one, remembers its track, and
/// starts the new one. The status and the queue stay as they are until the
/// start has gone well.
pub proof fn law_play_replaces_the_session(controller: ControlView, path: Seq<char>)
    requires
        controller.phase == PhaseView::Idle,
    ensures
        ({
            let (next, actions) = controller.react(InputView::Command(CommandView::Play(path)));
            &&& actions == if controller.track is Some {
                seq![ActionView::StopSession, ActionView::StartSession(path)]
            } else {
                seq![ActionView::StartSession(path)]
            }
            &&& next.phase == PhaseView::Starting(path)
            &&& next.track is None
            &&& next.state == controller.state
            &&& remembers(controller, next)
        }),
{
}

/// Stopping ends any session, whatever the status is, and announces it. The
/// queue stays as it is. Without a session nothing happens.
pub proof fn law_stop_ends_any_session(controller: ControlView)
    requires
        controller.phase == PhaseView::Idle,
    ensures
        ({
            let (next, actions) = controller.react(InputView::Command(CommandView::Stop));
            if controller.track is Some {
                &&& actions == seq![
                    ActionView::StopSession,
                    ActionView::Emit(EventView::PlaybackStopped),
                    ActionView::Emit(EventView::StateChanged(PlaybackStatus::Stopped)),
                ]
                &&& next.track is None
                &&& next.state.status == PlaybackStatus::Stopped
                &&& next.state.queue == controller.state.queue
                &&& next.phase == PhaseView::Idle
                &&& remembers(controller, next)
            } else {
                &&& actions.len() == 0
                &&& next == controller
            }
        }),
{
}

/// Skipping with an empty queue is stopping. Otherwise the oldest queued track
/// leaves the queue, which is announced, and replaces the session.
pub proof fn law_next_takes_the_oldest_or_stops(controller: ControlView)
    requires
        controller.phase == PhaseView::Idle,
    ensures
        ({
            let queue = controller.state.queue;
            let (next, actions) = controller.react(InputView::Command(CommandView::Next));
            if queue.len() > 0 {
                &&& actions == if controller.track is Some {
                    seq![
                        ActionView::Emit(EventView::QueueUpdated),
                        ActionView::StopSession,
                        ActionView::StartSession(queue[0]),
                    ]
                } else {
                    seq![
                        ActionView::Emit(EventView::QueueUpdated),
                        ActionView::StartSession(queue[0]),
                    ]
                }
                &&& seq![queue[0]] + next.state.queue == queue
                &&& next.state.status == controller.state.status
                &&& next.track is None
                &&& next.phase == PhaseView::Starting(queue[0])
                &&& remembers(controller, next)
            } else if controller.track is Some {
                &&& actions == seq![
                    ActionView::StopSession,
                    ActionView::Emit(EventView::PlaybackStopped),
                    ActionView::Emit(EventView::StateChanged(PlaybackStatus::Stopped)),
                ]
                &&& next.track is None
                &&& next.state.status == PlaybackStatus::Stopped
                &&& next.state.queue.len() == 0
                &&& next.phase == PhaseView::Idle
                &&& remembers(controller, next)
            } else {
                &&& actions.len() == 0
                &&& next == controller
            }
        }),
{
    let queue = controller.state.queue;
    let next = controller.react(InputView::Command(CommandView::Next)).0;
    if queue.len() > 0 {
        assert(seq![queue[0]] + next.state.queue =~= queue);
    }
}

/// Going back stops the session, if there is one, and starts the track that was
/// played last, which is then no longer remembered. The status and the queue
/// stay as they are. Without such a track it is refused.
pub proof fn law_previous_takes_the_last_played(controller: ControlView)
    requires
        controller.phase == PhaseView::Idle,
    ensures
        ({
            let played = controller.played;
            let (next, actions) = controller.react(InputView::Command(CommandView::Previous));
            if played.len() > 0 {
                &&& actions == if controller.track is Some {
                    seq![ActionView::StopSession, ActionView::StartSession(played.last())]
                } else {
                    seq![ActionView::StartSession(played.last())]
                }
                &&& next.played.push(played.last()) == played
                &&& next.phase == PhaseView::Starting(played.last())
                &&& next.track is None
                &&& next.state == controller.state
            } else {
                &&& actions == seq![
                    ActionView::Emit(EventView::Error("Cannot go back: no previous track"@)),
                ]
                &&& next == controller
            }
        }),
{
    let played = controller.played;
    let next = controller.react(InputView::Command(CommandView::Previous)).0;
    if played.len() > 0 {
        assert(next.played.push(played.last()) =~= played);
    }
}

/// Queueing puts the track at the end of the queue, announces it, and changes
/// nothing else.
pub proof fn law_enqueue_adds_one(controller: ControlView, path: Seq<char>)
    requires
        controller.phase == PhaseView::Idle,
    ensures
        ({
            let queue = controller.state.queue;
            let (next, actions) = controller.react(InputView::Command(CommandView::Enqueue(path)));
            &&& actions == seq![ActionView::Emit(EventView::QueueUpdated)]
            &&& next.state.queue == queue + seq![path]
            &&& next.state.status == controller.state.status
            &&& next.track == controller.track
            &&& next.played == controller.played
            &&& next.phase == PhaseView::Idle
        }),
{
    let next = controller.react(InputView::Command(CommandView::Enqueue(path))).0;
    assert(next.state.queue =~= controller.state.queue + seq![path]);
}

/// Clearing leaves nothing in the queue, however much was there, announces it,
/// and changes nothing else.
pub proof fn law_clear_leaves_nothing(controller: ControlView)
    requires
        controller.phase == PhaseView::Idle,
    ensures
        ({
            let (next, actions) = controller.react(InputView::Command(CommandView::ClearQueue));
            &&& actions == seq![ActionView::Emit(EventView::QueueUpdated)]
            &&& next.state.queue.len() == 0
            &&& next.state.status == controller.state.status
            &&& next.track == controller.track
            &&& next.played == controller.played
            &&& next.phase == PhaseView::Idle
        }),
{
}

/// Pausing is tried exactly where a session plays; otherwise one error tells
/// why not. Nothing but what is waited for changes.
pub proof fn law_pause_needs_a_playing_session(controller: ControlView)
    requires
        controller.phase == PhaseView::Idle,
    ensures
        ({
            let (next, actions) = controller.react(InputView::Command(CommandView::Pause));
            let tried = controller.track is Some && controller.state.status
                == PlaybackStatus::Playing;
            &&& actions == if tried {
                seq![ActionView::PauseStream]
            } else if controller.track is None {
                seq![ActionView::Emit(EventView::Error("Cannot pause: no active session"@))]
            } else {
                seq![ActionView::Emit(EventView::Error("Cannot pause: not currently playing"@))]
            }
            &&& next.phase == if tried {
                PhaseView::Pausing
            } else {
                PhaseView::Idle
            }
            &&& next.state == controller.state
            &&& next.track == controller.track
            &&& next.played == controller.played
        }),
{
}

/// Resuming is tried exactly where a session is paused; otherwise one error
/// tells why not. Nothing but what is waited for changes.
pub proof fn law_resume_needs_a_paused_session(controller: ControlView)
    requires
        controller.phase == PhaseView::Idle,
    ensures
        ({
            let (next, actions) = controller.react(InputView::Command(CommandView::Resume));
            let tried = controller.track is Some && controller.state.status
                == PlaybackStatus::Paused;
            &&& actions == if tried {
                seq![ActionView::ResumeStream]
            } else if controller.track is None {
                seq![ActionView::Emit(EventView::Error("Cannot resume: no active session"@))]
            } else {
                seq![ActionView::Emit(EventView::Error("Cannot resume: not currently paused"@))]
            }
            &&& next.phase == if tried {
                PhaseView::Resuming
            } else {
                PhaseView::Idle
            }
            &&& next.state == controller.state
            &&& next.track == controller.track
            &&& next.played == controller.played
        }),
{
}

/// A volume from zero to one is set as it is. What is more is set as one, and
/// what is less, or no number, as zero. Bit patterns of singles from zero up
/// are in the order of their numbers; one is `0x3f80_0000` and infinity is
/// `0x7f80_0000`.
pub proof fn law_volume_stays_on_its_scale(controller: ControlView, level: u32)
    requires
        controller.phase == PhaseView::Idle,
    ensures
        ({
            let (next, actions) = controller.react(
                InputView::Command(CommandView::SetVolume(level)),
            );
            &&& next == controller
            &&& actions.len() == 1
            &&& actions[0] matches ActionView::SetVolume(set) && {
                &&& set <= 0x3f80_0000
                &&& level <= 0x3f80_0000 ==> set == level
                &&& 0x3f80_0000 <= level <= 0x7f80_0000 ==> set == 0x3f80_0000
                &&& level > 0x7f80_0000 ==> set == 0
            }
        }),
{
}

/// Asking for the state is answered by the status and the whole queue, and
/// changes nothing.
pub proof fn law_state_is_told_whole(controller: ControlView)
    requires
        controller.phase == PhaseView::Idle,
    ensures
        ({
            let (next, actions) = controller.react(InputView::Command(CommandView::GetState));
            &&& next == controller
            &&& actions.len() == 1
            &&& actions[0] matches ActionView::Emit(EventView::FullState(state)) && state.status
                == controller.state.status && state.queue == controller.state.queue
        }),
{
}

/// The end of a track ends its session and is announced. Then the oldest queued
/// track is started, or, if none is queued, the status is announced.
pub proof fn law_drained_session_ends(controller: ControlView)
    requires
        controller.phase == PhaseView::Idle,
    ensures
        ({
            let queue = controller.state.queue;
            let (next, actions) = controller.react(InputView::Drained);
            let ended = if controller.track is Some {
                seq![ActionView::StopSession]
            } else {
                Seq::empty()
            };
            &&& next.track is None
            &&& remembers(controller, next)
            &&& next.state.status == if controller.track is Some {
                PlaybackStatus::Stopped
            } else {
                controller.state.status
            }
            &&& if queue.len() > 0 {
                &&& actions == ended + seq![
                    ActionView::Emit(EventView::PlaybackFinished),
                    ActionView::Emit(EventView::QueueUpdated),
                    ActionView::StartSession(queue[0]),
                ]
                &&& seq![queue[0]] + next.state.queue == queue
                &&& next.phase == PhaseView::Starting(queue[0])
            } else {
                &&& actions == ended + seq![
                    ActionView::Emit(EventView::PlaybackFinished),
                    ActionView::Emit(EventView::StateChanged(next.state.status)),
                ]
                &&& next.state.queue.len() == 0
                &&& next.phase == PhaseView::Idle
            }
        }),
{
    let queue = controller.state.queue;
    let (next, actions) = controller.react(InputView::Drained);
    let ended = if controller.track is Some {
        seq![ActionView::StopSession]
    } else {
        Seq::empty()
    };
    if queue.len() > 0 {
        assert(seq![queue[0]] + next.state.queue =~= queue);
        assert(actions =~= ended + seq![
            ActionView::Emit(EventView::PlaybackFinished),
            ActionView::Emit(EventView::QueueUpdated),
            ActionView::StartSession(queue[0]),
        ]);
    } else {
        assert(actions =~= ended + seq![
            ActionView::Emit(EventView::PlaybackFinished),
            ActionView::Emit(EventView::StateChanged(next.state.status)),
        ]);
    }
}

/// A broken output stream ends the session and stops playback, and its message
/// is told. The queue stays as it is.
pub proof fn law_broken_stream_stops(controller: ControlView, message: Option<Seq<char>>)
    requires
        controller.phase == PhaseView::Idle,
    ensures
        ({
            let (next, actions) = controller.react(InputView::StreamError(message));
            let told = match message {
                Some(text) => text,
                None => "unknown stream error"@,
            };
            let ended = if controller.track is Some {
                seq![ActionView::StopSession]
            } else {
                Seq::empty()
            };
            &&& actions == ended + seq![
                ActionView::Emit(EventView::Error(told)),
                ActionView::Emit(EventView::StateChanged(PlaybackStatus::Stopped)),
            ]
            &&& next.track is None
            &&& next.state.status == PlaybackStatus::Stopped
            &&& next.state.queue == controller.state.queue
            &&& next.phase == PhaseView::Idle
            &&& remembers(controller, next)
        }),
{
    let (next, actions) = controller.react(InputView::StreamError(message));
    assert(next.state.queue == controller.state.queue);
}

/// When no client can ask any more, the session is stopped and the loop left.
pub proof fn law_closing_stops_and_exits(controller: ControlView)
    requires
        controller.phase == PhaseView::Idle,
    ensures
        ({
            let (next, actions) = controller.react(InputView::Closed);
            &&& actions == if controller.track is Some {
                seq![ActionView::StopSession, ActionView::Exit]
            } else {
                seq![ActionView::Exit]
            }
            &&& next.track is None
            &&& next.phase == PhaseView::Exited
            &&& next.state == controller.state
            &&& remembers(controller, next)
        }),
{
}

/// A start that went well makes the track that of the session, playing; one
/// that failed is told, with its reason, and changes nothing else.
pub proof fn law_start_is_reported(
    controller: ControlView,
    path: Seq<char>,
    outcome: Result<(), Seq<char>>,
)
    requires
        controller.phase == PhaseView::Starting(path),
    ensures
        ({
            let (next, actions) = controller.react(InputView::Started(outcome));
            &&& next.phase == PhaseView::Idle
            &&& next.played == controller.played
            &&& next.state.queue == controller.state.queue
            &&& match outcome {
                Ok(()) => {
                    &&& actions == seq![
                        ActionView::Emit(EventView::PlaybackStarted(path)),
                        ActionView::Emit(EventView::StateChanged(PlaybackStatus::Playing)),
                    ]
                    &&& next.track == Some(path)
                    &&& next.state.status == PlaybackStatus::Playing
                },
                Err(message) => {
                    &&& actions == seq![
                        ActionView::Emit(EventView::Error("Playback error: "@ + message)),
                    ]
                    &&& next.track == controller.track
                    &&& next.state.status == controller.state.status
                },
            }
        }),
{
}

/// A pause that went well makes the status paused; one that failed is told,
/// with its reason, and changes nothing else.
pub proof fn law_pause_is_reported(controller: ControlView, outcome: Result<(), Seq<char>>)
    requires
        controller.phase == PhaseView::Pausing,
    ensures
        ({
            let (next, actions) = controller.react(InputView::Paused(outcome));
            &&& next.phase == PhaseView::Idle
            &&& next.track == controller.track
            &&& next.played == controller.played
            &&& next.state.queue == controller.state.queue
            &&& match outcome {
                Ok(()) => {
                    &&& actions == seq![
                        ActionView::Emit(EventView::PlaybackPaused),
                        ActionView::Emit(EventView::StateChanged(PlaybackStatus::Paused)),
                    ]
                    &&& next.state.status == PlaybackStatus::Paused
                },
                Err(message) => {
                    &&& actions == seq![
                        ActionView::Emit(EventView::Error("Failed to pause stream: "@ + message)),
                    ]
                    &&& next.state.status == controller.state.status
                },
            }
        }),
{
}

/// A resumption that went well makes the status playing; one that failed is
/// told, with its reason, and changes nothing else.
pub proof fn law_resumption_is_reported(controller: ControlView, outcome: Result<(), Seq<char>>)
    requires
        controller.phase == PhaseView::Resuming,
    ensures
        ({
            let (next, actions) = controller.react(InputView::Resumed(outcome));
            &&& next.phase == PhaseView::Idle
            &&& next.track == controller.track
            &&& next.played == controller.played
            &&& next.state.queue == controller.state.queue
            &&& match outcome {
                Ok(()) => {
                    &&& actions == seq![
                        ActionView::Emit(EventView::PlaybackResumed),
                        ActionView::Emit(EventView::StateChanged(PlaybackStatus::Playing)),
                    ]
                    &&& next.state.status == PlaybackStatus::Playing
                },
                Err(message) => {
                    &&& actions == seq![
                        ActionView::Emit(EventView::Error("Failed to resume stream: "@ + message)),
                    ]
                    &&& next.state.status == controller.state.status
                },
            }
        }),
{
}

/// An input that is not waited for does nothing: an outcome while nothing or
/// something else is awaited, and anything but the outcome while one is.
pub proof fn law_stray_inputs_do_nothing(controller: ControlView, input: InputView)
    requires
        match (controller.phase, input) {
            (PhaseView::Idle, InputView::Started(_)) => true,
            (PhaseView::Idle, InputView::Paused(_)) => true,
            (PhaseView::Idle, InputView::Resumed(_)) => true,
            (PhaseView::Idle, _) => false,
            (PhaseView::Starting(_), InputView::Started(_)) => false,
            (PhaseView::Pausing, InputView::Paused(_)) => false,
            (PhaseView::Resuming, InputView::Resumed(_)) => false,
            _ => true,
        },
    ensures
        controller.react(input).0 == controller,
        controller.react(input).1.len() == 0,
{
}

/// Playing, stopping, queueing and taking off the queue keep every track: over
/// a command that replaces or ends the session, no track that was played or is
/// queued is forgotten but the one that is started.
pub proof fn law_no_track_is_forgotten(controller: ControlView, command: CommandView)
    requires
        controller.phase == PhaseView::Idle,
        command != CommandView::ClearQueue,
        command != CommandView::Previous,
    ensures
        ({
            let (next, _) = controller.react(InputView::Command(command));
            &&& controller.played.is_prefix_of(next.played)
            &&& next.played.len() <= controller.played.len() + 1
            &&& next.state.queue.len() + 1 >= controller.state.queue.len()
            &&& next.track is None && controller.track is Some ==> next.played.last()
                == controller.track.unwrap()
        }),
{
    let (next, _) = controller.react(InputView::Command(command));
    assert(controller.played =~= next.played.take(controller.played.len() as int));
}

/// What a list of actions stands for is each of its actions, with the same path,
/// volume or event, in the same order.
pub proof fn law_actions_are_what_they_say(actions: Seq<Action>, i: int)
    requires
        0 <= i < actions.len(),
    ensures
        action_views(actions).len() == actions.len(),
        match actions[i] {
            Action::StopSession => action_views(actions)[i] == ActionView::StopSession,
            Action::StartSession(path) => action_views(actions)[i] == ActionView::StartSession(
                path@,
            ),
            Action::PauseStream => action_views(actions)[i] == ActionView::PauseStream,
            Action::ResumeStream => action_views(actions)[i] == ActionView::ResumeStream,
            Action::SetVolume(level) => action_views(actions)[i] == ActionView::SetVolume(level),
            Action::Emit(event) => action_views(actions)[i] == ActionView::Emit(event@),
            Action::Exit => action_views(actions)[i] == ActionView::Exit,
        },
{
}

/// What an input stands for is the same command, message or outcome.
pub proof fn law_inputs_are_what_they_say(input: Input)
    ensures
        match input {
            Input::Command(command) => input@ == InputView::Command(command@),
            Input::Closed => input@ == InputView::Closed,
            Input::Drained => input@ == InputView::Drained,
            Input::StreamError(Some(text)) => input@ == InputView::StreamError(Some(text@)),
            Input::StreamError(None) => input@ == InputView::StreamError(None),
            Input::Started(Ok(())) => input@ == InputView::Started(Ok(())),
            Input::Started(Err(text)) => input@ == InputView::Started(Err(text@)),
            Input::Paused(Ok(())) => input@ == InputView::Paused(Ok(())),
            Input::Paused(Err(text)) => input@ == InputView::Paused(Err(text@)),
            Input::Resumed(Ok(())) => input@ == InputView::Resumed(Ok(())),
            Input::Resumed(Err(text)) => input@ == InputView::Resumed(Err(text@)),
        },
{
}

} // verus!
