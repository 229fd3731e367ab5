//! The command line: what a subcommand asks of the daemon, and how its answer
//! is shown.

use vstd::prelude::*;
use vstd::string::StringExecFns;

use crate::api::{Command, CommandView, Event, EventView, PlaybackState, PlaybackStatus};
use crate::state::StateView;
use crate::text::{decimal, decimal_text, texts};

verus! {

/// A subcommand of the program.
#[derive(Debug)]
pub enum CliCommand {
    /// Play the specified audio file immediately
    Play { path: String },
    /// Pause playback
    Pause,
    /// Resume playback
    Resume,
    /// Stop playback
    Stop,
    /// Skip to the next track in the queue
    Next,
    /// Go back to the previous track in the queue
    Prev,
    /// Clear the playback queue
    Clear,
    /// Add the specified audio file to the end of the queue
    Enqueue { path: String },
    /// Set the playback volume, as the bit pattern of an IEEE 754 single
    Volume { level: u32 },
    /// Show current playback state and queue
    Status,
    /// Run in daemon mode
    Daemon,
}

/// The request that a subcommand stands for, if it is one to a daemon.
pub open spec fn request(subcommand: CliCommand) -> Option<CommandView> {
    match subcommand {
        CliCommand::Play { path } => Some(CommandView::Play(path@)),
        CliCommand::Pause => Some(CommandView::Pause),
        CliCommand::Resume => Some(CommandView::Resume),
        CliCommand::Stop => Some(CommandView::Stop),
        CliCommand::Next => Some(CommandView::Next),
        CliCommand::Prev => Some(CommandView::Previous),
        CliCommand::Clear => Some(CommandView::ClearQueue),
        CliCommand::Enqueue { path } => Some(CommandView::Enqueue(path@)),
        CliCommand::Volume { level } => Some(CommandView::SetVolume(level)),
        CliCommand::Status => Some(CommandView::GetState),
        CliCommand::Daemon => None,
    }
}

/// The command to send to the daemon, unless the program is to be the daemon.
pub fn to_command(subcommand: CliCommand) -> (command: Option<Command>)
    ensures
        match command {
            Some(sent) => request(subcommand) == Some(sent@),
            None => request(subcommand) is None,
        },
{
    match subcommand {
        CliCommand::Play { path } => Some(Command::Play(path)),
        CliCommand::Pause => Some(Command::Pause),
        CliCommand::Resume => Some(Command::Resume),
        CliCommand::Stop => Some(Command::Stop),
        CliCommand::Next => Some(Command::Next),
        CliCommand::Prev => Some(Command::Previous),
        CliCommand::Clear => Some(Command::ClearQueue),
        CliCommand::Enqueue { path } => Some(Command::Enqueue(path)),
        CliCommand::Volume { level } => Some(Command::SetVolume(level)),
        CliCommand::Status => Some(Command::GetState),
        CliCommand::Daemon => None,
    }
}

/// The name of a status.
pub open spec fn status_name(status: PlaybackStatus) -> Seq<char> {
    match status {
        PlaybackStatus::Playing => "Playing"@,
        PlaybackStatus::Paused => "Paused"@,
        PlaybackStatus::Stopped => "Stopped"@,
    }
}

/// The line of the track at a position of the queue, counted from one.
pub open spec fn track_line(position: nat, track: Seq<char>) -> Seq<char> {
    "  "@ + decimal(position) + ". "@ + track
}

/// The lines that show a playback state: the status, then the queue.
pub open spec fn report(state: StateView) -> Seq<Seq<char>> {
    let status = "Status: "@ + status_name(state.status);
    if state.queue.len() == 0 {
        seq![status, "Queue is empty."@]
    } else {
        seq![status, "Queue ("@ + decimal(state.queue.len()) + " items):"@] + Seq::new(
            state.queue.len(),
            |i: int| track_line((i + 1) as nat, state.queue[i]),
        )
    }
}

/// The lines that show a playback state.
pub fn status_lines(state: &PlaybackState) -> (lines: Vec<String>)
    ensures
        texts(lines@) == report(state@),
{
    let name = match state.status {
        PlaybackStatus::Playing => "Playing",
        PlaybackStatus::Paused => "Paused",
        PlaybackStatus::Stopped => "Stopped",
    };
    let count: usize = state.queue.len();
    let mut lines: Vec<String> = Vec::new();
    lines.push("Status: ".to_owned().concat(name));
    if count == 0 {
        lines.push("Queue is empty.".to_owned());
        assert(texts(lines@) =~= report(state@));
        return lines;
    }
    lines.push("Queue (".to_owned().concat(decimal_text(count).as_str()).concat(" items):"));
    assert(texts(lines@) =~= report(state@).take(2));
    for i in 0..count
        invariant
            count == state.queue@.len(),
            count > 0,
            texts(lines@) == report(state@).take(i + 2),
    {
        let number = decimal_text(i + 1);
        let track = &state.queue[i];
        lines.push(
            "  ".to_owned().concat(number.as_str()).concat(". ").concat(track.as_str()),
        );
        let ghost whole = report(state@);
        assert(state@.queue[i as int] == track@);
        assert(whole[i + 2] == track_line((i + 1) as nat, track@));
        assert(whole.take(i + 3) =~= whole.take(i + 2).push(whole[i + 2]));
        assert(texts(lines@) =~= whole.take(i + 2).push(whole[i + 2]));
    }
    assert(report(state@).take(count + 2) =~= report(state@));
    lines
}

/// Whether the client waits for an answer after sending a command. Only the
/// state is answered to the one who asks.
pub fn awaits_answer(command: &Command) -> (waits: bool)
    ensures
        waits == (command@ == CommandView::GetState),
{
    match command {
        Command::GetState => true,
        _ => false,
    }
}

/// What a client that asked for the state does about an event of the daemon.
#[derive(Debug)]
pub enum StatusReply {
    /// This is no answer: read on.
    ReadOn,
    /// Print these lines and stop reading.
    Show(Vec<String>),
}

/// The lines that answer a client that asked for the state, if the event is
/// the answer.
pub open spec fn answer(event: EventView) -> Option<Seq<Seq<char>>> {
    match event {
        EventView::FullState(state) => Some(report(state)),
        _ => None,
    }
}

/// Decide what to do about an event after asking for the state. The first full
/// state is the answer.
pub fn status_reply(event: &Event) -> (reply: StatusReply)
    ensures
        match reply {
            StatusReply::Show(lines) => answer(event@) == Some(texts(lines@)),
            StatusReply::ReadOn => answer(event@) is None,
        },
{
    match event {
        Event::FullState(state) => StatusReply::Show(status_lines(state)),
        _ => StatusReply::ReadOn,
    }
}

/// Each subcommand asks for what it says, with the same path or level, and only
/// running as the daemon asks for nothing.
pub proof fn law_subcommands_ask_for_what_they_say(subcommand: CliCommand)
    ensures
        match subcommand {
            CliCommand::Play { path } => request(subcommand) == Some(CommandView::Play(path@)),
            CliCommand::Pause => request(subcommand) == Some(CommandView::Pause),
            CliCommand::Resume => request(subcommand) == Some(CommandView::Resume),
            CliCommand::Stop => request(subcommand) == Some(CommandView::Stop),
            CliCommand::Next => request(subcommand) == Some(CommandView::Next),
            CliCommand::Prev => request(subcommand) == Some(CommandView::Previous),
            CliCommand::Clear => request(subcommand) == Some(CommandView::ClearQueue),
            CliCommand::Enqueue { path } => request(subcommand) == Some(
                CommandView::Enqueue(path@),
            ),
            CliCommand::Volume { level } => request(subcommand) == Some(
                CommandView::SetVolume(level),
            ),
            CliCommand::Status => request(subcommand) == Some(CommandView::GetState),
            CliCommand::Daemon => request(subcommand) is None,
        },
{
}

/// A report tells the status first. Of an empty queue it says so; of another it
/// tells the number of tracks and then every track, in order and numbered from
/// one.
pub proof fn law_report_tells_everything(state: StateView)
    ensures
        ({
            let lines = report(state);
            let count = state.queue.len();
            &&& lines[0] == match state.status {
                PlaybackStatus::Playing => "Status: "@ + "Playing"@,
                PlaybackStatus::Paused => "Status: "@ + "Paused"@,
                PlaybackStatus::Stopped => "Status: "@ + "Stopped"@,
            }
            &&& count == 0 ==> lines.len() == 2 && lines[1] == "Queue is empty."@
            &&& count > 0 ==> {
                &&& lines.len() == count + 2
                &&& lines[1] == "Queue ("@ + decimal(count) + " items):"@
                &&& forall|i: int|
                    0 <= i < count ==> #[trigger] lines[i + 2] == "  "@ + decimal((i + 1) as nat)
                        + ". "@ + state.queue[i]
            }
        }),
{
}

/// Only a full state answers a client that asked for the state, and all of it
/// is reported.
pub proof fn law_full_state_is_the_answer(event: EventView)
    ensures
        match event {
            EventView::FullState(state) => answer(event) == Some(report(state)),
            EventView::PlaybackStarted(_) => answer(event) is None,
            EventView::PlaybackStopped => answer(event) is None,
            EventView::PlaybackPaused => answer(event) is None,
            EventView::PlaybackResumed => answer(event) is None,
            EventView::PlaybackFinished => answer(event) is None,
            EventView::Error(_) => answer(event) is None,
            EventView::QueueUpdated => answer(event) is None,
            EventView::StateChanged(_) => answer(event) is None,
        },
{
}

} // verus!
