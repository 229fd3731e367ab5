//! Laws of the control loop, over the reactions that
//! [`Controller::handle`](super::Controller::handle) is proved to have.

use vstd::prelude::*;

use super::{on_scale, ActionView, ControlView, InputView, PhaseView, FULL_VOLUME};
use crate::api::{CommandView, EventView, PlaybackStatus};

verus! {

/// What a controller becomes over a sequence of inputs.
pub open spec fn run(controller: ControlView, inputs: Seq<InputView>) -> ControlView
    decreases inputs.len(),
{
    if inputs.len() == 0 {
        controller
    } else {
        run(controller.react(inputs[0]).0, inputs.drop_first())
    }
}

/// The inputs that queue `paths`, in order.
pub open spec fn enqueue_all(paths: Seq<Seq<char>>) -> Seq<InputView> {
    paths.map_values(|path: Seq<char>| InputView::Command(CommandView::Enqueue(path)))
}

/// The inputs that skip forward `count` times, each new session starting well.
pub open spec fn skip_forward(count: nat) -> Seq<InputView> {
    Seq::new(
        2 * count,
        |i: int|
            if i % 2 == 0 {
                InputView::Command(CommandView::Next)
            } else {
                InputView::Started(Ok(()))
            },
    )
}

/// Whether an idle controller turns a command down.
pub open spec fn refused(controller: ControlView, command: CommandView) -> bool {
    match command {
        CommandView::Pause => !controller.active() || controller.state.status
            != PlaybackStatus::Playing,
        CommandView::Resume => !controller.active() || controller.state.status
            != PlaybackStatus::Paused,
        CommandView::Previous => controller.played.len() == 0,
        _ => false,
    }
}

/// A controller stays consistent over any input.
pub proof fn law_consistency_is_kept(controller: ControlView, input: InputView)
    requires
        controller.consistent(),
    ensures
        controller.react(input).0.consistent(),
{
}

/// A controller is consistent after any sequence of inputs.
pub proof fn law_always_consistent(inputs: Seq<InputView>)
    ensures
        run(ControlView::initial(), inputs).consistent(),
{
    lemma_run_consistent(ControlView::initial(), inputs);
}

proof fn lemma_run_consistent(controller: ControlView, inputs: Seq<InputView>)
    requires
        controller.consistent(),
    ensures
        run(controller, inputs).consistent(),
    decreases inputs.len(),
{
    if inputs.len() > 0 {
        law_consistency_is_kept(controller, inputs[0]);
        lemma_run_consistent(controller.react(inputs[0]).0, inputs.drop_first());
    }
}

/// Queued tracks go to the end of the queue, in the order in which they were
/// queued, and queueing changes nothing else.
pub proof fn law_enqueue_appends(controller: ControlView, paths: Seq<Seq<char>>)
    requires
        controller.phase == PhaseView::Idle,
    ensures
        run(controller, enqueue_all(paths)) == controller.with_queue(
            controller.state.queue + paths,
        ),
    decreases paths.len(),
{
    let inputs = enqueue_all(paths);
    if paths.len() == 0 {
        assert(controller.state.queue + paths =~= controller.state.queue);
    } else {
        let next = controller.react(inputs[0]).0;
        assert(inputs.drop_first() =~= enqueue_all(paths.drop_first()));
        law_enqueue_appends(next, paths.drop_first());
        assert(next.state.queue + paths.drop_first() =~= controller.state.queue + paths);
    }
}

/// Skipping forward `count` times takes the `count` oldest tracks off the
/// queue and leaves the rest in order; one more skip starts the track that is
/// then the oldest.
pub proof fn law_next_plays_in_order(controller: ControlView, count: nat)
    requires
        controller.phase == PhaseView::Idle,
        count < controller.state.queue.len(),
    ensures
        ({
            let skipped = run(controller, skip_forward(count));
            let (_, actions) = skipped.react(InputView::Command(CommandView::Next));
            &&& skipped.phase == PhaseView::Idle
            &&& skipped.state.queue == controller.state.queue.skip(count as int)
            &&& actions.last() == ActionView::StartSession(controller.state.queue[count as int])
        }),
    decreases count,
{
    let inputs = skip_forward(count);
    if count == 0 {
        assert(controller.state.queue.skip(0) =~= controller.state.queue);
    } else {
        let starting = controller.react(inputs[0]).0;
        let playing = starting.react(inputs[1]).0;
        let rest = skip_forward((count - 1) as nat);
        assert(inputs.drop_first().drop_first() =~= rest);
        assert(inputs.drop_first()[0] == inputs[1]);
        assert(run(controller, inputs) == run(starting, inputs.drop_first()));
        assert(run(starting, inputs.drop_first()) == run(playing, rest));
        law_next_plays_in_order(playing, (count - 1) as nat);
        assert(playing.state.queue == controller.state.queue.drop_first());
        assert(playing.state.queue.skip(count - 1) =~= controller.state.queue.skip(count as int));
    }
}

/// The queue is first in, first out: of tracks queued on a fresh player, the
/// one at position `count` is started by the skip that follows `count` skips.
pub proof fn law_queue_is_fifo(paths: Seq<Seq<char>>, count: nat)
    requires
        count < paths.len(),
    ensures
        ({
            let queued = run(ControlView::initial(), enqueue_all(paths));
            let skipped = run(queued, skip_forward(count));
            let (_, actions) = skipped.react(InputView::Command(CommandView::Next));
            actions.last() == ActionView::StartSession(paths[count as int])
        }),
{
    law_enqueue_appends(ControlView::initial(), paths);
    assert(ControlView::initial().state.queue + paths =~= paths);
    law_next_plays_in_order(ControlView::initial().with_queue(paths), count);
}

/// The track that an input adds to the queue, if it does.
pub open spec fn enqueued_by(controller: ControlView, input: InputView) -> Seq<Seq<char>> {
    match (controller.phase, input) {
        (PhaseView::Idle, InputView::Command(CommandView::Enqueue(path))) => seq![path],
        _ => Seq::empty(),
    }
}

/// The track that an input takes off the queue, if it does.
pub open spec fn taken_by(controller: ControlView, input: InputView) -> Seq<Seq<char>> {
    let takes = input == InputView::Drained || input == InputView::Command(CommandView::Next);
    if controller.phase == PhaseView::Idle && takes && controller.state.queue.len() > 0 {
        seq![controller.state.queue[0]]
    } else {
        Seq::empty()
    }
}

/// All tracks that a sequence of inputs adds to the queue, in order.
pub open spec fn all_enqueued(controller: ControlView, inputs: Seq<InputView>) -> Seq<Seq<char>>
    decreases inputs.len(),
{
    if inputs.len() == 0 {
        Seq::empty()
    } else {
        enqueued_by(controller, inputs[0]) + all_enqueued(
            controller.react(inputs[0]).0,
            inputs.drop_first(),
        )
    }
}

/// All tracks that a sequence of inputs takes off the queue, in order.
pub open spec fn all_taken(controller: ControlView, inputs: Seq<InputView>) -> Seq<Seq<char>>
    decreases inputs.len(),
{
    if inputs.len() == 0 {
        Seq::empty()
    } else {
        taken_by(controller, inputs[0]) + all_taken(
            controller.react(inputs[0]).0,
            inputs.drop_first(),
        )
    }
}

/// The queue is first in, first out over any inputs that do not clear it: what
/// was taken off, followed by what is queued at the end, is what was queued at
/// first, followed by what was added.
pub proof fn law_queue_keeps_order(controller: ControlView, inputs: Seq<InputView>)
    requires
        forall|i: int|
            0 <= i < inputs.len() ==> #[trigger] inputs[i] != InputView::Command(
                CommandView::ClearQueue,
            ),
    ensures
        all_taken(controller, inputs) + run(controller, inputs).state.queue
            == controller.state.queue + all_enqueued(controller, inputs),
    decreases inputs.len(),
{
    let queue = controller.state.queue;
    if inputs.len() == 0 {
        assert(all_taken(controller, inputs) + queue =~= queue + all_enqueued(controller, inputs));
    } else {
        let input = inputs[0];
        let rest = inputs.drop_first();
        let next = controller.react(input).0;
        let taken = taken_by(controller, input);
        let added = enqueued_by(controller, input);
        assert forall|i: int| 0 <= i < rest.len() implies #[trigger] rest[i] != InputView::Command(
            CommandView::ClearQueue,
        ) by {
            assert(rest[i] == inputs[i + 1]);
        }
        law_queue_keeps_order(next, rest);
        assert(taken + next.state.queue =~= queue + added);
        let end = run(next, rest).state.queue;
        assert(taken + all_taken(next, rest) + end =~= taken + (all_taken(next, rest) + end));
        assert(taken + (next.state.queue + all_enqueued(next, rest)) =~= taken + next.state.queue
            + all_enqueued(next, rest));
        assert(queue + added + all_enqueued(next, rest) =~= queue + (added + all_enqueued(
            next,
            rest,
        )));
    }
}

/// What is taken off the queue is started.
pub proof fn law_taken_tracks_are_started(controller: ControlView, input: InputView)
    requires
        taken_by(controller, input).len() > 0,
    ensures
        controller.react(input).1.last() == ActionView::StartSession(
            taken_by(controller, input)[0],
        ),
{
}

/// Going back starts the track that was played last, and leaves the queue
/// alone. The session that exists is stopped before.
pub proof fn law_previous_goes_back(controller: ControlView)
    requires
        controller.phase == PhaseView::Idle,
        controller.played.len() > 0,
    ensures
        ({
            let (next, actions) = controller.react(InputView::Command(CommandView::Previous));
            &&& actions == controller.stop_actions().push(
                ActionView::StartSession(controller.played.last()),
            )
            &&& next.played == controller.played.drop_last()
            &&& next.state == controller.state
        }),
{
}

/// Of two tracks played one after the other, going back starts the first.
pub proof fn law_previous_is_the_track_before(
    controller: ControlView,
    first: Seq<char>,
    second: Seq<char>,
)
    requires
        controller.phase == PhaseView::Idle,
    ensures
        ({
            let playing = run(
                controller,
                seq![
                    InputView::Command(CommandView::Play(first)),
                    InputView::Started(Ok(())),
                    InputView::Command(CommandView::Play(second)),
                    InputView::Started(Ok(())),
                ],
            );
            let (_, actions) = playing.react(InputView::Command(CommandView::Previous));
            actions == seq![ActionView::StopSession, ActionView::StartSession(first)]
        }),
{
    let inputs = seq![
        InputView::Command(CommandView::Play(first)),
        InputView::Started(Ok(())),
        InputView::Command(CommandView::Play(second)),
        InputView::Started(Ok(())),
    ];
    reveal_with_fuel(run, 5);
    assert(inputs.drop_first()[0] == inputs[1]);
    assert(inputs.drop_first().drop_first()[0] == inputs[2]);
    assert(inputs.drop_first().drop_first().drop_first()[0] == inputs[3]);
    let playing = run(controller, inputs);
    assert(playing.track == Some(second));
    assert(playing.played.last() == first);
    let (_, actions) = playing.react(InputView::Command(CommandView::Previous));
    assert(actions =~= seq![ActionView::StopSession, ActionView::StartSession(first)]);
}

/// Setting the volume changes nothing but the volume, and is no error.
pub proof fn law_volume_is_set(controller: ControlView, level: u32)
    requires
        controller.phase == PhaseView::Idle,
    ensures
        controller.react(InputView::Command(CommandView::SetVolume(level))) == (
            controller,
            seq![ActionView::SetVolume(on_scale(level))],
        ),
        level <= FULL_VOLUME ==> on_scale(level) == level,
        on_scale(level) <= FULL_VOLUME,
{
}

/// When a track ends, the oldest queued track is started by itself.
pub proof fn law_end_of_track_starts_the_next(controller: ControlView)
    requires
        controller.phase == PhaseView::Idle,
        controller.state.queue.len() > 0,
    ensures
        ({
            let (next, actions) = controller.react(InputView::Drained);
            &&& actions.last() == ActionView::StartSession(controller.state.queue[0])
            &&& next.state.queue == controller.state.queue.drop_first()
        }),
{
}

/// A refused command is answered by exactly one error and changes nothing.
pub proof fn law_refusal_changes_nothing(controller: ControlView, command: CommandView)
    requires
        controller.phase == PhaseView::Idle,
        refused(controller, command),
    ensures
        ({
            let (next, actions) = controller.react(InputView::Command(command));
            &&& next == controller
            &&& actions.len() == 1
            &&& actions[0] matches ActionView::Emit(EventView::Error(_))
        }),
{
}

/// A command that is not refused is not answered by an error.
pub proof fn law_only_refusals_are_errors(controller: ControlView, command: CommandView, i: int)
    requires
        controller.phase == PhaseView::Idle,
        !refused(controller, command),
        0 <= i < controller.react(InputView::Command(command)).1.len(),
    ensures
        !(controller.react(InputView::Command(command)).1[i] matches ActionView::Emit(
            EventView::Error(_),
        )),
{
}

/// Every announced status is the status the controller then has.
pub proof fn law_announced_status_is_true(
    controller: ControlView,
    input: InputView,
    status: PlaybackStatus,
)
    requires
        controller.react(input).1.contains(ActionView::Emit(EventView::StateChanged(status))),
    ensures
        controller.react(input).0.state.status == status,
{
    let actions = controller.react(input).1;
    let i = choose|i: int|
        0 <= i < actions.len() && actions[i] == ActionView::Emit(EventView::StateChanged(status));
    assert(actions[i] == ActionView::Emit(EventView::StateChanged(status)));
}

/// A changed status is announced in the reaction that changes it, except
/// where a track ends while others wait: then the new track's start announces
/// the status.
pub proof fn law_status_change_is_announced(controller: ControlView, input: InputView)
    requires
        controller.react(input).0.state.status != controller.state.status,
        !(input == InputView::Drained && controller.state.queue.len() > 0),
    ensures
        controller.react(input).1.last() == ActionView::Emit(
            EventView::StateChanged(controller.react(input).0.state.status),
        ),
{
}

/// A changed queue is announced in the reaction that changes it.
pub proof fn law_queue_change_is_announced(controller: ControlView, input: InputView)
    requires
        controller.react(input).0.state.queue != controller.state.queue,
    ensures
        controller.react(input).1.contains(ActionView::Emit(EventView::QueueUpdated)),
{
    let actions = controller.react(input).1;
    let news = ActionView::Emit(EventView::QueueUpdated);
    if input == InputView::Drained {
        let i = controller.stop_actions().len() as int + 1;
        assert(actions[i] == news);
    } else {
        assert(actions[0] == news);
    }
}

/// There is at most one session: a reaction that starts one starts it as its
/// last action, and stops the one that exists before that.
pub proof fn law_one_session_at_a_time(controller: ControlView, input: InputView, i: int)
    requires
        0 <= i < controller.react(input).1.len(),
        controller.react(input).1[i] matches ActionView::StartSession(_),
    ensures
        i == controller.react(input).1.len() - 1,
        controller.active() ==> controller.react(input).1.contains(ActionView::StopSession),
        !controller.react(input).0.active(),
{
    let actions = controller.react(input).1;
    if controller.active() {
        if input == InputView::Drained {
            assert(actions[0] == ActionView::StopSession);
        } else if input == InputView::Command(CommandView::Next) {
            assert(actions[1] == ActionView::StopSession);
        } else {
            assert(actions[0] == ActionView::StopSession);
        }
    }
}

/// Resuming undoes pausing.
pub proof fn law_resume_undoes_pause(controller: ControlView)
    requires
        controller.phase == PhaseView::Idle,
        controller.active(),
        controller.state.status == PlaybackStatus::Playing,
    ensures
        run(
            controller,
            seq![
                InputView::Command(CommandView::Pause),
                InputView::Paused(Ok(())),
                InputView::Command(CommandView::Resume),
                InputView::Resumed(Ok(())),
            ],
        ) == controller,
{
    let inputs = seq![
        InputView::Command(CommandView::Pause),
        InputView::Paused(Ok(())),
        InputView::Command(CommandView::Resume),
        InputView::Resumed(Ok(())),
    ];
    reveal_with_fuel(run, 5);
    assert(inputs.drop_first()[0] == inputs[1]);
    assert(inputs.drop_first().drop_first()[0] == inputs[2]);
    assert(inputs.drop_first().drop_first().drop_first()[0] == inputs[3]);
    assert(run(controller, inputs) == controller);
}

/// Asking for the state changes nothing and is answered by all of it.
pub proof fn law_get_state_reports_everything(controller: ControlView)
    requires
        controller.phase == PhaseView::Idle,
    ensures
        controller.react(InputView::Command(CommandView::GetState)) == (
            controller,
            seq![ActionView::Emit(EventView::FullState(controller.state))],
        ),
{
}

/// Stopping a second time does nothing.
pub proof fn law_stop_is_idempotent(controller: ControlView)
    requires
        controller.phase == PhaseView::Idle,
    ensures
        ({
            let stop = InputView::Command(CommandView::Stop);
            let stopped = controller.react(stop).0;
            stopped.react(stop) == (stopped, Seq::<ActionView>::empty())
        }),
{
}

/// After the loop was left nothing more is done.
pub proof fn law_exit_is_final(controller: ControlView, input: InputView)
    requires
        controller.phase == PhaseView::Idle,
    ensures
        ({
            let (exited, actions) = controller.react(InputView::Closed);
            &&& actions.last() == ActionView::Exit
            &&& exited.react(input) == (exited, Seq::<ActionView>::empty())
        }),
{
}

/// The loop is left only when no client can ask for anything any more.
pub proof fn law_only_closing_exits(controller: ControlView, input: InputView)
    requires
        controller.react(input).1.contains(ActionView::Exit),
    ensures
        input == InputView::Closed,
        controller.phase == PhaseView::Idle,
        controller.react(input).0.phase == PhaseView::Exited,
{
    let actions = controller.react(input).1;
    let i = choose|i: int| 0 <= i < actions.len() && actions[i] == ActionView::Exit;
    assert(actions[i] == ActionView::Exit);
}

} // verus!
