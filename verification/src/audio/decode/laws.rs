//! Laws of decoding, over the reactions that
//! [`DecodeSession::advance`](super::DecodeSession::advance) is proved to have.

use vstd::prelude::*;

use super::{
    internal_samples, next_chunk, possible, DecodeError, DecodeEventView, DecodePhaseView,
    DecodeStepView, DecodeView,
};
use crate::audio::{Sample, ACCUM_MAX_SAMPLES, INTERNAL_SAMPLE_RATE, SILENCE};

verus! {

/// An event, and how many samples the resampler takes next.
pub type Happening = (DecodeEventView, nat);

/// What a session becomes over a sequence of events.
pub open spec fn run(session: DecodeView, happenings: Seq<Happening>) -> DecodeView
    decreases happenings.len(),
{
    if happenings.len() == 0 {
        session
    } else {
        let (event, needed) = happenings[0];
        run(session.react(event, needed).0, happenings.drop_first())
    }
}

/// A session stays consistent over any event.
pub proof fn law_consistency_is_kept(session: DecodeView, event: DecodeEventView, needed: nat)
    requires
        session.consistent(),
        possible(event),
    ensures
        session.react(event, needed).0.consistent(),
{
}

/// The resampler's input buffer never exceeds its maximum, whatever happens.
pub proof fn law_accumulation_is_bounded(track: u32, happenings: Seq<Happening>)
    requires
        forall|i: int| 0 <= i < happenings.len() ==> possible((#[trigger] happenings[i]).0),
    ensures
        run(DecodeView::initial(track), happenings).accum.len() <= ACCUM_MAX_SAMPLES,
{
    lemma_run_consistent(DecodeView::initial(track), happenings);
}

proof fn lemma_run_consistent(session: DecodeView, happenings: Seq<Happening>)
    requires
        session.consistent(),
        forall|i: int| 0 <= i < happenings.len() ==> possible((#[trigger] happenings[i]).0),
    ensures
        run(session, happenings).consistent(),
    decreases happenings.len(),
{
    if happenings.len() > 0 {
        let (event, needed) = happenings[0];
        law_consistency_is_kept(session, event, needed);
        let rest = happenings.drop_first();
        assert forall|i: int| 0 <= i < rest.len() implies possible((#[trigger] rest[i]).0) by {
            assert(rest[i] == happenings[i + 1]);
        }
        lemma_run_consistent(session.react(event, needed).0, rest);
    }
}

/// The samples that an event adds to the resampler's input.
pub open spec fn fed(session: DecodeView, event: DecodeEventView) -> Seq<Sample> {
    let offered = match (session.phase, event) {
        (DecodePhaseView::Decoding, DecodeEventView::Decoded { rate, channels, samples }) => if rate
            != INTERNAL_SAMPLE_RATE && session.current_rate == Some(rate) {
            internal_samples(samples, channels)
        } else {
            Seq::empty()
        },
        (
            DecodePhaseView::Building { rate, channels, samples },
            DecodeEventView::Built(true),
        ) => internal_samples(samples, channels),
        _ => Seq::empty(),
    };
    if session.accum.len() + offered.len() <= ACCUM_MAX_SAMPLES {
        offered
    } else {
        Seq::empty()
    }
}

/// The samples that a step sends through the resampler.
pub open spec fn sent(step: DecodeStepView) -> Seq<Sample> {
    match step {
        DecodeStepView::Resample(chunk) => chunk,
        _ => Seq::empty(),
    }
}

/// All samples that a sequence of events adds to the resampler's input.
pub open spec fn all_fed(session: DecodeView, happenings: Seq<Happening>) -> Seq<Sample>
    decreases happenings.len(),
{
    if happenings.len() == 0 {
        Seq::empty()
    } else {
        let (event, needed) = happenings[0];
        fed(session, event) + all_fed(
            session.react(event, needed).0,
            happenings.drop_first(),
        )
    }
}

/// All samples that go through the resampler over a sequence of events.
pub open spec fn all_sent(session: DecodeView, happenings: Seq<Happening>) -> Seq<Sample>
    decreases happenings.len(),
{
    if happenings.len() == 0 {
        Seq::empty()
    } else {
        let (event, needed) = happenings[0];
        let (next, step) = session.react(event, needed);
        sent(step) + all_sent(next, happenings.drop_first())
    }
}

/// Whether the rate stays the same and the end is not reached, so that no
/// resampler is replaced and no silence is added.
pub open spec fn steady(session: DecodeView, happenings: Seq<Happening>) -> bool
    decreases happenings.len(),
{
    happenings.len() == 0 || {
        let (event, needed) = happenings[0];
        let (next, step) = session.react(event, needed);
        &&& !(step matches DecodeStepView::Build(_))
        &&& next.phase != (DecodePhaseView::Resampling { pad: true })
        &&& steady(next, happenings.drop_first())
    }
}

/// Between the decoder and the resampler nothing is lost, repeated or
/// reordered while the rate stays the same: what goes through the resampler,
/// followed by what still waits, is what waited at first, followed by what
/// was added.
pub proof fn law_nothing_is_lost_before_resampling(
    session: DecodeView,
    happenings: Seq<Happening>,
)
    requires
        steady(session, happenings),
    ensures
        all_sent(session, happenings) + run(session, happenings).accum == session.accum + all_fed(
            session,
            happenings,
        ),
    decreases happenings.len(),
{
    if happenings.len() == 0 {
        assert(Seq::<Sample>::empty() + session.accum =~= session.accum + Seq::<Sample>::empty());
    } else {
        let (event, needed) = happenings[0];
        let (next, step) = session.react(event, needed);
        let rest = happenings.drop_first();
        law_nothing_is_lost_before_resampling(next, rest);
        lemma_one_step_loses_nothing(session, event, needed);
        lemma_regroup(
            sent(step),
            all_sent(next, rest),
            run(next, rest).accum,
            next.accum,
            all_fed(next, rest),
            session.accum,
            fed(session, event),
        );
    }
}

proof fn lemma_one_step_loses_nothing(session: DecodeView, event: DecodeEventView, needed: nat)
    requires
        !(session.react(event, needed).1 matches DecodeStepView::Build(_)),
        session.react(event, needed).0.phase != (DecodePhaseView::Resampling { pad: true }),
    ensures
        sent(session.react(event, needed).1) + session.react(event, needed).0.accum
            == session.accum + fed(session, event),
{
    let (next, step) = session.react(event, needed);
    let full = session.accum + fed(session, event);
    if session.accum.len() + fed(session, event).len() >= needed {
        assert(full.take(needed as int) + full.skip(needed as int) =~= full);
    }
    if fed(session, event).len() == 0 {
        assert(full =~= session.accum);
    }
    assert(Seq::<Sample>::empty() + next.accum =~= next.accum);
}

/// Two equal splits of a sequence can be continued alike.
proof fn lemma_regroup(
    a: Seq<Sample>,
    b: Seq<Sample>,
    c: Seq<Sample>,
    d: Seq<Sample>,
    e: Seq<Sample>,
    f: Seq<Sample>,
    g: Seq<Sample>,
)
    requires
        b + c == d + e,
        a + d == f + g,
    ensures
        a + b + c == f + (g + e),
{
    assert(a + b + c =~= a + (b + c));
    assert(a + (d + e) =~= a + d + e);
    assert(f + g + e =~= f + (g + e));
}

/// A chunk is a prefix of the buffer, or all of it filled up with silence;
/// what is not in the chunk stays.
pub proof fn law_chunks_keep_the_samples(accum: Seq<Sample>, needed: nat, pad: bool)
    ensures
        match next_chunk(accum, needed, pad) {
            Some((chunk, rest)) => {
                &&& chunk.len() == needed
                &&& accum.is_prefix_of(chunk + rest)
                &&& forall|i: int|
                    accum.len() <= i < chunk.len() ==> #[trigger] chunk[i] == SILENCE
            },
            None => accum.len() < needed && (accum.len() == 0 || !pad),
        },
{
    if let Some((chunk, rest)) = next_chunk(accum, needed, pad) {
        assert(accum =~= (chunk + rest).take(accum.len() as int));
    }
}

/// What waits for the resampler when the packets end is sent through it, oldest
/// first: its first chunk, followed by what still waits, begins with all of it.
pub proof fn law_tail_is_resampled(session: DecodeView, needed: nat)
    requires
        session.phase == DecodePhaseView::Polling,
        session.current_rate is Some,
        session.accum.len() > 0,
    ensures
        ({
            let (next, step) = session.react(DecodeEventView::EndOfStream, needed);
            &&& step matches DecodeStepView::Resample(chunk) && session.accum.is_prefix_of(
                chunk + next.accum,
            )
            &&& session.accum.len() <= needed ==> next.accum.len() == 0
        }),
{
    law_chunks_keep_the_samples(session.accum, needed, true);
}

/// How many chunks of `needed` samples it takes to hold `len` samples.
pub open spec fn chunk_count(len: nat, needed: nat) -> nat
    recommends
        needed > 0,
    decreases len,
{
    if len == 0 || needed == 0 {
        0
    } else if len <= needed {
        1
    } else {
        1 + chunk_count((len - needed) as nat, needed)
    }
}

/// As many chunks as needed means rounding up.
pub proof fn law_chunk_count_rounds_up(len: nat, needed: nat)
    requires
        needed > 0,
    ensures
        chunk_count(len, needed) * needed >= len,
        len > 0 ==> (chunk_count(len, needed) - 1) * needed < len,
    decreases len,
{
    if len > needed {
        law_chunk_count_rounds_up((len - needed) as nat, needed);
        let rest = chunk_count((len - needed) as nat, needed);
        assert((1 + rest) * needed == needed + rest * needed) by (nonlinear_arith);
        assert(rest * needed == needed + (rest - 1) * needed) by (nonlinear_arith);
    } else if len > 0 {
        assert(1 * needed == needed && 0 * needed == 0) by (nonlinear_arith);
    } else {
        assert(0 * needed == 0) by (nonlinear_arith);
    }
}

/// Samples filled up with silence to a length.
pub open spec fn padded(samples: Seq<Sample>, len: nat) -> Seq<Sample> {
    Seq::new(
        len,
        |i: int|
            if i < samples.len() {
                samples[i]
            } else {
                SILENCE
            },
    )
}

/// What happens while the tail is resampled undisturbed: for each chunk, what
/// the resampler makes of it, if it does not fail, and that this was pushed.
pub open spec fn drain_events(outputs: Seq<Option<Seq<Sample>>>, needed: nat) -> Seq<Happening>
    decreases outputs.len(),
{
    if outputs.len() == 0 {
        Seq::empty()
    } else {
        let resampled: Happening = (DecodeEventView::Resampled(outputs[0]), needed);
        let pushed: Happening = (DecodeEventView::Pushed(true), needed);
        let rest = drain_events(outputs.drop_first(), needed);
        if outputs[0] is Some {
            seq![resampled, pushed] + rest
        } else {
            seq![resampled] + rest
        }
    }
}

/// At the end all that waits goes through the resampler: as many chunks as it
/// takes, only the last one filled up with silence. Then nothing waits any more
/// and the session has ended.
pub proof fn law_tail_is_drained(
    session: DecodeView,
    needed: nat,
    outputs: Seq<Option<Seq<Sample>>>,
)
    requires
        session.phase == DecodePhaseView::Polling,
        session.current_rate is Some,
        needed > 0,
        outputs.len() == chunk_count(session.accum.len(), needed),
    ensures
        ({
            let end: Happening = (DecodeEventView::EndOfStream, needed);
            let happenings = seq![end] + drain_events(outputs, needed);
            &&& all_sent(session, happenings) == padded(
                session.accum,
                chunk_count(session.accum.len(), needed) * needed,
            )
            &&& run(session, happenings).accum.len() == 0
            &&& run(session, happenings).phase == DecodePhaseView::Finished
        }),
{
    let end: Happening = (DecodeEventView::EndOfStream, needed);
    let events = drain_events(outputs, needed);
    let happenings = seq![end] + events;
    assert(happenings.drop_first() =~= events);
    lemma_drain(session, needed, outputs);
    assert(session.react(end.0, needed) == session.flush(true, needed));
}

/// From any moment at which the next chunk of the tail is asked for.
proof fn lemma_drain(session: DecodeView, needed: nat, outputs: Seq<Option<Seq<Sample>>>)
    requires
        needed > 0,
        outputs.len() == chunk_count(session.accum.len(), needed),
    ensures
        ({
            let (next, step) = session.flush(true, needed);
            let events = drain_events(outputs, needed);
            &&& sent(step) + all_sent(next, events) == padded(
                session.accum,
                chunk_count(session.accum.len(), needed) * needed,
            )
            &&& run(next, events).accum.len() == 0
            &&& run(next, events).phase == DecodePhaseView::Finished
        }),
    decreases outputs.len(),
{
    let (next, step) = session.flush(true, needed);
    let events = drain_events(outputs, needed);
    let count = chunk_count(session.accum.len(), needed);
    if session.accum.len() == 0 {
        assert(0 * needed == 0) by (nonlinear_arith);
        assert(sent(step) + all_sent(next, events) =~= padded(session.accum, 0));
    } else {
        let rest = drain_events(outputs.drop_first(), needed);
        let after = next.flush(true, needed);
        lemma_drain(next, needed, outputs.drop_first());
        let others = chunk_count(next.accum.len(), needed);
        assert(count == 1 + others);
        assert((1 + others) * needed == needed + others * needed) by (nonlinear_arith);
        if outputs[0] is Some {
            let pushing = next.react(events[0].0, needed).0;
            assert(events.drop_first().drop_first() =~= rest);
            assert(events.drop_first()[0] == events[1]);
            assert(pushing.react(events[1].0, needed) == after);
            assert(run(next, events) == run(pushing, events.drop_first()));
            assert(run(pushing, events.drop_first()) == run(after.0, rest));
            assert(all_sent(pushing, events.drop_first()) == sent(after.1) + all_sent(
                after.0,
                rest,
            ));
            assert(all_sent(next, events) =~= sent(after.1) + all_sent(after.0, rest));
        } else {
            assert(events.drop_first() =~= rest);
            assert(next.react(events[0].0, needed) == after);
            assert(run(next, events) == run(after.0, rest));
        }
        let whole = padded(session.accum, count * needed);
        assert(whole =~= sent(step) + padded(next.accum, others * needed));
    }
}

/// What goes into the output queue over a sequence of events, where `step` was
/// asked for before the first of them. Of a push that is cut short, `partial`
/// samples go in.
pub open spec fn queued(
    session: DecodeView,
    step: DecodeStepView,
    happenings: Seq<Happening>,
    partial: nat,
) -> Seq<Sample>
    decreases happenings.len(),
{
    if happenings.len() == 0 {
        Seq::empty()
    } else {
        let (event, needed) = happenings[0];
        let (next, next_step) = session.react(event, needed);
        let pushed = match (step, event) {
            (DecodeStepView::Push(samples), DecodeEventView::Pushed(complete)) => if complete
                || samples.len() <= partial {
                samples
            } else {
                samples.take(partial as int)
            },
            _ => Seq::empty(),
        };
        pushed + queued(next, next_step, happenings.drop_first(), partial)
    }
}

/// A session that is asked to end while it pushes puts into the queue a prefix
/// of what it would have put there undisturbed, wherever the request comes and
/// however many samples of the push have gone in by then: only what comes after
/// the request is missing.
pub proof fn law_shutdown_cuts_the_output_short(
    session: DecodeView,
    step: DecodeStepView,
    happenings: Seq<Happening>,
    cut: nat,
    partial: nat,
)
    requires
        cut < happenings.len(),
        happenings[cut as int].0 == DecodeEventView::Pushed(true),
    ensures
        ({
            let disturbed: Happening = (DecodeEventView::Pushed(false), happenings[cut as int].1);
            queued(session, step, happenings.take(cut as int).push(disturbed), partial)
                .is_prefix_of(queued(session, step, happenings, partial))
        }),
    decreases cut,
{
    let disturbed: Happening = (DecodeEventView::Pushed(false), happenings[cut as int].1);
    let short = happenings.take(cut as int).push(disturbed);
    let part = queued(session, step, short, partial);
    let full = queued(session, step, happenings, partial);
    let (next, next_step) = session.react(short[0].0, short[0].1);
    if cut == 0 {
        assert(short.drop_first() =~= Seq::empty());
        assert(queued(next, next_step, short.drop_first(), partial) =~= Seq::empty());
    } else {
        assert(short[0] == happenings[0]);
        assert(short.drop_first() =~= happenings.drop_first().take(cut - 1).push(disturbed));
        law_shutdown_cuts_the_output_short(
            next,
            next_step,
            happenings.drop_first(),
            (cut - 1) as nat,
            partial,
        );
    }
    assert(part =~= full.take(part.len() as int));
}

/// A request to end that waits from the start keeps everything out of the
/// queue: no sample of the first push goes in, and the session ends.
pub proof fn law_waiting_request_pushes_nothing(
    session: DecodeView,
    step: DecodeStepView,
    pad: bool,
    output: Seq<Sample>,
    needed: nat,
)
    requires
        session.phase == (DecodePhaseView::Resampling { pad }),
        step matches DecodeStepView::Resample(_),
    ensures
        ({
            let resampled: Happening = (DecodeEventView::Resampled(Some(output)), needed);
            let disturbed: Happening = (DecodeEventView::Pushed(false), needed);
            let happenings = seq![resampled, disturbed];
            &&& queued(session, step, happenings, 0) == Seq::<Sample>::empty()
            &&& run(session, happenings).phase == DecodePhaseView::Finished
        }),
{
    let resampled: Happening = (DecodeEventView::Resampled(Some(output)), needed);
    let disturbed: Happening = (DecodeEventView::Pushed(false), needed);
    let happenings = seq![resampled, disturbed];
    reveal_with_fuel(queued, 3);
    reveal_with_fuel(run, 3);
    assert(happenings.drop_first()[0] == disturbed);
    assert(happenings.drop_first().drop_first() =~= Seq::empty());
    assert(queued(session, step, happenings, 0) =~= Seq::<Sample>::empty());
}

/// The samples of all packets that decoded, in the internal layout, in order.
pub open spec fn all_decoded(happenings: Seq<Happening>) -> Seq<Sample>
    decreases happenings.len(),
{
    if happenings.len() == 0 {
        Seq::empty()
    } else {
        let added = match happenings[0].0 {
            DecodeEventView::Decoded { channels, samples, .. } => internal_samples(
                samples,
                channels,
            ),
            _ => Seq::empty(),
        };
        added + all_decoded(happenings.drop_first())
    }
}

/// Whether every event answers the step before it, all packets that decode are
/// at the internal rate, and no push is cut short.
pub open spec fn direct(session: DecodeView, happenings: Seq<Happening>) -> bool
    decreases happenings.len(),
{
    happenings.len() == 0 || {
        let (event, needed) = happenings[0];
        let (next, step) = session.react(event, needed);
        &&& step != DecodeStepView::Unexpected
        &&& event matches DecodeEventView::Decoded { rate, .. } ==> rate == INTERNAL_SAMPLE_RATE
        &&& event != DecodeEventView::Pushed(false)
        &&& direct(next, happenings.drop_first())
    }
}

/// The step that is asked for last.
pub open spec fn last_step(
    session: DecodeView,
    step: DecodeStepView,
    happenings: Seq<Happening>,
) -> DecodeStepView
    decreases happenings.len(),
{
    if happenings.len() == 0 {
        step
    } else {
        let (event, needed) = happenings[0];
        let (next, next_step) = session.react(event, needed);
        last_step(next, next_step, happenings.drop_first())
    }
}

/// The samples that a step asks to push.
pub open spec fn to_push(step: DecodeStepView) -> Seq<Sample> {
    match step {
        DecodeStepView::Push(samples) => samples,
        _ => Seq::empty(),
    }
}

/// At the internal rate what goes into the queue is what the packets held: what
/// went in, followed by what is just being pushed, are the samples of all
/// packets that decoded, in the internal layout and in order.
pub proof fn law_internal_rate_is_passed_on(track: u32, happenings: Seq<Happening>, partial: nat)
    requires
        direct(DecodeView::initial(track), happenings),
    ensures
        ({
            let session = DecodeView::initial(track);
            let step = DecodeStepView::Poll;
            queued(session, step, happenings, partial) + to_push(
                last_step(session, step, happenings),
            ) == all_decoded(happenings)
        }),
{
    let session = DecodeView::initial(track);
    let all = all_decoded(happenings);
    lemma_direct(session, DecodeStepView::Poll, happenings, partial);
    assert(Seq::<Sample>::empty() + all =~= all);
}

proof fn lemma_direct(
    session: DecodeView,
    step: DecodeStepView,
    happenings: Seq<Happening>,
    partial: nat,
)
    requires
        direct(session, happenings),
        session.current_rate is None,
        match session.phase {
            DecodePhaseView::PushingDirect => step matches DecodeStepView::Push(_),
            DecodePhaseView::Polling
            | DecodePhaseView::Decoding
            | DecodePhaseView::Finished => !(step matches DecodeStepView::Push(_)),
            _ => false,
        },
    ensures
        queued(session, step, happenings, partial) + to_push(last_step(session, step, happenings))
            == to_push(step) + all_decoded(happenings),
    decreases happenings.len(),
{
    if happenings.len() == 0 {
        assert(Seq::<Sample>::empty() + to_push(step) =~= to_push(step) + Seq::<Sample>::empty());
    } else {
        let (event, needed) = happenings[0];
        let (next, next_step) = session.react(event, needed);
        let rest = happenings.drop_first();
        lemma_direct(next, next_step, rest, partial);
        let later = queued(next, next_step, rest, partial);
        let last = to_push(last_step(next, next_step, rest));
        let decoded = all_decoded(rest);
        let now = to_push(step);
        let added = to_push(next_step);
        assert(now + later + last =~= now + (later + last));
        assert(now + (added + decoded) =~= now + added + decoded);
        assert(Seq::<Sample>::empty() + decoded =~= decoded);
        assert(Seq::<Sample>::empty() + later =~= later);
        assert(Seq::<Sample>::empty() + (added + decoded) =~= added + decoded);
    }
}

/// A request to end that comes while resampled samples are pushed ends the
/// session, and well. Otherwise the session goes on until nothing waits.
pub proof fn law_shutdown_ends_a_flush(session: DecodeView, pad: bool, complete: bool, needed: nat)
    requires
        session.phase == (DecodePhaseView::PushingChunk { pad }),
    ensures
        ({
            let (next, step) = session.react(DecodeEventView::Pushed(complete), needed);
            if complete {
                (next, step) == session.flush(pad, needed)
            } else {
                &&& step == DecodeStepView::Finish(Ok(()))
                &&& next.phase == DecodePhaseView::Finished
            }
        }),
{
}

/// Packets of other tracks leave no trace.
pub proof fn law_other_tracks_are_ignored(session: DecodeView, track: u32, needed: nat)
    requires
        session.phase == DecodePhaseView::Polling,
        track != session.track,
    ensures
        session.react(DecodeEventView::Packet(track), needed) == (session, DecodeStepView::Poll),
{
}

/// A damaged packet leaves no trace.
pub proof fn law_damaged_packets_are_skipped(session: DecodeView, needed: nat, later: nat)
    requires
        session.phase == DecodePhaseView::Polling,
    ensures
        ({
            let (decoding, _) = session.react(DecodeEventView::Packet(session.track), needed);
            decoding.react(DecodeEventView::Corrupt, later) == (session, DecodeStepView::Poll)
        }),
{
}

/// Decoding fails only where the decoder gives up or no resampler can be made.
pub proof fn law_only_two_ways_to_fail(
    session: DecodeView,
    event: DecodeEventView,
    needed: nat,
    error: DecodeError,
)
    requires
        session.react(event, needed).1 == DecodeStepView::Finish(Err(error)),
    ensures
        error == DecodeError::Decode && event == DecodeEventView::Failed || error
            == DecodeError::Decoder && event == DecodeEventView::Built(false),
{
}

/// A session that has finished stays finished.
pub proof fn law_finish_is_final(
    session: DecodeView,
    event: DecodeEventView,
    needed: nat,
    later: DecodeEventView,
    later_needed: nat,
)
    requires
        session.react(event, needed).1 matches DecodeStepView::Finish(_),
    ensures
        ({
            let finished = session.react(event, needed).0;
            finished.react(later, later_needed) == (finished, DecodeStepView::Unexpected)
        }),
{
}

} // verus!
