//! Laws that say of every turn at filling what comes of it, and what becomes of
//! the samples on a device that runs at another rate than the internal one.

use vstd::prelude::*;

use super::laws::{after, all_fetched, all_heard, proper_uses, AdapterUse};
use super::{
    append_bounded, drained_count, refusals_while_fetching, rendered, AdapterView, FillEvent,
    FillEventView, FillStep, FillStepView, FillTurn,
};
use crate::audio::Sample;

verus! {

/// What a bounded queue holds begins with what it held, goes on with what it is
/// offered, in order, and ends only with that or at the capacity.
pub proof fn law_bounded_queue_takes_what_fits(
    held: Seq<Sample>,
    offered: Seq<Sample>,
    capacity: int,
)
    requires
        held.len() <= capacity,
    ensures
        ({
            let next = append_bounded(held, offered, capacity);
            &&& next.is_prefix_of(held + offered)
            &&& next.len() <= capacity
            &&& next.len() == held.len() + offered.len() || next.len() == capacity
        }),
{
    let next = append_bounded(held, offered, capacity);
    assert(next =~= (held + offered).take(next.len() as int));
}

/// The next samples to process: as many as a resampler takes, once there are so
/// many; all that have gathered, without one. They are the oldest, and the
/// others stay.
pub proof fn law_next_chunk_is_the_oldest(adapter: AdapterView, needed: nat)
    ensures
        ({
            let gathered = adapter.accumulated;
            let (next, chunk) = adapter.take_next(needed);
            let enough = if adapter.resampling {
                gathered.len() >= needed
            } else {
                gathered.len() > 0
            };
            &&& chunk is Some <==> enough
            &&& chunk matches Some(head) ==> {
                &&& head + next.accumulated == gathered
                &&& head.len() == if adapter.resampling {
                    needed
                } else {
                    gathered.len()
                }
            }
            &&& chunk is None ==> next.accumulated == gathered
            &&& next.ready == adapter.ready
            &&& next.channels == adapter.channels
            &&& next.resampling == adapter.resampling
        }),
{
    let (next, chunk) = adapter.take_next(needed);
    if let Some(head) = chunk {
        assert(head + next.accumulated =~= adapter.accumulated);
    }
}

/// Whether a queue for 65536 samples took what it was offered, in order and
/// after what it held, all of it or up to its capacity.
pub open spec fn took(held: Seq<Sample>, offered: Seq<Sample>, next: Seq<Sample>) -> bool {
    &&& next.is_prefix_of(held + offered)
    &&& next.len() == if held.len() + offered.len() <= 65_536 {
        held.len() + offered.len()
    } else {
        65_536
    }
}

/// All processed samples get ready for the device, in order, after those that
/// are, as far as there is room for them. On one channel both samples of a frame
/// are mixed. Nothing else changes.
pub proof fn law_processed_samples_get_ready<F: Fn(Sample, Sample) -> Sample>(
    adapter: AdapterView,
    processed: Seq<Sample>,
    mix: F,
    mixed: spec_fn(Sample, Sample) -> Sample,
    next: AdapterView,
)
    requires
        adapter.delivers(processed, mix, next),
        adapter.ready.len() <= 65_536,
        forall|left: Sample, right: Sample, output: Sample| #[trigger]
            mix.ensures((left, right), output) ==> output == mixed(left, right),
    ensures
        took(adapter.ready, for_device(processed, adapter.channels, mixed), next.ready),
        adapter.ready.len() + processed.len() <= 65_536 ==> next.ready == adapter.ready
            + for_device(processed, adapter.channels, mixed),
        next.accumulated == adapter.accumulated,
        next.channels == adapter.channels,
        next.resampling == adapter.resampling,
{
    if adapter.channels == 1 {
        let mono = choose|mono: Seq<Sample>|
            #![trigger append_bounded(adapter.ready, mono, 65_536)]
            {
                &&& mono.len() == processed.len() / 2
                &&& forall|k: int|
                    0 <= k < mono.len() ==> mix.ensures(
                        (processed[2 * k], processed[2 * k + 1]),
                        #[trigger] mono[k],
                    )
                &&& next == adapter.with_ready(append_bounded(adapter.ready, mono, 65_536))
            };
        assert(mono =~= for_device(processed, 1, mixed));
    }
    let whole = adapter.ready + for_device(processed, adapter.channels, mixed);
    assert(next.ready =~= whole.take(next.ready.len() as int));
    if adapter.ready.len() + processed.len() <= 65_536 {
        assert(next.ready =~= whole);
    }
}

/// Samples as a device with so many channels gets them: one for each frame on
/// one channel, mixed of both; otherwise as they are.
pub open spec fn for_device(
    samples: Seq<Sample>,
    channels: u16,
    mixed: spec_fn(Sample, Sample) -> Sample,
) -> Seq<Sample> {
    if channels == 1 {
        Seq::new(samples.len() / 2, |k: int| mixed(samples[2 * k], samples[2 * k + 1]))
    } else {
        samples
    }
}

/// Whether a turn gathered from the shared queue as it should: at most 1024
/// samples, fewer only where the queue was found empty, and all of them after
/// those that had gathered, as far as there is room. It goes on if there were
/// any.
pub open spec fn gathered(turn: FillTurn) -> bool {
    &&& turn.fetched.len() <= 1024
    &&& turn.refusals == if turn.fetched.len() < 1024 {
        1int
    } else {
        0
    }
    &&& turn.step == if turn.fetched.len() > 0 {
        FillStepView::Again
    } else {
        FillStepView::Ready
    }
    &&& turn.before.accumulated.len() + turn.fetched.len() <= 65_536 ==> turn.after.accumulated
        == turn.before.accumulated + turn.fetched
    &&& turn.before.accumulated.len() <= 65_536 ==> took(
        turn.before.accumulated,
        turn.fetched,
        turn.after.accumulated,
    )
    &&& turn.after.ready == turn.before.ready
}

/// What a turn does: nothing where enough is ready; otherwise it processes what
/// can be processed, and gathers where there is too little for that. Samples
/// from the resampler get ready; where it failed, more is gathered. The device's
/// channels and rate stay the same.
pub proof fn law_turn_does_what_is_due<F: Fn(Sample, Sample) -> Sample>(turn: FillTurn, mix: F)
    requires
        turn.proper(mix),
    ensures
        turn.after.channels == turn.before.channels,
        turn.after.resampling == turn.before.resampling,
        match turn.event {
            FillEventView::Continue => if turn.before.ready.len() >= turn.wanted {
                &&& turn.step == FillStepView::Ready
                &&& turn.after == turn.before
                &&& turn.fetched.len() == 0
                &&& turn.refusals == 0
            } else if turn.before.resampling && turn.before.accumulated.len() >= turn.needed {
                &&& turn.step matches FillStepView::Resample(chunk) && chunk.len() == turn.needed
                    && chunk + turn.after.accumulated == turn.before.accumulated
                &&& turn.after.ready == turn.before.ready
                &&& turn.fetched.len() == 0
                &&& turn.refusals == 0
            } else if !turn.before.resampling && turn.before.accumulated.len() > 0 {
                &&& turn.step == FillStepView::Again
                &&& turn.after.accumulated.len() == 0
                &&& turn.before.ready.is_prefix_of(turn.after.ready)
                &&& turn.fetched.len() == 0
                &&& turn.refusals == 0
            } else {
                gathered(turn)
            },
            FillEventView::Resampled(_) => {
                &&& turn.step == FillStepView::Again
                &&& turn.after.accumulated == turn.before.accumulated
                &&& turn.before.ready.is_prefix_of(turn.after.ready)
                &&& turn.fetched.len() == 0
                &&& turn.refusals == 0
            },
            FillEventView::ResampleFailed => gathered(turn),
        },
{
    if turn.before.accumulated.len() >= turn.needed {
        let needed = turn.needed as int;
        let held = turn.before.accumulated;
        assert(held.take(needed) + held.skip(needed) =~= held);
    }
    let ready = turn.before.ready;
    assert(ready =~= turn.after.ready.take(ready.len() as int));
    let all = turn.before.accumulated + turn.fetched;
    assert(turn.after.accumulated.len() <= all.len() ==> all.take(
        turn.after.accumulated.len() as int,
    ).len() == turn.after.accumulated.len());
    if turn.event == FillEventView::ResampleFailed || (turn.event == FillEventView::Continue
        && turn.fetches()) {
        assert(turn.after.accumulated =~= all.take(turn.after.accumulated.len() as int));
    }
}

/// What a turn makes ready: on a device that does not resample, all that has
/// gathered, as far as there is room for it.
pub proof fn law_gathered_samples_get_ready<F: Fn(Sample, Sample) -> Sample>(
    turn: FillTurn,
    mix: F,
    mixed: spec_fn(Sample, Sample) -> Sample,
)
    requires
        turn.proper(mix),
        turn.event == FillEventView::Continue,
        !turn.before.resampling,
        turn.before.ready.len() < turn.wanted,
        turn.before.accumulated.len() > 0,
        turn.before.ready.len() <= 65_536,
        forall|left: Sample, right: Sample, output: Sample| #[trigger]
            mix.ensures((left, right), output) ==> output == mixed(left, right),
    ensures
        took(
            turn.before.ready,
            for_device(turn.before.accumulated, turn.before.channels, mixed),
            turn.after.ready,
        ),
{
    let taken = turn.before.with_accumulated(Seq::empty());
    law_processed_samples_get_ready(taken, turn.before.accumulated, mix, mixed, turn.after);
}

/// What a use makes of the samples that the resampler has made, for a device
/// with so many channels.
pub open spec fn converted_by(
    adapter_use: AdapterUse,
    channels: u16,
    mixed: spec_fn(Sample, Sample) -> Sample,
) -> Seq<Sample> {
    match adapter_use {
        AdapterUse::Turn(turn) => match turn.event {
            FillEventView::Resampled(processed) => for_device(processed, channels, mixed),
            _ => Seq::empty(),
        },
        AdapterUse::Drain(_) => Seq::empty(),
    }
}

/// All samples that the resampler has made, in order, for a device with so many
/// channels.
pub open spec fn all_converted(
    uses: Seq<AdapterUse>,
    channels: u16,
    mixed: spec_fn(Sample, Sample) -> Sample,
) -> Seq<Sample>
    decreases uses.len(),
{
    if uses.len() == 0 {
        Seq::empty()
    } else {
        all_converted(uses.drop_last(), channels, mixed) + converted_by(
            uses.last(),
            channels,
            mixed,
        )
    }
}

/// Whether there is room for what the resampler has made.
pub open spec fn has_room(adapter_use: AdapterUse) -> bool {
    match adapter_use {
        AdapterUse::Turn(turn) => match turn.event {
            FillEventView::Resampled(processed) => turn.before.ready.len() + processed.len()
                <= 65_536,
            _ => true,
        },
        AdapterUse::Drain(_) => true,
    }
}

/// On a device that resamples, all that the resampler makes is played, in order
/// and without loss: what the device got, followed by what is ready, is what the
/// resampler has made, mixed frame by frame where the device has one channel.
pub proof fn law_device_plays_what_is_resampled<F: Fn(Sample, Sample) -> Sample>(
    first: AdapterView,
    uses: Seq<AdapterUse>,
    mix: F,
    mixed: spec_fn(Sample, Sample) -> Sample,
)
    requires
        first.ready.len() == 0,
        first.resampling,
        proper_uses(first, uses, mix),
        forall|i: int| 0 <= i < uses.len() ==> has_room(#[trigger] uses[i]),
        forall|left: Sample, right: Sample, output: Sample| #[trigger]
            mix.ensures((left, right), output) ==> output == mixed(left, right),
    ensures
        all_heard(first, uses) + after(first, uses).ready == all_converted(
            uses,
            first.channels,
            mixed,
        ),
        after(first, uses).channels == first.channels,
        after(first, uses).resampling,
    decreases uses.len(),
{
    let now = after(first, uses);
    if uses.len() == 0 {
        assert(all_heard(first, uses) + now.ready =~= Seq::<Sample>::empty());
    } else {
        let earlier = uses.drop_last();
        let before = after(first, earlier);
        let heard = all_heard(first, earlier);
        let added = converted_by(uses.last(), first.channels, mixed);
        let made = all_converted(earlier, first.channels, mixed);
        assert(has_room(uses[uses.len() - 1]));
        assert forall|i: int| 0 <= i < earlier.len() implies has_room(#[trigger] earlier[i]) by {
            assert(earlier[i] == uses[i]);
        }
        law_device_plays_what_is_resampled(first, earlier, mix, mixed);
        match uses.last() {
            AdapterUse::Turn(turn) => {
                law_turn_does_what_is_due(turn, mix);
                match turn.event {
                    FillEventView::Resampled(processed) => {
                        law_processed_samples_get_ready(before, processed, mix, mixed, now);
                    },
                    _ => {
                        assert(now.ready == before.ready);
                        assert(before.ready + added =~= before.ready);
                    },
                }
                assert(heard + (before.ready + added) =~= heard + before.ready + added);
            },
            AdapterUse::Drain(wanted) => {
                let count = drained_count(before.ready, wanted);
                let output = rendered(before.ready, wanted).take(count);
                assert(output + now.ready =~= before.ready);
                assert(heard + output + now.ready =~= heard + (output + now.ready));
                assert(made + added =~= made);
            },
        }
    }
}

/// All chunks that were sent through the resampler, in order.
pub open spec fn all_chunks(uses: Seq<AdapterUse>) -> Seq<Sample>
    decreases uses.len(),
{
    if uses.len() == 0 {
        Seq::empty()
    } else {
        match uses.last() {
            AdapterUse::Turn(turn) => match turn.step {
                FillStepView::Resample(chunk) => all_chunks(uses.drop_last()) + chunk,
                _ => all_chunks(uses.drop_last()),
            },
            AdapterUse::Drain(_) => all_chunks(uses.drop_last()),
        }
    }
}

/// Whether there is room for what comes out of the shared queue.
pub open spec fn can_gather(adapter_use: AdapterUse) -> bool {
    match adapter_use {
        AdapterUse::Turn(turn) => turn.before.accumulated.len() + turn.fetched.len() <= 65_536,
        AdapterUse::Drain(_) => true,
    }
}

/// On a device that resamples, the resampler gets all that comes out of the
/// shared queue, in order and without loss: its chunks, followed by what has
/// gathered, are what came out of the queue.
pub proof fn law_resampler_gets_the_queue<F: Fn(Sample, Sample) -> Sample>(
    first: AdapterView,
    uses: Seq<AdapterUse>,
    mix: F,
)
    requires
        first.accumulated.len() == 0,
        first.resampling,
        proper_uses(first, uses, mix),
        forall|i: int| 0 <= i < uses.len() ==> can_gather(#[trigger] uses[i]),
    ensures
        all_chunks(uses) + after(first, uses).accumulated == all_fetched(uses),
        after(first, uses).resampling,
    decreases uses.len(),
{
    let now = after(first, uses);
    if uses.len() == 0 {
        assert(all_chunks(uses) + now.accumulated =~= Seq::<Sample>::empty());
    } else {
        let earlier = uses.drop_last();
        let before = after(first, earlier);
        let chunks = all_chunks(earlier);
        assert(can_gather(uses[uses.len() - 1]));
        assert forall|i: int| 0 <= i < earlier.len() implies can_gather(#[trigger] earlier[i]) by {
            assert(earlier[i] == uses[i]);
        }
        law_resampler_gets_the_queue(first, earlier, mix);
        if let AdapterUse::Turn(turn) = uses.last() {
            law_turn_does_what_is_due(turn, mix);
            let came = all_fetched(earlier);
            assert(chunks + (before.accumulated + turn.fetched) =~= chunks + before.accumulated
                + turn.fetched);
            if turn.fetched.len() == 0 {
                assert(came + turn.fetched =~= came);
                assert(before.accumulated + turn.fetched =~= before.accumulated);
            }
            if let FillStepView::Resample(chunk) = turn.step {
                assert(chunks + chunk + now.accumulated =~= chunks + (chunk + now.accumulated));
            }
        }
    }
}

/// A device buffer holds the oldest ready samples, then silence, and takes as
/// many as there are and as it has room for.
pub proof fn law_device_buffer_is_filled(ready: Seq<Sample>, wanted: nat)
    ensures
        rendered(ready, wanted).len() == wanted,
        forall|i: int|
            0 <= i < wanted ==> #[trigger] rendered(ready, wanted)[i] == if i < ready.len() {
                ready[i]
            } else {
                0
            },
        drained_count(ready, wanted) <= ready.len(),
        drained_count(ready, wanted) <= wanted,
        drained_count(ready, wanted) == ready.len() || drained_count(ready, wanted) == wanted,
{
}

/// Fetching finds the queue empty once if it gets fewer than 1024 samples, and
/// never if it gets as many.
pub proof fn law_fetching_ends_at_the_limit_or_dry(samples: Seq<Sample>)
    ensures
        samples.len() < 1024 ==> refusals_while_fetching(samples) == 1,
        samples.len() >= 1024 ==> refusals_while_fetching(samples) == 0,
{
}

/// What an event stands for is the same event, with the same samples.
pub proof fn law_events_are_what_they_say(event: FillEvent)
    ensures
        match event {
            FillEvent::Continue => event@ == FillEventView::Continue,
            FillEvent::Resampled(samples) => event@ == FillEventView::Resampled(samples@),
            FillEvent::ResampleFailed => event@ == FillEventView::ResampleFailed,
        },
{
}

/// What a step stands for is the same step, with the same samples.
pub proof fn law_steps_are_what_they_say(step: FillStep)
    ensures
        match step {
            FillStep::Resample(chunk) => step@ == FillStepView::Resample(chunk@),
            FillStep::Again => step@ == FillStepView::Again,
            FillStep::Ready => step@ == FillStepView::Ready,
        },
{
}

} // verus!
