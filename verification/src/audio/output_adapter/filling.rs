//! Filling whole device buffers, on a device that runs at the internal rate,
//! from a shared queue to which nothing is added meanwhile.

use vstd::prelude::*;

use super::{
    append_bounded, drained_count, rendered, AdapterView, FillEventView, FillStepView, FillTurn,
    ADAPTER_CAPACITY, FETCH_LIMIT,
};
use crate::audio::Sample;

verus! {

/// How both samples of a frame become one.
pub type Mix = spec_fn(Sample, Sample) -> Sample;

/// Samples laid out for the channels of a device.
pub open spec fn laid_out(samples: Seq<Sample>, channels: u16, mix: Mix) -> Seq<Sample> {
    if channels == 1 {
        Seq::new(samples.len() / 2, |k: int| mix(samples[2 * k], samples[2 * k + 1]))
    } else {
        samples
    }
}

/// An adapter whose gathered samples have got ready.
pub open spec fn delivered(adapter: AdapterView, mix: Mix) -> AdapterView {
    let processed = laid_out(adapter.accumulated, adapter.channels, mix);
    adapter.with_accumulated(Seq::empty()).with_ready(
        append_bounded(adapter.ready, processed, ADAPTER_CAPACITY as int),
    )
}

/// How many samples are fetched at a time from a queue that holds `len`.
pub open spec fn fetch_count(len: nat) -> nat {
    if len <= FETCH_LIMIT {
        len
    } else {
        FETCH_LIMIT as nat
    }
}

/// An adapter that has fetched.
pub open spec fn fetched(adapter: AdapterView, queue: Seq<Sample>) -> AdapterView {
    adapter.with_accumulated(
        append_bounded(
            adapter.accumulated,
            queue.take(fetch_count(queue.len()) as int),
            ADAPTER_CAPACITY as int,
        ),
    )
}

/// What an adapter and the shared queue become until `wanted` samples are
/// ready or nothing more is to be had.
pub open spec fn filled(adapter: AdapterView, queue: Seq<Sample>, wanted: nat, mix: Mix) -> (
    AdapterView,
    Seq<Sample>,
)
    decreases queue.len(), adapter.accumulated.len(),
{
    if adapter.ready.len() >= wanted {
        (adapter, queue)
    } else if adapter.accumulated.len() > 0 {
        filled(delivered(adapter, mix), queue, wanted, mix)
    } else if queue.len() > 0 {
        let rest = queue.skip(fetch_count(queue.len()) as int);
        filled(fetched(adapter, queue), rest, wanted, mix)
    } else {
        (adapter, queue)
    }
}

/// What a device buffer of `wanted` samples gets, and what then remains.
pub open spec fn played(adapter: AdapterView, queue: Seq<Sample>, wanted: nat, mix: Mix) -> (
    Seq<Sample>,
    AdapterView,
    Seq<Sample>,
) {
    let (full, rest) = filled(adapter, queue, wanted, mix);
    let count = drained_count(full.ready, wanted);
    (rendered(full.ready, wanted), full.with_ready(full.ready.skip(count)), rest)
}

/// Whether turns are those of one fill: each goes as it should from where the
/// one before has left the adapter, only the last one ends it, and nothing is
/// added to the queue, so that it is found empty only when all was taken out.
pub open spec fn one_fill<F: Fn(Sample, Sample) -> Sample>(
    turns: Seq<FillTurn>,
    adapter: AdapterView,
    queue: Seq<Sample>,
    wanted: nat,
    mix: F,
) -> bool
    decreases turns.len(),
{
    turns.len() > 0 && {
        let turn = turns[0];
        &&& turn.proper(mix)
        &&& turn.before == adapter
        &&& turn.event == FillEventView::Continue
        &&& turn.wanted == wanted
        &&& turn.fetched.is_prefix_of(queue)
        &&& turn.refusals > 0 ==> turn.fetched.len() == queue.len()
        &&& if turn.step == FillStepView::Ready {
            turns.len() == 1
        } else {
            one_fill(
                turns.drop_first(),
                turn.after,
                queue.skip(turn.fetched.len() as int),
                wanted,
                mix,
            )
        }
    }
}

/// What is left of a queue after turns that fetched from it.
pub open spec fn queue_after(turns: Seq<FillTurn>, queue: Seq<Sample>) -> Seq<Sample>
    decreases turns.len(),
{
    if turns.len() == 0 {
        queue
    } else {
        queue_after(turns.drop_first(), queue.skip(turns[0].fetched.len() as int))
    }
}

/// Taking turns until one ends the fill does what [`filled`] says.
pub proof fn law_turns_fill<F: Fn(Sample, Sample) -> Sample>(
    turns: Seq<FillTurn>,
    adapter: AdapterView,
    queue: Seq<Sample>,
    wanted: nat,
    mix: F,
    mixed: Mix,
)
    requires
        one_fill(turns, adapter, queue, wanted, mix),
        !adapter.resampling,
        forall|left: Sample, right: Sample, output: Sample| #[trigger]
            mix.ensures((left, right), output) ==> output == mixed(left, right),
    ensures
        (turns.last().after, queue_after(turns, queue)) == filled(adapter, queue, wanted, mixed),
    decreases turns.len(),
{
    let turn = turns[0];
    let rest = turns.drop_first();
    let left = queue.skip(turn.fetched.len() as int);
    let capacity = ADAPTER_CAPACITY as int;
    if turn.fetched.len() == 0 {
        assert(left =~= queue);
    }
    if adapter.ready.len() >= wanted {
    } else if adapter.accumulated.len() > 0 {
        if adapter.channels == 1 {
            let taken = adapter.with_accumulated(Seq::empty());
            let mono = choose|mono: Seq<Sample>|
                #![trigger append_bounded(taken.ready, mono, capacity)]
                {
                    &&& mono.len() == adapter.accumulated.len() / 2
                    &&& forall|k: int|
                        0 <= k < mono.len() ==> mix.ensures(
                            (adapter.accumulated[2 * k], adapter.accumulated[2 * k + 1]),
                            #[trigger] mono[k],
                        )
                    &&& turn.after == taken.with_ready(
                        append_bounded(taken.ready, mono, capacity),
                    )
                };
            assert(mono =~= laid_out(adapter.accumulated, 1, mixed));
        }
        assert(turn.after == delivered(adapter, mixed));
    } else {
        assert(turn.fetched.len() == fetch_count(queue.len()));
        assert(turn.fetched =~= queue.take(turn.fetched.len() as int));
        assert(turn.after == fetched(adapter, queue));
        if queue.len() == 0 {
            assert(fetched(adapter, queue).accumulated =~= adapter.accumulated);
        }
    }
    if turn.step == FillStepView::Ready {
        assert(rest =~= Seq::empty());
        assert(queue_after(rest, left) == left);
    } else {
        law_turns_fill(rest, turn.after, left, wanted, mix, mixed);
        assert(turns.last() == rest.last());
    }
}

/// What a fill keeps: at most one fetch waits to be processed, as in a fresh
/// adapter, before and after the device has taken its samples. What was ready
/// stays in front. If too little is ready, nothing is left anywhere.
pub proof fn law_fill_keeps(adapter: AdapterView, queue: Seq<Sample>, wanted: nat, mix: Mix)
    requires
        adapter.accumulated.len() <= FETCH_LIMIT,
    ensures
        ({
            let (full, rest) = filled(adapter, queue, wanted, mix);
            &&& full.accumulated.len() <= FETCH_LIMIT
            &&& played(adapter, queue, wanted, mix).1.accumulated.len() <= FETCH_LIMIT
            &&& full.channels == adapter.channels
            &&& full.resampling == adapter.resampling
            &&& adapter.ready.is_prefix_of(full.ready)
            &&& full.ready.len() < wanted ==> full.accumulated.len() == 0 && rest.len() == 0
        }),
    decreases queue.len(), adapter.accumulated.len(),
{
    let (full, _) = filled(adapter, queue, wanted, mix);
    if adapter.ready.len() >= wanted {
        assert(adapter.ready =~= full.ready.take(adapter.ready.len() as int));
    } else if adapter.accumulated.len() > 0 {
        let next = delivered(adapter, mix);
        law_fill_keeps(next, queue, wanted, mix);
        assert(adapter.ready =~= next.ready.take(adapter.ready.len() as int));
        assert(next.ready == full.ready.take(next.ready.len() as int));
        assert(adapter.ready =~= full.ready.take(adapter.ready.len() as int));
    } else if queue.len() > 0 {
        let rest = queue.skip(fetch_count(queue.len()) as int);
        law_fill_keeps(fetched(adapter, queue), rest, wanted, mix);
    } else {
        assert(adapter.ready =~= full.ready.take(adapter.ready.len() as int));
    }
}

/// Filling up to `first` and then further is filling further at once.
proof fn lemma_fill_in_stages(
    adapter: AdapterView,
    queue: Seq<Sample>,
    first: nat,
    wanted: nat,
    mix: Mix,
)
    requires
        first <= wanted,
    ensures
        ({
            let (full, rest) = filled(adapter, queue, first, mix);
            filled(full, rest, wanted, mix) == filled(adapter, queue, wanted, mix)
        }),
    decreases queue.len(), adapter.accumulated.len(),
{
    if adapter.ready.len() >= first {
    } else if adapter.accumulated.len() > 0 {
        lemma_fill_in_stages(delivered(adapter, mix), queue, first, wanted, mix);
    } else if queue.len() > 0 {
        let rest = queue.skip(fetch_count(queue.len()) as int);
        lemma_fill_in_stages(fetched(adapter, queue), rest, first, wanted, mix);
    }
}

/// Ready samples that are taken out beforehand make no difference to a fill.
proof fn lemma_fill_after_drain(
    adapter: AdapterView,
    queue: Seq<Sample>,
    drained: nat,
    wanted: nat,
    mix: Mix,
)
    requires
        drained <= adapter.ready.len(),
        adapter.accumulated.len() <= FETCH_LIMIT,
        drained + wanted + FETCH_LIMIT <= ADAPTER_CAPACITY,
    ensures
        ({
            let (full, rest) = filled(adapter, queue, drained + wanted, mix);
            let short = adapter.with_ready(adapter.ready.skip(drained as int));
            filled(short, queue, wanted, mix) == (
                full.with_ready(full.ready.skip(drained as int)),
                rest,
            )
        }),
    decreases queue.len(), adapter.accumulated.len(),
{
    let short = adapter.with_ready(adapter.ready.skip(drained as int));
    if adapter.ready.len() >= drained + wanted {
    } else if adapter.accumulated.len() > 0 {
        let next = delivered(adapter, mix);
        let processed = laid_out(adapter.accumulated, adapter.channels, mix);
        assert(processed.len() <= FETCH_LIMIT);
        assert(next.ready == adapter.ready + processed);
        assert(delivered(short, mix).ready == short.ready + processed);
        assert(next.ready.skip(drained as int) =~= short.ready + processed);
        assert(delivered(short, mix) =~= next.with_ready(next.ready.skip(drained as int)));
        lemma_fill_after_drain(next, queue, drained, wanted, mix);
    } else if queue.len() > 0 {
        let rest = queue.skip(fetch_count(queue.len()) as int);
        let next = fetched(adapter, queue);
        assert(fetched(short, queue) =~= next.with_ready(next.ready.skip(drained as int)));
        lemma_fill_after_drain(next, rest, drained, wanted, mix);
    }
}

/// Two device buffers, joined, get what one buffer of the joined size gets, and
/// leave the adapter and the queue alike: nothing is lost, repeated or reordered
/// between them.
pub proof fn law_two_fills_are_one(
    adapter: AdapterView,
    queue: Seq<Sample>,
    first: nat,
    second: nat,
    mix: Mix,
)
    requires
        adapter.accumulated.len() <= FETCH_LIMIT,
        first + second + FETCH_LIMIT <= ADAPTER_CAPACITY,
    ensures
        ({
            let (out_first, between, rest) = played(adapter, queue, first, mix);
            let (out_second, after, rest_after) = played(between, rest, second, mix);
            played(adapter, queue, first + second, mix) == (
                out_first + out_second,
                after,
                rest_after,
            )
        }),
{
    let (full, rest) = filled(adapter, queue, first, mix);
    let (both, rest_both) = filled(adapter, queue, first + second, mix);
    let (out_first, between, _) = played(adapter, queue, first, mix);
    let (out_second, after, rest_after) = played(between, rest, second, mix);
    let (out, after_both, _) = played(adapter, queue, first + second, mix);
    law_fill_keeps(adapter, queue, first, mix);
    lemma_fill_in_stages(adapter, queue, first, first + second, mix);
    law_fill_keeps(full, rest, first + second, mix);
    if full.ready.len() >= first {
        lemma_fill_after_drain(full, rest, first, second, mix);
        let (later, _) = filled(between, rest, second, mix);
        assert(later.ready == both.ready.skip(first as int));
        assert(full.ready == both.ready.take(full.ready.len() as int));
        assert(out =~= out_first + out_second);
        assert(later.ready.skip(drained_count(later.ready, second)) =~= both.ready.skip(
            drained_count(both.ready, first + second),
        ));
        assert(after =~= after_both);
    } else {
        assert((both, rest_both) == (full, rest));
        assert(between.ready =~= Seq::empty());
        assert(filled(between, rest, second, mix) == (between, rest));
        assert(out =~= out_first + out_second);
        assert(after.ready =~= Seq::empty());
        assert(after_both.ready =~= Seq::empty());
        assert(after =~= after_both);
    }
}

/// On a device that needs no mixing, a fill takes no more out of the queue than
/// it has to: nothing where enough is ready, and otherwise at most one fetch
/// beyond what is missing. It loses and reorders nothing, so that what it took
/// and did not give out comes first in the next fill.
pub proof fn law_fill_takes_little(
    adapter: AdapterView,
    queue: Seq<Sample>,
    wanted: nat,
    mix: Mix,
)
    requires
        adapter.channels != 1,
        adapter.accumulated.len() <= FETCH_LIMIT,
        wanted + FETCH_LIMIT <= ADAPTER_CAPACITY,
    ensures
        ({
            let (full, rest) = filled(adapter, queue, wanted, mix);
            let taken = queue.len() - rest.len();
            &&& adapter.ready.len() >= wanted ==> (full, rest) == (adapter, queue)
            &&& adapter.ready.len() < wanted ==> taken <= wanted - adapter.ready.len()
                + FETCH_LIMIT - 1
            &&& full.ready + full.accumulated + rest == adapter.ready + adapter.accumulated + queue
            &&& full.accumulated.len() <= FETCH_LIMIT
        }),
{
    lemma_fill_takes(adapter, queue, wanted, mix);
}

proof fn lemma_fill_takes(adapter: AdapterView, queue: Seq<Sample>, wanted: nat, mix: Mix)
    requires
        adapter.channels != 1,
        adapter.accumulated.len() <= FETCH_LIMIT,
        wanted + FETCH_LIMIT <= ADAPTER_CAPACITY,
    ensures
        ({
            let (full, rest) = filled(adapter, queue, wanted, mix);
            let taken = queue.len() - rest.len();
            let held = adapter.ready.len() + adapter.accumulated.len();
            &&& held >= wanted ==> taken == 0
            &&& held < wanted ==> taken <= wanted - held + FETCH_LIMIT - 1
            &&& full.ready + full.accumulated + rest == adapter.ready + adapter.accumulated + queue
            &&& full.accumulated.len() <= FETCH_LIMIT
        }),
    decreases queue.len(), adapter.accumulated.len(),
{
    let whole = adapter.ready + adapter.accumulated + queue;
    if adapter.ready.len() >= wanted {
    } else if adapter.accumulated.len() > 0 {
        let next = delivered(adapter, mix);
        lemma_fill_takes(next, queue, wanted, mix);
        assert(next.ready + next.accumulated + queue =~= whole);
    } else if queue.len() > 0 {
        let rest = queue.skip(fetch_count(queue.len()) as int);
        let next = fetched(adapter, queue);
        lemma_fill_takes(next, rest, wanted, mix);
        assert(next.accumulated =~= queue.take(fetch_count(queue.len()) as int));
        assert(next.ready + next.accumulated + rest =~= whole);
    }
}

} // verus!
