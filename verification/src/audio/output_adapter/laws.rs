//! Laws of the way through the adapter, over the turns that
//! [`OutputAdapter::fill_buffer`](super::OutputAdapter::fill_buffer) is proved
//! to take.

use vstd::prelude::*;

use super::{
    append_bounded, drained_count, rendered, AdapterView, FillEventView, FillStepView, FillTurn,
    ADAPTER_CAPACITY, FETCH_LIMIT,
};
use crate::audio::{Sample, SILENCE};

verus! {

/// On a device that needs neither resampling nor mixing, every sample that
/// comes out of the shared queue gets ready, in order, as long as no queue of
/// the adapter is overfull.
pub proof fn law_samples_pass_in_order<F: Fn(Sample, Sample) -> Sample>(turn: FillTurn, mix: F)
    requires
        turn.proper(mix),
        turn.event == FillEventView::Continue,
        !turn.before.resampling,
        turn.before.channels != 1,
        turn.before.ready.len() < turn.wanted ==> turn.before.ready.len()
            + turn.before.accumulated.len() <= ADAPTER_CAPACITY,
    ensures
        turn.after.ready + turn.after.accumulated == turn.before.ready + turn.before.accumulated
            + turn.fetched,
{
    let held = turn.before.ready + turn.before.accumulated;
    assert(held + turn.fetched =~= turn.after.ready + turn.after.accumulated);
}

/// The resampler gets the samples in order: its chunk, followed by what stays
/// behind, is what was there.
pub proof fn law_resampler_gets_the_oldest<F: Fn(Sample, Sample) -> Sample>(
    turn: FillTurn,
    mix: F,
    chunk: Seq<Sample>,
)
    requires
        turn.proper(mix),
        turn.step == FillStepView::Resample(chunk),
    ensures
        chunk + turn.after.accumulated == turn.before.accumulated,
        turn.after.ready == turn.before.ready,
{
    assert(chunk + turn.after.accumulated =~= turn.before.accumulated);
}

/// Nothing is taken of a chunk that is not complete: without a resampler, where
/// nothing has gathered; with one, where less has gathered than it takes. Asking
/// again gives nothing again.
pub proof fn law_no_partial_chunk_is_taken(adapter: AdapterView, needed: nat)
    requires
        if adapter.resampling {
            adapter.accumulated.len() < needed
        } else {
            adapter.accumulated.len() == 0
        },
    ensures
        adapter.take_next(needed) == (adapter, None::<Seq<Sample>>),
        adapter.take_next(needed).0.take_next(needed) == (adapter, None::<Seq<Sample>>),
{
}

/// Filling ends only when enough is ready, or when too little has gathered for
/// another chunk, or the resampler failed, and the shared queue was found empty.
pub proof fn law_filling_ends_when_ready_or_dry<F: Fn(Sample, Sample) -> Sample>(
    turn: FillTurn,
    mix: F,
)
    requires
        turn.proper(mix),
        turn.step == FillStepView::Ready,
    ensures
        turn.fetched.len() == 0,
        turn.after == turn.before,
        match turn.event {
            FillEventView::Continue => turn.before.ready.len() >= turn.wanted || turn.before.chunk(
                turn.needed,
            ) is None && turn.refusals == 1,
            FillEventView::Resampled(_) => false,
            FillEventView::ResampleFailed => turn.refusals == 1,
        },
{
    assert(append_bounded(turn.before.accumulated, turn.fetched, ADAPTER_CAPACITY as int)
        =~= turn.before.accumulated);
}

/// Draining loses and reorders nothing: what the device gets, followed by what
/// stays ready, is what was ready. Silence comes only after all of it.
pub proof fn law_silence_comes_last(ready: Seq<Sample>, wanted: nat)
    ensures
        ({
            let count = drained_count(ready, wanted);
            let output = rendered(ready, wanted);
            &&& output.take(count) + ready.skip(count) == ready
            &&& forall|i: int| count <= i < output.len() ==> #[trigger] output[i] == SILENCE
            &&& output.len() > ready.len() ==> count == ready.len()
        }),
{
    let count = drained_count(ready, wanted);
    assert(rendered(ready, wanted).take(count) + ready.skip(count) =~= ready);
}

/// One use of an adapter: a turn at filling, or a device buffer of some size
/// that is taken.
pub enum AdapterUse {
    Turn(FillTurn),
    Drain(nat),
}

/// What an adapter becomes over a sequence of uses.
pub open spec fn after(first: AdapterView, uses: Seq<AdapterUse>) -> AdapterView
    decreases uses.len(),
{
    if uses.len() == 0 {
        first
    } else {
        match uses.last() {
            AdapterUse::Turn(turn) => turn.after,
            AdapterUse::Drain(wanted) => {
                let before = after(first, uses.drop_last());
                before.with_ready(before.ready.skip(drained_count(before.ready, wanted)))
            },
        }
    }
}

/// Whether every turn goes as it should, from where the uses before it have
/// left the adapter.
pub open spec fn proper_uses<F: Fn(Sample, Sample) -> Sample>(
    first: AdapterView,
    uses: Seq<AdapterUse>,
    mix: F,
) -> bool
    decreases uses.len(),
{
    uses.len() == 0 || {
        &&& proper_uses(first, uses.drop_last(), mix)
        &&& uses.last() matches AdapterUse::Turn(turn) ==> turn.proper(mix) && turn.before
            == after(first, uses.drop_last())
    }
}

/// All samples that came out of the shared queue, in order.
pub open spec fn all_fetched(uses: Seq<AdapterUse>) -> Seq<Sample>
    decreases uses.len(),
{
    if uses.len() == 0 {
        Seq::empty()
    } else {
        match uses.last() {
            AdapterUse::Turn(turn) => all_fetched(uses.drop_last()) + turn.fetched,
            AdapterUse::Drain(_) => all_fetched(uses.drop_last()),
        }
    }
}

/// All samples that the device got, in order and without the silence.
pub open spec fn all_heard(first: AdapterView, uses: Seq<AdapterUse>) -> Seq<Sample>
    decreases uses.len(),
{
    if uses.len() == 0 {
        Seq::empty()
    } else {
        match uses.last() {
            AdapterUse::Turn(_) => all_heard(first, uses.drop_last()),
            AdapterUse::Drain(wanted) => {
                let ready = after(first, uses.drop_last()).ready;
                all_heard(first, uses.drop_last()) + rendered(ready, wanted).take(
                    drained_count(ready, wanted),
                )
            },
        }
    }
}

/// Whether a device asks for no more than the adapter can hold beside what it
/// gathers at a time, and no resampler is involved.
pub open spec fn modest(adapter_use: AdapterUse) -> bool {
    match adapter_use {
        AdapterUse::Turn(turn) => turn.event == FillEventView::Continue && turn.wanted
            <= ADAPTER_CAPACITY - FETCH_LIMIT,
        AdapterUse::Drain(_) => true,
    }
}

/// On a device that needs neither resampling nor mixing, all that comes out of
/// the shared queue is played, in order and without loss: what the device got,
/// followed by what the adapter holds, is what came out of the queue.
pub proof fn law_device_plays_the_queue<F: Fn(Sample, Sample) -> Sample>(
    first: AdapterView,
    uses: Seq<AdapterUse>,
    mix: F,
)
    requires
        first.accumulated.len() == 0,
        first.ready.len() == 0,
        !first.resampling,
        first.channels != 1,
        proper_uses(first, uses, mix),
        forall|i: int| 0 <= i < uses.len() ==> modest(#[trigger] uses[i]),
    ensures
        all_heard(first, uses) + after(first, uses).ready + after(first, uses).accumulated
            == all_fetched(uses),
{
    lemma_nothing_is_lost(first, uses, mix);
}

proof fn lemma_nothing_is_lost<F: Fn(Sample, Sample) -> Sample>(
    first: AdapterView,
    uses: Seq<AdapterUse>,
    mix: F,
)
    requires
        first.accumulated.len() == 0,
        first.ready.len() == 0,
        !first.resampling,
        first.channels != 1,
        proper_uses(first, uses, mix),
        forall|i: int| 0 <= i < uses.len() ==> modest(#[trigger] uses[i]),
    ensures
        all_heard(first, uses) + after(first, uses).ready + after(first, uses).accumulated
            == all_fetched(uses),
        after(first, uses).accumulated.len() <= FETCH_LIMIT,
        !after(first, uses).resampling,
        after(first, uses).channels != 1,
    decreases uses.len(),
{
    let now = after(first, uses);
    if uses.len() == 0 {
        assert(all_heard(first, uses) + now.ready + now.accumulated =~= all_fetched(uses));
    } else {
        let earlier = uses.drop_last();
        let before = after(first, earlier);
        let heard = all_heard(first, earlier);
        assert(modest(uses[uses.len() - 1]));
        assert forall|i: int| 0 <= i < earlier.len() implies modest(#[trigger] earlier[i]) by {
            assert(earlier[i] == uses[i]);
        }
        lemma_nothing_is_lost(first, earlier, mix);
        match uses.last() {
            AdapterUse::Turn(turn) => {
                law_samples_pass_in_order(turn, mix);
                assert(heard + now.ready + now.accumulated =~= heard + (now.ready
                    + now.accumulated));
                assert(heard + (before.ready + before.accumulated + turn.fetched) =~= heard
                    + before.ready + before.accumulated + turn.fetched);
            },
            AdapterUse::Drain(wanted) => {
                law_silence_comes_last(before.ready, wanted);
                let count = drained_count(before.ready, wanted);
                let output = rendered(before.ready, wanted).take(count);
                assert(heard + output + now.ready + now.accumulated =~= heard + (output
                    + now.ready) + now.accumulated);
            },
        }
    }
}

} // verus!
