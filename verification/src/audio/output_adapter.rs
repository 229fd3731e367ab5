//! From the internal format to that of the device.
//!
//! Samples of the shared queue gather in the adapter, pass through a resampler
//! if the device runs at another rate, are laid out for the device's channels,
//! and wait there until the device asks for them. The resampler is outside:
//! [`OutputAdapter::fill_buffer`] asks for it and is called again with what
//! came of it.

use vstd::prelude::*;

pub mod filling;
pub mod laws;
pub mod turns;

use super::samples::{
    consumer_capacity, consumer_queue, consumer_refusals, follows_queue, ring_capacity,
    SampleConsumer, SampleRing,
};
use super::{AudioFormat, Sample, INTERNAL_CHANNELS, INTERNAL_SAMPLE_RATE, SILENCE};

verus! {

/// Samples that fit on either side of the resampler.
pub const ADAPTER_CAPACITY: usize = 65536;

/// Most samples that are taken from the shared queue at a time.
pub const FETCH_LIMIT: usize = 1024;

/// A queue after samples were offered to it that it takes only up to a
/// capacity.
pub open spec fn append_bounded(held: Seq<Sample>, offered: Seq<Sample>, capacity: int) -> Seq<
    Sample,
> {
    if held.len() + offered.len() <= capacity {
        held + offered
    } else if held.len() < capacity {
        held + offered.take(capacity - held.len())
    } else {
        held
    }
}

/// Offer samples to a queue, one after the other.
fn offer(ring: &mut SampleRing, samples: &[Sample])
    ensures
        final(ring)@ == append_bounded(old(ring)@, samples@, ring_capacity(*old(ring)) as int),
        ring_capacity(*final(ring)) == ring_capacity(*old(ring)),
{
    let ghost capacity = ring_capacity(*ring) as int;
    assert(append_bounded(ring@, samples@.take(0), capacity) =~= ring@);
    for i in 0..samples.len()
        invariant
            capacity == ring_capacity(*old(ring)),
            capacity == ring_capacity(*ring),
            ring@ == append_bounded(old(ring)@, samples@.take(i as int), capacity),
    {
        let _ = ring.try_push(samples[i]);
        assert(ring@ =~= append_bounded(old(ring)@, samples@.take(i + 1), capacity));
    }
    assert(samples@.take(samples@.len() as int) =~= samples@);
}

/// Take the oldest `count` samples out of a queue.
fn withdraw(ring: &mut SampleRing, count: usize) -> (samples: Vec<Sample>)
    requires
        count <= old(ring)@.len(),
    ensures
        samples@ == old(ring)@.take(count as int),
        final(ring)@ == old(ring)@.skip(count as int),
        ring_capacity(*final(ring)) == ring_capacity(*old(ring)),
{
    let mut samples: Vec<Sample> = Vec::new();
    assert(ring@.skip(0) =~= ring@);
    for i in 0..count
        invariant
            count <= old(ring)@.len(),
            samples@ == old(ring)@.take(i as int),
            ring@ == old(ring)@.skip(i as int),
            ring_capacity(*ring) == ring_capacity(*old(ring)),
    {
        if let Some(sample) = ring.try_pop() {
            samples.push(sample);
        }
        assert(samples@ =~= old(ring)@.take(i + 1));
        assert(ring@ =~= old(ring)@.skip(i + 1));
    }
    samples
}

/// The mathematical value of an [`OutputAdapter`].
#[verifier::ext_equal]
pub struct AdapterView {
    /// Channels of the device.
    pub channels: u16,
    /// Whether the device runs at another rate than the internal one.
    pub resampling: bool,
    /// Samples in the internal format, oldest first.
    pub accumulated: Seq<Sample>,
    /// Samples in the format of the device, oldest first.
    pub ready: Seq<Sample>,
}

impl AdapterView {
    pub open spec fn with_accumulated(self, accumulated: Seq<Sample>) -> AdapterView {
        AdapterView { accumulated, ..self }
    }

    pub open spec fn with_ready(self, ready: Seq<Sample>) -> AdapterView {
        AdapterView { ready, ..self }
    }

    /// The samples to process next and what then remains: as many as the
    /// resampler takes, or simply all. Nothing is processed before there are
    /// enough.
    pub open spec fn chunk(self, needed: nat) -> Option<(Seq<Sample>, Seq<Sample>)> {
        if self.resampling {
            if self.accumulated.len() >= needed {
                Some(
                    (
                        self.accumulated.take(needed as int),
                        self.accumulated.skip(needed as int),
                    ),
                )
            } else {
                None
            }
        } else if self.accumulated.len() > 0 {
            Some((self.accumulated, Seq::empty()))
        } else {
            None
        }
    }

    /// Taking out the samples to process next: what remains, and those samples,
    /// if there are enough.
    pub open spec fn take_next(self, needed: nat) -> (AdapterView, Option<Seq<Sample>>) {
        match self.chunk(needed) {
            Some((head, rest)) => (self.with_accumulated(rest), Some(head)),
            None => (self, None),
        }
    }

    /// Whether processed samples were laid out for the device and appended to
    /// those that are ready, giving `next`. On one channel both samples of a
    /// frame are mixed.
    pub open spec fn delivers<F: Fn(Sample, Sample) -> Sample>(
        self,
        processed: Seq<Sample>,
        mix: F,
        next: AdapterView,
    ) -> bool {
        if self.channels == 1 {
            exists|mono: Seq<Sample>|
                #![trigger append_bounded(self.ready, mono, ADAPTER_CAPACITY as int)]
                {
                    &&& mono.len() == processed.len() / 2
                    &&& forall|k: int|
                        0 <= k < mono.len() ==> mix.ensures(
                            (processed[2 * k], processed[2 * k + 1]),
                            #[trigger] mono[k],
                        )
                    &&& next == self.with_ready(
                        append_bounded(self.ready, mono, ADAPTER_CAPACITY as int),
                    )
                }
        } else {
            next == self.with_ready(
                append_bounded(self.ready, processed, ADAPTER_CAPACITY as int),
            )
        }
    }

    /// Whether samples that came out of the shared queue were gathered, giving
    /// `next`.
    pub open spec fn gathers(self, fetched: Seq<Sample>, next: AdapterView) -> bool {
        &&& fetched.len() <= FETCH_LIMIT
        &&& next == self.with_accumulated(
            append_bounded(self.accumulated, fetched, ADAPTER_CAPACITY as int),
        )
    }
}

/// How often the shared queue is found empty while these samples are fetched:
/// once if they are fewer than the limit, since nothing else ends fetching.
pub open spec fn refusals_while_fetching(fetched: Seq<Sample>) -> int {
    if fetched.len() < FETCH_LIMIT {
        1
    } else {
        0
    }
}

/// What happened since the last turn at filling a device buffer.
#[derive(Debug)]
pub enum FillEvent {
    /// Nothing.
    Continue,
    /// The resampler made these samples of its chunk.
    Resampled(Vec<Sample>),
    /// The resampler failed; its chunk is lost.
    ResampleFailed,
}

/// The mathematical value of a [`FillEvent`].
pub enum FillEventView {
    Continue,
    Resampled(Seq<Sample>),
    ResampleFailed,
}

impl View for FillEvent {
    type V = FillEventView;

    open spec fn view(&self) -> FillEventView {
        match *self {
            FillEvent::Continue => FillEventView::Continue,
            FillEvent::Resampled(samples) => FillEventView::Resampled(samples@),
            FillEvent::ResampleFailed => FillEventView::ResampleFailed,
        }
    }
}

/// What to do for the next turn.
#[derive(Debug)]
pub enum FillStep {
    /// Send this chunk through the resampler.
    Resample(Vec<Sample>),
    /// Take another turn.
    Again,
    /// Enough is ready, or nothing more is to be had.
    Ready,
}

/// The mathematical value of a [`FillStep`].
pub enum FillStepView {
    Resample(Seq<Sample>),
    Again,
    Ready,
}

impl View for FillStep {
    type V = FillStepView;

    open spec fn view(&self) -> FillStepView {
        match *self {
            FillStep::Resample(chunk) => FillStepView::Resample(chunk@),
            FillStep::Again => FillStepView::Again,
            FillStep::Ready => FillStepView::Ready,
        }
    }
}

/// One turn at getting `wanted` samples ready: what is before and after it,
/// what came out of the shared queue during it, and what it answers.
#[verifier::ext_equal]
pub struct FillTurn {
    pub before: AdapterView,
    pub wanted: nat,
    pub event: FillEventView,
    /// Samples that the resampler takes next.
    pub needed: nat,
    pub fetched: Seq<Sample>,
    /// How often the shared queue was found empty.
    pub refusals: int,
    pub after: AdapterView,
    pub step: FillStepView,
}

impl FillTurn {
    /// Leave the shared queue alone.
    pub open spec fn leaves_queue(self) -> bool {
        &&& self.fetched.len() == 0
        &&& self.refusals == 0
    }

    /// Gather from the shared queue, up to the limit or until it is found
    /// empty; go on if there was anything.
    pub open spec fn fetches(self) -> bool {
        &&& self.before.gathers(self.fetched, self.after)
        &&& self.refusals == refusals_while_fetching(self.fetched)
        &&& self.step == if self.fetched.len() > 0 {
            FillStepView::Again
        } else {
            FillStepView::Ready
        }
    }

    /// Whether the turn goes as it should.
    pub open spec fn proper<F: Fn(Sample, Sample) -> Sample>(self, mix: F) -> bool {
        match self.event {
            FillEventView::Continue => if self.before.ready.len() >= self.wanted {
                &&& self.step == FillStepView::Ready
                &&& self.after == self.before
                &&& self.leaves_queue()
            } else {
                match self.before.chunk(self.needed) {
                    Some((chunk, rest)) => {
                        let taken = self.before.with_accumulated(rest);
                        &&& self.leaves_queue()
                        &&& if self.before.resampling {
                            &&& self.step == FillStepView::Resample(chunk)
                            &&& self.after == taken
                        } else {
                            &&& self.step == FillStepView::Again
                            &&& taken.delivers(chunk, mix, self.after)
                        }
                    },
                    None => self.fetches(),
                }
            },
            FillEventView::Resampled(processed) => {
                &&& self.step == FillStepView::Again
                &&& self.before.delivers(processed, mix, self.after)
                &&& self.leaves_queue()
            },
            FillEventView::ResampleFailed => self.fetches(),
        }
    }
}

/// Gathers, converts and holds samples for one device.
pub struct OutputAdapter {
    device_format: AudioFormat,
    resampling: bool,
    accumulation: SampleRing,
    output_buffer: SampleRing,
}

impl View for OutputAdapter {
    type V = AdapterView;

    closed spec fn view(&self) -> AdapterView {
        AdapterView {
            channels: self.device_format.channels,
            resampling: self.resampling,
            accumulated: self.accumulation@,
            ready: self.output_buffer@,
        }
    }
}

impl OutputAdapter {
    /// Both queues were made for [`ADAPTER_CAPACITY`] samples.
    pub closed spec fn well_formed(&self) -> bool {
        &&& ring_capacity(self.accumulation) == ADAPTER_CAPACITY
        &&& ring_capacity(self.output_buffer) == ADAPTER_CAPACITY
    }

    /// An empty adapter. It resamples if the device runs at another rate than
    /// the internal one.
    pub fn new(device_format: AudioFormat) -> (adapter: Self)
        ensures
            adapter.well_formed(),
            adapter@ == (AdapterView {
                channels: device_format.channels,
                resampling: device_format.sample_rate != INTERNAL_SAMPLE_RATE,
                accumulated: Seq::empty(),
                ready: Seq::empty(),
            }),
    {
        OutputAdapter {
            device_format,
            resampling: device_format.sample_rate != INTERNAL_SAMPLE_RATE,
            accumulation: SampleRing::new(ADAPTER_CAPACITY),
            output_buffer: SampleRing::new(ADAPTER_CAPACITY),
        }
    }

    /// Take one turn at getting `wanted` samples ready. The resampler, if there
    /// is one, takes `needed_frames` frames next.
    pub fn fill_buffer<F: Fn(Sample, Sample) -> Sample>(
        &mut self,
        consumer: &mut SampleConsumer,
        wanted: usize,
        event: FillEvent,
        needed_frames: usize,
        mix: &F,
    ) -> (step: FillStep)
        requires
            old(self).well_formed(),
            needed_frames * INTERNAL_CHANNELS <= usize::MAX,
            forall|left: Sample, right: Sample| mix.requires((left, right)),
        ensures
            final(self).well_formed(),
            consumer_capacity(*final(consumer)) == consumer_capacity(*old(consumer)),
            consumer_queue(*final(consumer)) == consumer_queue(*old(consumer)),
            follows_queue(old(consumer)@, consumer_queue(*old(consumer))) ==> follows_queue(
                final(consumer)@,
                consumer_queue(*old(consumer)),
            ),
            old(consumer)@.is_prefix_of(final(consumer)@),
            (FillTurn {
                before: old(self)@,
                wanted: wanted as nat,
                event: event@,
                needed: (needed_frames * INTERNAL_CHANNELS) as nat,
                fetched: final(consumer)@.skip(old(consumer)@.len() as int),
                refusals: consumer_refusals(*final(consumer)) - consumer_refusals(*old(consumer)),
                after: final(self)@,
                step: step@,
            }).proper(*mix),
    {
        assert(consumer@ =~= consumer@.take(consumer@.len() as int));
        assert(consumer@.skip(consumer@.len() as int) =~= Seq::empty());
        match event {
            FillEvent::Continue => {
                if self.output_buffer.occupied_len() >= wanted {
                    return FillStep::Ready;
                }
                match self.process_one_chunk(needed_frames) {
                    Some(chunk) => {
                        if self.resampling {
                            FillStep::Resample(chunk)
                        } else {
                            self.deliver(chunk.as_slice(), mix);
                            FillStep::Again
                        }
                    },
                    None => self.fetch(consumer),
                }
            },
            FillEvent::Resampled(processed) => {
                self.deliver(processed.as_slice(), mix);
                FillStep::Again
            },
            FillEvent::ResampleFailed => self.fetch(consumer),
        }
    }

    /// Move ready samples to the device's buffer, fill it up with silence where
    /// there are too few, and tell how many there were.
    pub fn drain(&mut self, output: &mut [Sample]) -> (count: usize)
        requires
            old(self).well_formed(),
        ensures
            final(self).well_formed(),
            count == drained_count(old(self)@.ready, old(output)@.len()),
            final(output)@ == rendered(old(self)@.ready, old(output)@.len()),
            final(self)@ == old(self)@.with_ready(
                old(self)@.ready.skip(drained_count(old(self)@.ready, old(output)@.len())),
            ),
    {
        let occupied = self.output_buffer.occupied_len();
        let size: usize = output.len();
        let to_copy: usize = if occupied <= size {
            occupied
        } else {
            size
        };
        let samples = withdraw(&mut self.output_buffer, to_copy);
        for i in 0..size
            invariant
                size == output@.len(),
                size == old(output)@.len(),
                to_copy == samples@.len(),
                to_copy <= size,
                forall|k: int|
                    0 <= k < i ==> #[trigger] output@[k] == if k < to_copy {
                        samples@[k]
                    } else {
                        SILENCE
                    },
        {
            output[i] = if i < to_copy {
                samples[i]
            } else {
                SILENCE
            };
        }
        assert(output@ =~= rendered(old(self)@.ready, old(output)@.len()));
        to_copy
    }

    /// Take out the samples to process next, if there are enough.
    pub fn process_one_chunk(&mut self, needed_frames: usize) -> (chunk: Option<Vec<Sample>>)
        requires
            old(self).well_formed(),
            needed_frames * INTERNAL_CHANNELS <= usize::MAX,
        ensures
            final(self).well_formed(),
            ({
                let (next, head) = old(self)@.take_next(
                    (needed_frames * INTERNAL_CHANNELS) as nat,
                );
                &&& final(self)@ == next
                &&& match chunk {
                    Some(taken) => head == Some(taken@),
                    None => head is None,
                }
            }),
    {
        let occupied = self.accumulation.occupied_len();
        let count: usize = if self.resampling {
            let needed: usize = needed_frames * INTERNAL_CHANNELS as usize;
            if occupied < needed {
                return None;
            }
            needed
        } else {
            if occupied == 0 {
                return None;
            }
            occupied
        };
        let chunk = withdraw(&mut self.accumulation, count);
        assert(old(self)@.accumulated.take(old(self)@.accumulated.len() as int)
            =~= old(self)@.accumulated);
        assert(old(self)@.accumulated.skip(old(self)@.accumulated.len() as int) =~= Seq::empty());
        Some(chunk)
    }

    /// Lay processed samples out for the device and append them to those that
    /// are ready.
    fn deliver<F: Fn(Sample, Sample) -> Sample>(&mut self, processed: &[Sample], mix: &F)
        requires
            old(self).well_formed(),
            forall|left: Sample, right: Sample| mix.requires((left, right)),
        ensures
            final(self).well_formed(),
            old(self)@.delivers(processed@, *mix, final(self)@),
    {
        if self.device_format.channels == 1 {
            let mut mono: Vec<Sample> = Vec::new();
            let total: usize = processed.len();
            for i in 0..total / 2
                invariant
                    total == processed@.len(),
                    mono@.len() == i,
                    forall|left: Sample, right: Sample| mix.requires((left, right)),
                    forall|k: int|
                        0 <= k < i ==> mix.ensures(
                            (processed@[2 * k], processed@[2 * k + 1]),
                            #[trigger] mono@[k],
                        ),
            {
                let mixed = mix(processed[2 * i], processed[2 * i + 1]);
                mono.push(mixed);
            }
            offer(&mut self.output_buffer, mono.as_slice());
            assert(self@ == old(self)@.with_ready(
                append_bounded(old(self)@.ready, mono@, ADAPTER_CAPACITY as int),
            ));
        } else {
            offer(&mut self.output_buffer, processed);
        }
    }

    /// Gather samples from the shared queue, up to a limit or until the queue is
    /// found empty.
    fn fetch(&mut self, consumer: &mut SampleConsumer) -> (step: FillStep)
        requires
            old(self).well_formed(),
        ensures
            final(self).well_formed(),
            consumer_capacity(*final(consumer)) == consumer_capacity(*old(consumer)),
            consumer_queue(*final(consumer)) == consumer_queue(*old(consumer)),
            follows_queue(old(consumer)@, consumer_queue(*old(consumer))) ==> follows_queue(
                final(consumer)@,
                consumer_queue(*old(consumer)),
            ),
            old(consumer)@.is_prefix_of(final(consumer)@),
            old(self)@.gathers(
                final(consumer)@.skip(old(consumer)@.len() as int),
                final(self)@,
            ),
            consumer_refusals(*final(consumer)) == consumer_refusals(*old(consumer))
                + refusals_while_fetching(final(consumer)@.skip(old(consumer)@.len() as int)),
            step is Again <==> final(consumer)@.len() > old(consumer)@.len(),
            step is Ready <==> final(consumer)@.len() == old(consumer)@.len(),
    {
        let mut fetched: Vec<Sample> = Vec::new();
        assert(consumer@ =~= old(consumer)@ + fetched@);
        while fetched.len() < FETCH_LIMIT
            invariant_except_break
                consumer_refusals(*consumer) == consumer_refusals(*old(consumer)),
            invariant
                fetched@.len() <= FETCH_LIMIT,
                consumer@ == old(consumer)@ + fetched@,
                consumer_capacity(*consumer) == consumer_capacity(*old(consumer)),
                consumer_queue(*consumer) == consumer_queue(*old(consumer)),
                follows_queue(old(consumer)@, consumer_queue(*old(consumer))) ==> follows_queue(
                    consumer@,
                    consumer_queue(*old(consumer)),
                ),
            ensures
                consumer_refusals(*consumer) == consumer_refusals(*old(consumer))
                    + refusals_while_fetching(fetched@),
            decreases FETCH_LIMIT - fetched@.len(),
        {
            match consumer.try_pop() {
                Some(sample) => {
                    fetched.push(sample);
                    assert(consumer@ =~= old(consumer)@ + fetched@);
                },
                None => {
                    break;
                },
            }
        }
        offer(&mut self.accumulation, fetched.as_slice());
        assert(consumer@.skip(old(consumer)@.len() as int) =~= fetched@);
        assert(old(consumer)@ =~= consumer@.take(old(consumer)@.len() as int));
        if fetched.len() > 0 {
            FillStep::Again
        } else {
            FillStep::Ready
        }
    }
}

/// How many ready samples a device buffer of this size takes.
pub open spec fn drained_count(ready: Seq<Sample>, wanted: nat) -> int {
    if ready.len() <= wanted {
        ready.len() as int
    } else {
        wanted as int
    }
}

/// What a device buffer of this size holds: the oldest ready samples, and
/// silence after them.
pub open spec fn rendered(ready: Seq<Sample>, wanted: nat) -> Seq<Sample> {
    Seq::new(
        wanted,
        |i: int|
            if i < ready.len() {
                ready[i]
            } else {
                SILENCE
            },
    )
}

} // verus!
