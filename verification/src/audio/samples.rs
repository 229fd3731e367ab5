//! Sample queues of the `ringbuf` crate.
//!
//! A [`SampleRing`] is a whole queue in one hand, so its contents are known.
//! A [`SampleProducer`] and a [`SampleConsumer`] are the two ends of a queue
//! that is shared with another thread. How full it is can change at any time,
//! so they are described by what went in at one end and what came out at the
//! other: both follow the one stream of samples that goes through the queue.

use ringbuf::traits::{Consumer, Observer, Producer, Split};
use vstd::prelude::*;

use super::Sample;

verus! {

/// A bounded queue of samples: a `ringbuf::HeapRb`.
#[verifier::external_body]
pub struct SampleRing {
    inner: ringbuf::HeapRb<Sample>,
}

/// The writing end of a shared queue: a `ringbuf::HeapProd`.
#[verifier::external_body]
pub struct SampleProducer {
    inner: ringbuf::HeapProd<Sample>,
}

/// The reading end of a shared queue: a `ringbuf::HeapCons`.
#[verifier::external_body]
pub struct SampleConsumer {
    inner: ringbuf::HeapCons<Sample>,
}

/// The samples in a queue, oldest first.
pub uninterp spec fn ring_contents(ring: SampleRing) -> Seq<Sample>;

/// How many samples a queue was made for.
pub uninterp spec fn ring_capacity(ring: SampleRing) -> nat;

/// Every sample that ever went in at this end, in order.
pub uninterp spec fn producer_pushed(producer: SampleProducer) -> Seq<Sample>;

/// How many samples the queue behind this end was made for.
pub uninterp spec fn producer_capacity(producer: SampleProducer) -> nat;

/// How often this end offered samples and found no room for all of them.
pub uninterp spec fn producer_refusals(producer: SampleProducer) -> nat;

/// Every sample that ever came out at this end, in order.
pub uninterp spec fn consumer_popped(consumer: SampleConsumer) -> Seq<Sample>;

/// How many samples the queue behind this end was made for.
pub uninterp spec fn consumer_capacity(consumer: SampleConsumer) -> nat;

/// How often this end asked for a sample and found the queue empty.
pub uninterp spec fn consumer_refusals(consumer: SampleConsumer) -> nat;

/// How many samples this end saw in the queue each time it counted them, in
/// order.
pub uninterp spec fn consumer_looks(consumer: SampleConsumer) -> Seq<nat>;

/// What this end saw each time it asked whether the queue is empty, in order.
pub uninterp spec fn consumer_checks(consumer: SampleConsumer) -> Seq<bool>;

/// How many of the samples that this end last counted are still in the queue.
/// Nobody else takes them out.
pub uninterp spec fn consumer_available(consumer: SampleConsumer) -> nat;

/// The queue that this end belongs to.
pub uninterp spec fn producer_queue(producer: SampleProducer) -> int;

/// The queue that this end belongs to.
pub uninterp spec fn consumer_queue(consumer: SampleConsumer) -> int;

/// The sample at a position of all that goes through a queue in its lifetime.
pub uninterp spec fn queue_sample(queue: int, position: int) -> Sample;

/// Whether samples are the first that go through a queue, in order.
pub open spec fn follows_queue(samples: Seq<Sample>, queue: int) -> bool {
    forall|i: int| 0 <= i < samples.len() ==> #[trigger] samples[i] == queue_sample(queue, i)
}

impl View for SampleRing {
    type V = Seq<Sample>;

    open spec fn view(&self) -> Seq<Sample> {
        ring_contents(*self)
    }
}

impl View for SampleProducer {
    type V = Seq<Sample>;

    open spec fn view(&self) -> Seq<Sample> {
        producer_pushed(*self)
    }
}

impl View for SampleConsumer {
    type V = Seq<Sample>;

    open spec fn view(&self) -> Seq<Sample> {
        consumer_popped(*self)
    }
}

/// Whether a queue of this many samples can be allocated at all.
pub open spec fn allocatable(capacity: int) -> bool {
    0 < capacity && capacity * 4 <= isize::MAX
}

impl SampleRing {
    /// `ringbuf::HeapRb::new`: an empty queue for `capacity` samples. It
    /// panics when `capacity` is zero or the allocation exceeds the address
    /// space.
    #[verifier::external_body]
    pub(crate) fn new(capacity: usize) -> (ring: Self)
        requires
            allocatable(capacity as int),
        ensures
            ring_contents(ring) == Seq::<Sample>::empty(),
            ring_capacity(ring) == capacity,
    {
        SampleRing { inner: ringbuf::HeapRb::new(capacity) }
    }

    /// `ringbuf::traits::Observer::occupied_len`: how many samples there are,
    /// which is never more than the queue was made for.
    #[verifier::external_body]
    pub(crate) fn occupied_len(&self) -> (len: usize)
        ensures
            len == ring_contents(*self).len(),
            len <= ring_capacity(*self),
    {
        self.inner.occupied_len()
    }

    /// `ringbuf::traits::Producer::try_push`: appends the sample, or hands it
    /// back when the queue is full.
    #[verifier::external_body]
    pub(crate) fn try_push(&mut self, sample: Sample) -> (outcome: Result<(), Sample>)
        ensures
            ring_capacity(*final(self)) == ring_capacity(*old(self)),
            match outcome {
                Ok(()) => {
                    &&& ring_contents(*old(self)).len() < ring_capacity(*old(self))
                    &&& ring_contents(*final(self)) == ring_contents(*old(self)).push(sample)
                },
                Err(rejected) => {
                    &&& ring_contents(*old(self)).len() >= ring_capacity(*old(self))
                    &&& ring_contents(*final(self)) == ring_contents(*old(self))
                    &&& rejected == sample
                },
            },
    {
        self.inner.try_push(sample)
    }

    /// `ringbuf::traits::Consumer::try_pop`: takes out the oldest sample, if
    /// there is any.
    #[verifier::external_body]
    pub(crate) fn try_pop(&mut self) -> (sample: Option<Sample>)
        ensures
            ring_capacity(*final(self)) == ring_capacity(*old(self)),
            match sample {
                Some(oldest) => {
                    &&& ring_contents(*old(self)).len() > 0
                    &&& oldest == ring_contents(*old(self))[0]
                    &&& ring_contents(*final(self)) == ring_contents(*old(self)).drop_first()
                },
                None => {
                    &&& ring_contents(*old(self)).len() == 0
                    &&& ring_contents(*final(self)) == ring_contents(*old(self))
                },
            },
    {
        self.inner.try_pop()
    }

    /// `ringbuf::traits::Split::split`: the two ends of one queue. What the
    /// queue held counts as pushed and not yet popped.
    #[verifier::external_body]
    pub(crate) fn split(self) -> (ends: (SampleProducer, SampleConsumer))
        ensures
            producer_pushed(ends.0) == ring_contents(self),
            producer_capacity(ends.0) == ring_capacity(self),
            consumer_popped(ends.1) == Seq::<Sample>::empty(),
            consumer_capacity(ends.1) == ring_capacity(self),
            producer_queue(ends.0) == consumer_queue(ends.1),
            follows_queue(producer_pushed(ends.0), producer_queue(ends.0)),
    {
        let (producer, consumer) = self.inner.split();
        (SampleProducer { inner: producer }, SampleConsumer { inner: consumer })
    }
}

impl SampleProducer {
    /// `ringbuf::traits::Producer::push_slice`: appends as many of the first
    /// samples as there is room for and tells how many. How many that is
    /// depends on what the other end has taken out by then; some are left over
    /// only when the queue is full, so only after as many were pushed as it
    /// was made for. All that was pushed goes through the queue in that order.
    #[verifier::external_body]
    pub(crate) fn push_slice(&mut self, samples: &[Sample]) -> (count: usize)
        ensures
            count <= samples@.len(),
            count <= producer_capacity(*old(self)),
            producer_pushed(*final(self)) == producer_pushed(*old(self)) + samples@.take(
                count as int,
            ),
            producer_capacity(*final(self)) == producer_capacity(*old(self)),
            producer_queue(*final(self)) == producer_queue(*old(self)),
            follows_queue(producer_pushed(*final(self)), producer_queue(*old(self))),
            count < samples@.len() ==> producer_pushed(*final(self)).len() >= producer_capacity(
                *old(self),
            ),
            producer_refusals(*final(self)) == if count < samples@.len() {
                producer_refusals(*old(self)) + 1
            } else {
                producer_refusals(*old(self))
            },
    {
        self.inner.push_slice(samples)
    }
}

impl SampleConsumer {
    /// `ringbuf::traits::Consumer::try_pop`: takes out the oldest sample, if
    /// there is any by then. Samples come out in the order in which they go
    /// through the queue. Nothing comes out only where the queue is found empty.
    #[verifier::external_body]
    pub(crate) fn try_pop(&mut self) -> (sample: Option<Sample>)
        ensures
            consumer_capacity(*final(self)) == consumer_capacity(*old(self)),
            consumer_queue(*final(self)) == consumer_queue(*old(self)),
            follows_queue(consumer_popped(*final(self)), consumer_queue(*old(self))),
            consumer_popped(*final(self)) == match sample {
                Some(value) => consumer_popped(*old(self)).push(value),
                None => consumer_popped(*old(self)),
            },
            consumer_refusals(*final(self)) == match sample {
                Some(_) => consumer_refusals(*old(self)),
                None => consumer_refusals(*old(self)) + 1,
            },
            consumer_looks(*final(self)) == consumer_looks(*old(self)),
            consumer_checks(*final(self)) == consumer_checks(*old(self)),
            consumer_available(*old(self)) > 0 ==> sample is Some,
            sample matches Some(value) ==> value == queue_sample(
                consumer_queue(*old(self)),
                consumer_popped(*old(self)).len() as int,
            ),
    {
        self.inner.try_pop()
    }

    /// `ringbuf::traits::Observer::occupied_len`: how many samples there are
    /// at some moment of the call. The other end can add to them at any time,
    /// but they stay until this end takes them out.
    #[verifier::external_body]
    pub(crate) fn occupied_len(&mut self) -> (len: usize)
        ensures
            len <= consumer_capacity(*old(self)),
            consumer_looks(*final(self)) == consumer_looks(*old(self)).push(len as nat),
            consumer_available(*final(self)) == len,
            consumer_popped(*final(self)) == consumer_popped(*old(self)),
            consumer_capacity(*final(self)) == consumer_capacity(*old(self)),
            consumer_queue(*final(self)) == consumer_queue(*old(self)),
            consumer_refusals(*final(self)) == consumer_refusals(*old(self)),
            consumer_checks(*final(self)) == consumer_checks(*old(self)),
    {
        self.inner.occupied_len()
    }

    /// `ringbuf::traits::Observer::is_empty`: whether there was no sample at
    /// some moment of the call. Samples that this end has counted and not taken
    /// out are there.
    #[verifier::external_body]
    pub(crate) fn is_empty(&mut self) -> (empty: bool)
        ensures
            consumer_checks(*final(self)) == consumer_checks(*old(self)).push(empty),
            consumer_available(*old(self)) > 0 ==> !empty,
            consumer_available(*final(self)) == consumer_available(*old(self)),
            consumer_looks(*final(self)) == consumer_looks(*old(self)),
            consumer_popped(*final(self)) == consumer_popped(*old(self)),
            consumer_capacity(*final(self)) == consumer_capacity(*old(self)),
            consumer_queue(*final(self)) == consumer_queue(*old(self)),
            consumer_refusals(*final(self)) == consumer_refusals(*old(self)),
    {
        self.inner.is_empty()
    }

    /// `ringbuf::traits::Consumer::skip`: takes out `count` samples, or all if
    /// there are fewer, and tells how many. They are the oldest ones.
    #[verifier::external_body]
    pub(crate) fn skip(&mut self, count: usize) -> (skipped: usize)
        ensures
            skipped <= count,
            skipped <= consumer_capacity(*old(self)),
            count <= consumer_available(*old(self)) ==> skipped == count,
            consumer_capacity(*final(self)) == consumer_capacity(*old(self)),
            consumer_queue(*final(self)) == consumer_queue(*old(self)),
            consumer_refusals(*final(self)) == consumer_refusals(*old(self)),
            consumer_looks(*final(self)) == consumer_looks(*old(self)),
            consumer_checks(*final(self)) == consumer_checks(*old(self)),
            follows_queue(consumer_popped(*final(self)), consumer_queue(*old(self))),
            consumer_popped(*final(self)).len() == consumer_popped(*old(self)).len() + skipped,
            consumer_popped(*old(self)).is_prefix_of(consumer_popped(*final(self))),
    {
        self.inner.skip(count)
    }
}

/// What comes out of a shared queue is what went in: as far as both ends have
/// got, the samples at one are those at the other, in the same order.
pub proof fn law_queue_gives_back_what_went_in(producer: SampleProducer, consumer: SampleConsumer)
    requires
        producer_queue(producer) == consumer_queue(consumer),
        follows_queue(producer@, producer_queue(producer)),
        follows_queue(consumer@, consumer_queue(consumer)),
    ensures
        producer@.len() <= consumer@.len() ==> producer@.is_prefix_of(consumer@),
        consumer@.len() <= producer@.len() ==> consumer@.is_prefix_of(producer@),
{
    if producer@.len() <= consumer@.len() {
        assert(producer@ =~= consumer@.take(producer@.len() as int));
    }
    if consumer@.len() <= producer@.len() {
        assert(consumer@ =~= producer@.take(consumer@.len() as int));
    }
}

} // verus!
