//! Putting decoded samples into the output queue, as room there becomes free.

use vstd::prelude::*;
use vstd::slice::slice_subrange;

use super::samples::{
    follows_queue, producer_capacity, producer_queue, producer_refusals, SampleProducer,
};
use super::Sample;

verus! {

/// What a turn at pushing came to.
#[derive(Debug, Clone, Copy, PartialEq, Eq, Structural)]
pub enum PushTurn {
    /// All samples are in the queue.
    Done,
    /// The queue is full: wait a moment and take another turn.
    Waiting,
    /// The session is asked to end; the rest is given up.
    Aborted,
}

/// What looking for a request to end came to.
#[derive(Debug, Clone, Copy, PartialEq, Eq, Structural)]
pub enum Signal {
    /// A message was there.
    Message,
    /// No message was there.
    Nothing,
    /// No message was there, and none can come any more.
    Disconnected,
}

/// Whether the session is asked to end. That nobody can ask any more is no
/// request.
pub fn asks_to_end(signal: Signal) -> (asks: bool)
    ensures
        asks == (signal == Signal::Message),
{
    match signal {
        Signal::Message => true,
        Signal::Nothing | Signal::Disconnected => false,
    }
}

/// Samples on their way into the output queue.
#[derive(Debug)]
pub struct PendingPush {
    samples: Vec<Sample>,
    pushed: usize,
}

impl View for PendingPush {
    type V = Seq<Sample>;

    /// The samples that are not in the queue yet.
    closed spec fn view(&self) -> Seq<Sample> {
        self.samples@.skip(self.pushed as int)
    }
}

impl PendingPush {
    #[verifier::type_invariant]
    spec fn well_formed(&self) -> bool {
        self.pushed <= self.samples@.len()
    }

    /// All of these samples have to go into the queue.
    pub fn new(samples: Vec<Sample>) -> (pending: Self)
        ensures
            pending@ == samples@,
    {
        let pending = PendingPush { samples, pushed: 0 };
        assert(pending@ =~= samples@);
        pending
    }

    /// Whether nothing is left to push.
    pub fn is_done(&self) -> (done: bool)
        ensures
            done == (self@.len() == 0),
    {
        proof {
            use_type_invariant(self);
        }
        self.pushed == self.samples.len()
    }

    /// Note that the first `count` of the remaining samples went in.
    pub fn accept(&mut self, count: usize) -> (turn: PushTurn)
        requires
            count <= old(self)@.len(),
        ensures
            final(self)@ == old(self)@.skip(count as int),
            turn == if count == old(self)@.len() {
                PushTurn::Done
            } else {
                PushTurn::Waiting
            },
    {
        proof {
            use_type_invariant(&*self);
        }
        let total: usize = self.samples.len();
        self.pushed = self.pushed + count;
        assert(self@ =~= old(self)@.skip(count as int));
        if self.pushed == total {
            PushTurn::Done
        } else {
            PushTurn::Waiting
        }
    }

    /// Push what there is room for, unless the session is asked to end. What
    /// went into the queue, followed by what remains, is always the same. There
    /// is something to wait for only where the queue was found full.
    pub fn turn(&mut self, producer: &mut SampleProducer, shutdown: bool) -> (turn: PushTurn)
        ensures
            final(producer)@ + final(self)@ == old(producer)@ + old(self)@,
            old(producer)@.is_prefix_of(final(producer)@),
            producer_capacity(*final(producer)) == producer_capacity(*old(producer)),
            producer_queue(*final(producer)) == producer_queue(*old(producer)),
            follows_queue(old(producer)@, producer_queue(*old(producer))) ==> follows_queue(
                final(producer)@,
                producer_queue(*old(producer)),
            ),
            old(self)@.len() == 0 || shutdown ==> final(self)@ == old(self)@,
            turn == if final(self)@.len() == 0 {
                PushTurn::Done
            } else if shutdown {
                PushTurn::Aborted
            } else {
                PushTurn::Waiting
            },
            turn == PushTurn::Waiting ==> final(producer)@.len() >= producer_capacity(
                *old(producer),
            ),
            producer_refusals(*final(producer)) == if turn == PushTurn::Waiting {
                producer_refusals(*old(producer)) + 1
            } else {
                producer_refusals(*old(producer))
            },
    {
        proof {
            use_type_invariant(&*self);
        }
        assert(producer@ =~= producer@.take(producer@.len() as int));
        if self.is_done() {
            return PushTurn::Done;
        }
        if shutdown {
            return PushTurn::Aborted;
        }
        let rest = slice_subrange(self.samples.as_slice(), self.pushed, self.samples.len());
        assert(rest@ =~= self@);
        let count = producer.push_slice(rest);
        let turn = self.accept(count);
        assert(producer@ + self@ =~= old(producer)@ + old(self)@);
        assert(old(producer)@ =~= producer@.take(old(producer)@.len() as int));
        turn
    }
}

} // verus!
