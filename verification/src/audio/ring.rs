//! A ring of samples between one writer and one reader.

use vstd::prelude::*;

use super::{Sample, SILENCE};

verus! {

/// What a ring for `capacity` slots makes of the samples offered to it: how
/// many it takes. One slot always stays free.
pub open spec fn accepted(capacity: nat, held: nat, offered: nat) -> nat {
    let free = capacity - 1 - held;
    if offered <= free {
        offered
    } else if free > 0 {
        free as nat
    } else {
        0
    }
}

/// Whether a ring takes all samples offered to it without waiting.
pub open spec fn fits(capacity: nat, held: nat, offered: nat) -> bool {
    offered == 0 || held + offered < capacity
}

/// How many of the held samples a reader with room for `wanted` gets.
pub open spec fn delivered(held: nat, wanted: nat) -> nat {
    if wanted <= held {
        wanted
    } else {
        held
    }
}

/// A bounded first-in, first-out queue over a fixed block of slots, with a
/// flag by which the writer tells that nothing more will come.
pub struct RingBuffer {
    buf: Vec<Sample>,
    write: usize,
    read: usize,
    finished: bool,
}

impl View for RingBuffer {
    type V = Seq<Sample>;

    /// The samples that wait to be read, oldest first.
    closed spec fn view(&self) -> Seq<Sample> {
        Seq::new(self.held(), |i: int| self.buf@[self.slot(i)])
    }
}

impl RingBuffer {
    /// The number of slots.
    pub closed spec fn capacity(&self) -> nat {
        self.buf@.len()
    }

    /// Whether the writer is done.
    pub closed spec fn finished(&self) -> bool {
        self.finished
    }

    spec fn held(&self) -> nat {
        if self.write >= self.read {
            (self.write - self.read) as nat
        } else {
            (self.write + self.buf@.len() - self.read) as nat
        }
    }

    /// The slot of the `i`-th oldest sample.
    spec fn slot(&self, i: int) -> int {
        if self.read + i < self.buf@.len() {
            self.read + i
        } else {
            self.read + i - self.buf@.len()
        }
    }

    #[verifier::type_invariant]
    spec fn well_formed(&self) -> bool {
        if self.buf@.len() == 0 {
            self.read == 0 && self.write == 0
        } else {
            self.read < self.buf@.len() && self.write < self.buf@.len()
        }
    }

    /// An empty ring with `capacity` slots.
    pub fn new(capacity: usize) -> (ring: Self)
        ensures
            ring@ == Seq::<Sample>::empty(),
            ring.capacity() == capacity,
            !ring.finished(),
    {
        let buf: Vec<Sample> = vec![SILENCE; capacity];
        let ring = RingBuffer { buf, write: 0, read: 0, finished: false };
        assert(ring@ =~= Seq::<Sample>::empty());
        ring
    }

    /// Append all samples, for which there has to be room, and tell how many
    /// that are. A writer whose samples may not fit uses
    /// [`write_some`](Self::write_some) and waits for the reader in between.
    pub fn write(&mut self, input: &[Sample]) -> (written: usize)
        requires
            fits(old(self).capacity(), old(self)@.len(), input@.len()),
        ensures
            written == input@.len(),
            final(self)@ == old(self)@ + input@,
            final(self).capacity() == old(self).capacity(),
            final(self).finished() == old(self).finished(),
    {
        let written = self.write_some(input);
        assert(input@.take(input@.len() as int) =~= input@);
        written
    }

    /// Append samples up to where the writer has to wait for the reader, and
    /// tell how many that are. The rest is to be offered again.
    pub fn write_some(&mut self, input: &[Sample]) -> (written: usize)
        requires
            old(self).capacity() > 0 || input@.len() == 0,
        ensures
            written == accepted(old(self).capacity(), old(self)@.len(), input@.len()),
            final(self)@ == old(self)@ + input@.take(written as int),
            final(self).capacity() == old(self).capacity(),
            final(self).finished() == old(self).finished(),
    {
        proof {
            use_type_invariant(&*self);
        }
        let mut written: usize = 0;
        assert(old(self)@ + input@.take(0) =~= old(self)@);
        while written < input.len()
            invariant
                self.capacity() == old(self).capacity(),
                self.finished() == old(self).finished(),
                self.capacity() > 0 || input@.len() == 0,
                self.well_formed(),
                written <= input@.len(),
                written == 0 || self@.len() < self.capacity(),
                self@ == old(self)@ + input@.take(written as int),
            decreases input@.len() - written,
        {
            let slots: usize = self.buf.len();
            let next: usize = if self.write + 1 == slots {
                0
            } else {
                self.write + 1
            };
            if next == self.read {
                return written;
            }
            let ghost before = *self;
            let slot = self.write;
            self.buf[slot] = input[written];
            self.write = next;
            assert(self@ =~= before@.push(input@[written as int]));
            written = written + 1;
            assert(self@ =~= old(self)@ + input@.take(written as int));
        }
        written
    }

    /// Move the oldest samples to the front of `output`, as many as there are
    /// and as fit, and tell how many that are.
    pub fn read(&mut self, output: &mut [Sample]) -> (count: usize)
        ensures
            count == delivered(old(self)@.len(), old(output)@.len()),
            final(output)@ == old(self)@.take(count as int) + old(output)@.skip(count as int),
            final(self)@ == old(self)@.skip(count as int),
            final(self).capacity() == old(self).capacity(),
            final(self).finished() == old(self).finished(),
    {
        proof {
            use_type_invariant(&*self);
        }
        let mut count: usize = 0;
        let ghost whole = self@;
        assert(output@ =~= whole.take(0) + output@.skip(0));
        assert(self@ =~= whole.skip(0));
        while count < output.len() && self.read != self.write
            invariant
                self.capacity() == old(self).capacity(),
                self.finished() == old(self).finished(),
                self.well_formed(),
                whole == old(self)@,
                count <= whole.len(),
                count <= old(output)@.len(),
                output@.len() == old(output)@.len(),
                output@ == whole.take(count as int) + old(output)@.skip(count as int),
                self@ == whole.skip(count as int),
            decreases old(output)@.len() - count,
        {
            let ghost before = *self;
            let slot = self.read;
            let slots: usize = self.buf.len();
            assert(before@.len() > 0);
            assert(self.buf@[slot as int] == before@[0]);
            assert(before@[0] == whole[count as int]);
            output[count] = self.buf[slot];
            self.read = if slot + 1 == slots {
                0
            } else {
                slot + 1
            };
            assert(self@ =~= before@.drop_first());
            count = count + 1;
            assert(self@ =~= whole.skip(count as int));
            assert(output@ =~= whole.take(count as int) + old(output)@.skip(count as int));
        }
        count
    }

    /// The writer tells that nothing more will come.
    pub fn mark_finished(&mut self)
        ensures
            final(self).finished(),
            final(self)@ == old(self)@,
            final(self).capacity() == old(self).capacity(),
    {
        proof {
            use_type_invariant(&*self);
        }
        self.finished = true;
        assert(self@ =~= old(self)@);
    }

    /// Whether the writer has told so.
    pub fn is_finished(&self) -> (finished: bool)
        ensures
            finished == self.finished(),
    {
        self.finished
    }
}

/// One use of a ring: samples written to it, samples offered to it, or room to
/// read into.
pub enum RingUse {
    Write(Seq<Sample>),
    Offer(Seq<Sample>),
    Read(nat),
}

/// What became of a ring over a sequence of uses.
pub struct RingHistory {
    /// The samples that wait to be read.
    pub held: Seq<Sample>,
    /// All samples that writes took, in order.
    pub taken: Seq<Sample>,
    /// All samples that reads gave out, in order.
    pub given: Seq<Sample>,
}

/// The history of a fresh ring, each use doing what [`RingBuffer::write`],
/// [`RingBuffer::write_some`] and [`RingBuffer::read`] ensure.
pub open spec fn ring_history(capacity: nat, uses: Seq<RingUse>) -> RingHistory
    decreases uses.len(),
{
    if uses.len() == 0 {
        RingHistory { held: Seq::empty(), taken: Seq::empty(), given: Seq::empty() }
    } else {
        let before = ring_history(capacity, uses.drop_last());
        match uses.last() {
            RingUse::Write(input) => RingHistory {
                held: before.held + input,
                taken: before.taken + input,
                given: before.given,
            },
            RingUse::Offer(input) => {
                let taken = input.take(
                    accepted(capacity, before.held.len(), input.len()) as int,
                );
                RingHistory {
                    held: before.held + taken,
                    taken: before.taken + taken,
                    given: before.given,
                }
            },
            RingUse::Read(wanted) => {
                let count = delivered(before.held.len(), wanted) as int;
                RingHistory {
                    held: before.held.skip(count),
                    taken: before.taken,
                    given: before.given + before.held.take(count),
                }
            },
        }
    }
}

/// Reads give back exactly what writes took, in order and without loss: what
/// was given out, followed by what is held, is all that was taken.
pub proof fn law_reads_give_back_writes(capacity: nat, uses: Seq<RingUse>)
    ensures
        ({
            let history = ring_history(capacity, uses);
            history.given + history.held == history.taken
        }),
    decreases uses.len(),
{
    let history = ring_history(capacity, uses);
    if uses.len() == 0 {
        assert(history.given + history.held =~= history.taken);
    } else {
        let before = ring_history(capacity, uses.drop_last());
        law_reads_give_back_writes(capacity, uses.drop_last());
        match uses.last() {
            RingUse::Write(input) => {
                assert(before.given + (before.held + input) =~= before.given + before.held
                    + input);
            },
            RingUse::Offer(input) => {
                let taken = input.take(accepted(capacity, before.held.len(), input.len()) as int);
                assert(before.given + (before.held + taken) =~= before.given + before.held
                    + taken);
            },
            RingUse::Read(wanted) => {
                let count = delivered(before.held.len(), wanted) as int;
                assert(before.given + before.held.take(count) + before.held.skip(count)
                    =~= before.given + before.held);
            },
        }
    }
}

/// At any time all samples that reads gave out are the first of all samples
/// that writes took: none lost, doubled or reordered.
pub proof fn law_reads_are_the_first_writes(capacity: nat, uses: Seq<RingUse>)
    ensures
        ring_history(capacity, uses).given.is_prefix_of(ring_history(capacity, uses).taken),
{
    law_reads_give_back_writes(capacity, uses);
    let history = ring_history(capacity, uses);
    assert(history.given =~= history.taken.take(history.given.len() as int));
}

/// Whether every write of a sequence of uses has room.
pub open spec fn writes_fit(capacity: nat, uses: Seq<RingUse>) -> bool
    decreases uses.len(),
{
    uses.len() == 0 || {
        &&& writes_fit(capacity, uses.drop_last())
        &&& uses.last() matches RingUse::Write(input) ==> fits(
            capacity,
            ring_history(capacity, uses.drop_last()).held.len(),
            input.len(),
        )
    }
}

/// A ring never holds more than one sample less than it has slots.
pub proof fn law_one_slot_stays_free(capacity: nat, uses: Seq<RingUse>)
    requires
        capacity > 0,
        writes_fit(capacity, uses),
    ensures
        ring_history(capacity, uses).held.len() < capacity,
    decreases uses.len(),
{
    if uses.len() > 0 {
        law_one_slot_stays_free(capacity, uses.drop_last());
    }
}

/// Offering samples that fit is writing them, and a writer that waits gets on:
/// as long as a slot is free besides the one that stays free, at least one
/// sample is taken.
pub proof fn law_offers_get_on(capacity: nat, held: nat, offered: nat)
    ensures
        fits(capacity, held, offered) ==> accepted(capacity, held, offered) == offered,
        offered > 0 && held + 1 < capacity ==> accepted(capacity, held, offered) > 0,
{
}

/// A ring takes no more than it is offered and than it has room for beside the
/// slot that stays free, and stops only where there is no more room.
pub proof fn law_offers_stop_at_the_last_slot(capacity: nat, held: nat, offered: nat)
    ensures
        accepted(capacity, held, offered) <= offered,
        accepted(capacity, held, offered) > 0 ==> held + accepted(capacity, held, offered)
            < capacity,
        accepted(capacity, held, offered) < offered ==> held + accepted(capacity, held, offered) + 1
            >= capacity,
{
}

/// A reader gets no more than it has room for and than is held, and stops only
/// where it has no more room or nothing is held.
pub proof fn law_reads_stop_when_empty(held: nat, wanted: nat)
    ensures
        delivered(held, wanted) <= held,
        delivered(held, wanted) <= wanted,
        delivered(held, wanted) == held || delivered(held, wanted) == wanted,
{
}

/// Samples fit if there are none, or if a slot stays free beside them.
pub proof fn law_fitting_leaves_a_slot(capacity: nat, held: nat, offered: nat)
    ensures
        offered == 0 ==> fits(capacity, held, offered),
        held + offered + 1 <= capacity ==> fits(capacity, held, offered),
        fits(capacity, held, offered) && offered > 0 ==> held + offered + 1 <= capacity,
{
}

} // verus!
