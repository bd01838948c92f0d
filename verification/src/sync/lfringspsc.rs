//! Single-producer / single-consumer bounded ring.
//!
//! A region holds two sequence counters and `R` value slots. The counters
//! step modulo `R` and double as slot indices: the producer writes slot
//! `(write_done + 1) % R`, the consumer reads slot `(read_done + 1) % R`.
//! One slot between the counters stays reserved to tell an empty ring
//! from a full one, so the effective capacity is `R - 1`. The producer
//! never overwrites an unread slot and the consumer never rereads one:
//! the ring is an exact FIFO with no loss and no reordering.

use crate::error::GtsTransportError;
use crate::modmath::{lemma_mod_ne_in_window, lemma_mod_step, lemma_mod_zero_in_window};
use vstd::prelude::*;

verus! {

/// The ring region: the consumer's counter, the producer's counter and
/// the slot array, together with the (ghost) sequence of all values
/// accepted by `send` and the (ghost) count of values received.
pub struct SpScRingData<T> {
    pub read_done_seqnum: u32,
    pub write_done_seqnum: u32,
    pub data: Vec<Option<T>>,
    pub sent: Ghost<Seq<T>>,
    pub taken: Ghost<nat>,
}

impl<T: Copy> SpScRingData<T> {
    /// The slot count `R`.
    pub open spec fn ring_size(&self) -> nat {
        self.data@.len()
    }

    /// Every value accepted by `send`, oldest first.
    pub open spec fn sent_seq(&self) -> Seq<T> {
        self.sent@
    }

    /// How many of those values the consumer has received.
    pub open spec fn taken_count(&self) -> nat {
        self.taken@
    }

    /// How many sent values still wait in the ring.
    pub open spec fn pending(&self) -> nat {
        (self.sent@.len() - self.taken@) as nat
    }

    /// The counters mirror the ghost counts modulo `R`, at most `R - 1`
    /// values are pending, and each pending value sits in its slot.
    pub open spec fn wf(&self) -> bool {
        let r = self.ring_size() as int;
        &&& 2 <= r <= u32::MAX
        &&& self.taken@ <= self.sent@.len()
        &&& self.sent@.len() - self.taken@ < r
        &&& self.read_done_seqnum as int == self.taken@ as int % r
        &&& self.write_done_seqnum as int == self.sent@.len() as int % r
        &&& forall|k: int|
            self.taken@ <= k < self.sent@.len() ==> self.data@[(k + 1) % r] == Some(
                #[trigger] self.sent@[k],
            )
    }

    /// Nothing sent, nothing received.
    pub open spec fn is_fresh(&self) -> bool {
        self.sent@.len() == 0 && self.taken@ == 0
    }

    /// Whether the ring has room for one more value.
    pub open spec fn has_room(&self) -> bool {
        self.pending() < self.ring_size() - 1
    }

    /// A zeroed ring of `rsize` slots.
    pub fn new(rsize: usize) -> (r: Self)
        requires
            2 <= rsize <= u32::MAX,
        ensures
            r.wf(),
            r.is_fresh(),
            r.ring_size() == rsize,
    {
        let mut data: Vec<Option<T>> = Vec::new();
        let mut i: usize = 0;
        while i < rsize
            invariant
                i <= rsize,
                data@.len() == i,
            decreases rsize - i,
        {
            data.push(None);
            i += 1;
        }
        SpScRingData {
            read_done_seqnum: 0,
            write_done_seqnum: 0,
            data,
            sent: Ghost(Seq::empty()),
            taken: Ghost(0),
        }
    }
}

/// The unique producer endpoint of a ring.
pub struct SpScRingSender {
    last_send_seqnum: u32,
}

impl SpScRingSender {
    /// The producer's counter agrees with the count of sent values.
    pub closed spec fn wf<T: Copy>(&self, region: SpScRingData<T>) -> bool {
        self.last_send_seqnum as int == region.sent@.len() as int % (region.ring_size() as int)
    }

    /// A producer for a fresh ring.
    pub fn new<T: Copy>(region: &SpScRingData<T>) -> (r: Self)
        requires
            region.wf(),
            region.is_fresh(),
        ensures
            r.wf(*region),
    {
        proof {
            vstd::arithmetic::div_mod::lemma_small_mod(0nat, region.ring_size());
        }
        SpScRingSender { last_send_seqnum: 0 }
    }

    /// Append one value to the ring. Succeeds exactly when a slot is
    /// free, that is while fewer than `R - 1` sent values are pending;
    /// on a full ring it reports `WouldBlock` and changes nothing.
    pub fn send<T: Copy>(&mut self, region: &mut SpScRingData<T>, new_data: &T) -> (r: Result<
        (),
        GtsTransportError,
    >)
        requires
            old(region).wf(),
            old(self).wf(*old(region)),
        ensures
            final(region).wf(),
            final(self).wf(*final(region)),
            final(region).ring_size() == old(region).ring_size(),
            final(region).taken_count() == old(region).taken_count(),
            old(region).has_room() ==> r is Ok && final(region).sent_seq() == old(
                region,
            ).sent_seq().push(*new_data),
            !old(region).has_room() ==> r == Err::<(), GtsTransportError>(
                GtsTransportError::WouldBlock,
            ) && *final(region) == *old(region) && *final(self) == *old(self),
    {
        let ghost r_int = region.ring_size() as int;
        let ghost len0 = region.sent@.len() as int;
        let ghost taken0 = region.taken@ as int;
        let rsize: u32 = region.data.len() as u32;
        let next_seqnum = (self.last_send_seqnum + 1) % rsize;
        proof {
            lemma_mod_step(len0, r_int);
        }
        let read_seqnum = region.read_done_seqnum;
        if read_seqnum == next_seqnum {
            proof {
                vstd::arithmetic::div_mod::lemma_mod_equivalence(len0 + 1, taken0, r_int);
                lemma_mod_zero_in_window(len0 + 1 - taken0, r_int);
            }
            return Err(GtsTransportError::WouldBlock);
        }
        proof {
            vstd::arithmetic::div_mod::lemma_mod_equivalence(len0 + 1, taken0, r_int);
            lemma_mod_zero_in_window(len0 + 1 - taken0, r_int);
        }
        self.last_send_seqnum = next_seqnum;
        region.data[next_seqnum as usize] = Some(*new_data);
        region.write_done_seqnum = next_seqnum;
        proof {
            region.sent = Ghost(region.sent@.push(*new_data));
            assert forall|k: int| taken0 <= k < len0 + 1 implies region.data@[(k + 1) % r_int]
                == Some(region.sent@[k]) by {
                if k < len0 {
                    lemma_mod_ne_in_window(k + 1, len0 + 1, r_int);
                }
            }
        }
        Ok(())
    }
}

/// The unique consumer endpoint of a ring. It keeps a private copy of the
/// last received value and the (ghost) sequence of everything received.
pub struct SpScRingReceiver<T> {
    last_read_seqnum: Option<u32>,
    last_copy: Option<T>,
    got: Ghost<Seq<T>>,
}

impl<T: Copy> SpScRingReceiver<T> {
    /// Every value this consumer has received, oldest first.
    pub closed spec fn received(&self) -> Seq<T> {
        self.got@
    }

    /// The consumer's copy of the last received value.
    pub closed spec fn spec_last_value(&self) -> Option<T> {
        if self.last_read_seqnum is Some {
            self.last_copy
        } else {
            None
        }
    }

    /// The received values are exactly the first `taken` sent values, and
    /// the consumer's copy is the most recent of them.
    pub closed spec fn wf(&self, region: SpScRingData<T>) -> bool {
        &&& self.got@ == region.sent@.subrange(0, region.taken@ as int)
        &&& match self.last_read_seqnum {
            Some(t) => region.taken@ > 0 && t as int == region.taken@ as int % (
            region.ring_size() as int) && self.last_copy == Some(
                region.sent@[region.taken@ as int - 1],
            ),
            None => region.taken@ == 0,
        }
    }

    /// A consumer for a fresh ring.
    pub fn new(region: &SpScRingData<T>) -> (r: Self)
        requires
            region.wf(),
            region.is_fresh(),
        ensures
            r.wf(*region),
            r.received() == Seq::<T>::empty(),
    {
        let r = SpScRingReceiver { last_read_seqnum: None, last_copy: None, got: Ghost(Seq::empty()) };
        proof {
            assert(r.got@ =~= region.sent@.subrange(0, region.taken@ as int));
        }
        r
    }

    /// The last received value, if any; overwritten by the next
    /// successful receive.
    pub fn get_last_value(&self) -> (r: Option<T>)
        ensures
            r == self.spec_last_value(),
    {
        match self.last_read_seqnum {
            Some(_) => self.last_copy,
            None => None,
        }
    }

    /// Receive the oldest pending value. Succeeds exactly when a value is
    /// pending; on an empty ring it reports `WouldBlock` and changes
    /// nothing.
    pub fn try_recv(&mut self, region: &mut SpScRingData<T>) -> (r: Result<T, GtsTransportError>)
        requires
            old(region).wf(),
            old(self).wf(*old(region)),
        ensures
            final(region).wf(),
            final(self).wf(*final(region)),
            final(region).sent_seq() == old(region).sent_seq(),
            final(region).ring_size() == old(region).ring_size(),
            old(region).pending() == 0 ==> r == Err::<T, GtsTransportError>(
                GtsTransportError::WouldBlock,
            ) && *final(region) == *old(region) && *final(self) == *old(self),
            old(region).pending() > 0 ==> {
                &&& r is Ok
                &&& r->Ok_0 == old(region).sent_seq()[old(region).taken_count() as int]
                &&& final(region).taken_count() == old(region).taken_count() + 1
                &&& final(self).received() == old(self).received().push(r->Ok_0)
                &&& final(self).spec_last_value() == Some(r->Ok_0)
            },
    {
        let ghost r_int = region.ring_size() as int;
        let ghost len0 = region.sent@.len() as int;
        let ghost taken0 = region.taken@ as int;
        let rsize: u32 = region.data.len() as u32;
        let send_seqnum = region.write_done_seqnum;
        let read_seqnum = region.read_done_seqnum;
        proof {
            assert(rsize as int == r_int);
            vstd::arithmetic::div_mod::lemma_mod_equivalence(len0, taken0, r_int);
            vstd::arithmetic::div_mod::lemma_small_mod((len0 - taken0) as nat, r_int as nat);
        }
        if send_seqnum == read_seqnum {
            return Err(GtsTransportError::WouldBlock);
        }
        let next_read = (read_seqnum + 1) % rsize;
        proof {
            lemma_mod_step(taken0, r_int);
            assert(region.data@[(taken0 + 1) % r_int] == Some(region.sent@[taken0]));
        }
        let value_opt: Option<T> = region.data[next_read as usize];
        let value = value_opt.unwrap();
        self.last_copy = Some(value);
        region.read_done_seqnum = next_read;
        self.last_read_seqnum = Some(next_read);
        proof {
            region.taken = Ghost((taken0 + 1) as nat);
            self.got = Ghost(self.got@.push(value));
            assert(self.got@ =~= region.sent@.subrange(0, taken0 + 1));
        }
        Ok(value)
    }
}

/// The producer and the consumer of a fresh ring.
pub fn spsc_ring_pair<T: Copy>(region: &SpScRingData<T>) -> (r: (
    SpScRingSender,
    SpScRingReceiver<T>,
))
    requires
        region.wf(),
        region.is_fresh(),
    ensures
        r.0.wf(*region),
        r.1.wf(*region),
        r.1.received() == Seq::<T>::empty(),
{
    (SpScRingSender::new(region), SpScRingReceiver::new(region))
}

/// The producer's view of the ring depends only on the sent count and
/// the ring size, so receives do not disturb it.
pub proof fn lemma_sender_wf_preserved<T: Copy>(
    tx: SpScRingSender,
    before: SpScRingData<T>,
    after: SpScRingData<T>,
)
    requires
        tx.wf(before),
        after.sent_seq().len() == before.sent_seq().len(),
        after.ring_size() == before.ring_size(),
    ensures
        tx.wf(after),
{
}

/// The consumer's view of the ring depends only on the received prefix,
/// so sends do not disturb it.
pub proof fn lemma_receiver_wf_after_send<T: Copy>(
    rx: SpScRingReceiver<T>,
    before: SpScRingData<T>,
    after: SpScRingData<T>,
)
    requires
        rx.wf(before),
        before.taken_count() <= before.sent_seq().len(),
        after.taken_count() == before.taken_count(),
        after.ring_size() == before.ring_size(),
        before.sent_seq().is_prefix_of(after.sent_seq()),
    ensures
        rx.wf(after),
{
    assert(after.sent_seq().subrange(0, before.taken_count() as int) =~= before.sent_seq().subrange(
        0,
        before.taken_count() as int,
    ));
    if before.taken_count() > 0 {
        assert(after.sent_seq()[before.taken_count() as int - 1] == after.sent_seq().subrange(
            0,
            before.sent_seq().len() as int,
        )[before.taken_count() as int - 1]);
    }
}

/// FIFO delivery: whatever the interleaving of sends and receives, the
/// values received are exactly the first `taken` values sent, in sending
/// order; none is lost and none is reordered.
pub proof fn lemma_spsc_fifo<T: Copy>(rx: SpScRingReceiver<T>, region: SpScRingData<T>)
    requires
        region.wf(),
        rx.wf(region),
    ensures
        rx.received().len() == region.taken_count(),
        forall|k: int|
            0 <= k < region.taken_count() ==> rx.received()[k] == #[trigger] region.sent_seq()[k],
{
}

/// Capacity: with `R - 1` values pending the ring refuses the next send;
/// one receive frees exactly one slot, so exactly one further send
/// succeeds before the ring is full again.
pub proof fn lemma_spsc_capacity<T: Copy>(region: SpScRingData<T>)
    requires
        region.wf(),
    ensures
        region.pending() == region.ring_size() - 1 <==> !region.has_room(),
        region.pending() > 0 ==> ((region.pending() - 1) as nat) < region.ring_size() - 1,
{
}

} // verus!
