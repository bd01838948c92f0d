//! Single-producer / multi-consumer latest-value register.
//!
//! A region holds one *info* channel and `n` *slot* channels. Each channel
//! frames its value between two sequence counters, `begin` and `end`: a
//! publication advances `begin` to a fresh tag, writes the value, then
//! advances `end` to the same tag. A reader snapshots `end`, the value and
//! `begin`, in that order, and accepts the value only when both counters
//! carry the same tag; mismatched counters are a torn read. The lowest 24
//! bits of a tag are a rolling counter, bit 24 is the GOOD bit, set on
//! every published tag, so an all-zero counter means "never written".
//!
//! The register keeps only the most recent value per channel: readers may
//! skip values under producer pressure, but every value they accept was at
//! some point completely published.

use crate::error::GtsTransportError;
use crate::modmath::{lemma_mod_ne_in_window, lemma_mod_step};
use vstd::prelude::*;

verus! {

/// Modulus of the rolling part of a sequence tag.
pub const VALUE_BITS: u32 = 0x100_0000;

/// Bit set on every published tag; clear only on a never-written channel.
pub const GOOD_BIT: u32 = 0x100_0000;

/// Retry bound of the `*_multi` receive helpers.
pub const MAX_ITER_TILL_HANG: usize = 1000;

/// The tag carried by a channel's counters after `n` publications
/// (`n >= 1`): the rolling counter `n % 2^24` with the GOOD bit set.
pub open spec fn spec_tag(n: nat) -> u32 {
    ((n % (VALUE_BITS as nat)) + (GOOD_BIT as nat)) as u32
}

/// The value of a settled framing counter after `n` publications:
/// zero before the first one, the tag of the latest one after that.
pub open spec fn spec_counter(n: nat) -> u32 {
    if n == 0 {
        0u32
    } else {
        spec_tag(n)
    }
}

/// Tags always carry the GOOD bit and fit below bit 25.
pub proof fn lemma_tag_bounds(n: nat)
    ensures
        GOOD_BIT <= spec_tag(n) < 0x200_0000,
{
}

/// Consecutive publication counts never share a tag, and a tag never
/// equals the counter of a channel published one time fewer.
pub proof fn lemma_tag_succ(n: nat)
    ensures
        spec_tag(n + 1) != spec_tag(n),
        spec_tag(n + 1) != spec_counter(n),
{
    lemma_mod_ne_in_window(n as int, n as int + 1, VALUE_BITS as int);
}

/// One channel of the register: two framing counters around one value,
/// together with the (ghost) sequence of all values published so far.
pub struct SubSpMcData<T> {
    begin: u32,
    end: u32,
    data: Option<T>,
    published: Ghost<Seq<T>>,
}

impl<T: Copy> SubSpMcData<T> {
    /// All values published to this channel, oldest first.
    pub closed spec fn hist(&self) -> Seq<T> {
        self.published@
    }

    /// The value currently staged in the channel's data field.
    pub closed spec fn staged(&self) -> Option<T> {
        self.data
    }

    /// The tag of the latest publication.
    pub open spec fn cur_tag(&self) -> u32 {
        spec_tag(self.hist().len())
    }

    /// No publication is in flight: both counters are settled on the
    /// latest publication, and the data field holds its value.
    pub closed spec fn is_stable(&self) -> bool {
        &&& self.begin == spec_counter(self.hist().len())
        &&& self.end == spec_counter(self.hist().len())
        &&& self.hist().len() > 0 ==> self.data == Some(self.hist().last())
    }

    /// A publication is in flight: `begin` already carries the next tag
    /// while `end` still carries the previous counter.
    pub closed spec fn is_inflight(&self) -> bool {
        &&& self.begin == spec_tag(self.hist().len() + 1)
        &&& self.end == spec_counter(self.hist().len())
    }

    /// Every reachable channel state is settled or mid-publication.
    pub open spec fn wf(&self) -> bool {
        self.is_stable() || self.is_inflight()
    }

    /// A channel is never settled and mid-publication at once.
    pub proof fn lemma_states_disjoint(&self)
        ensures
            !(self.is_stable() && self.is_inflight()),
    {
        if self.is_stable() && self.is_inflight() {
            lemma_tag_succ(self.hist().len());
        }
    }

    /// A fresh channel: counters zero, nothing published.
    pub fn new() -> (r: Self)
        ensures
            r.is_stable(),
            r.hist() == Seq::<T>::empty(),
            r.staged() is None,
    {
        SubSpMcData { begin: 0, end: 0, data: None, published: Ghost(Seq::empty()) }
    }

    /// First step of a publication: advance the rolling counter held by
    /// the producer and store the fresh tag into `begin`.
    pub fn publish_begin(&mut self, seqnum: &mut u32)
        requires
            old(self).is_stable(),
            *old(seqnum) as nat == old(self).hist().len() % (VALUE_BITS as nat),
        ensures
            final(self).is_inflight(),
            final(self).hist() == old(self).hist(),
            final(self).staged() == old(self).staged(),
            *final(seqnum) as nat == (old(self).hist().len() + 1) % (VALUE_BITS as nat),
    {
        proof {
            lemma_mod_step(self.hist().len() as int, VALUE_BITS as int);
        }
        *seqnum = (*seqnum + 1) % VALUE_BITS;
        let tag = *seqnum | GOOD_BIT;
        proof {
            let s = *seqnum;
            assert(s | 0x100_0000u32 == s + 0x100_0000) by (bit_vector)
                requires
                    s < 0x100_0000u32,
            ;
        }
        self.begin = tag;
    }

    /// Second step of a publication: stage the new value.
    pub fn publish_data(&mut self, new_data: &T)
        requires
            old(self).is_inflight(),
        ensures
            final(self).is_inflight(),
            final(self).hist() == old(self).hist(),
            final(self).staged() == Some(*new_data),
    {
        self.data = Some(*new_data);
    }

    /// Last step of a publication: settle `end` on the fresh tag. The
    /// staged value becomes the latest published one.
    pub fn publish_end(&mut self)
        requires
            old(self).is_inflight(),
            old(self).staged() is Some,
        ensures
            final(self).is_stable(),
            final(self).hist() == old(self).hist().push(old(self).staged().unwrap()),
            final(self).staged() == old(self).staged(),
    {
        self.end = self.begin;
        proof {
            self.published = Ghost(self.published@.push(self.data.unwrap()));
        }
    }

    /// A complete publication: begin, stage, settle.
    pub fn publish(&mut self, seqnum: &mut u32, new_data: &T)
        requires
            old(self).is_stable(),
            *old(seqnum) as nat == old(self).hist().len() % (VALUE_BITS as nat),
        ensures
            final(self).is_stable(),
            final(self).hist() == old(self).hist().push(*new_data),
            *final(seqnum) as nat == final(self).hist().len() % (VALUE_BITS as nat),
    {
        self.publish_begin(seqnum);
        self.publish_data(new_data);
        self.publish_end();
    }
}

/// What one receive attempt returns, as a function of the channel state
/// and of the tag the consumer last accepted:
/// a torn read when a publication is in flight; `Unitialized` when the
/// channel was never written; `WouldBlock` when the latest tag was
/// already seen; the latest published value otherwise.
pub open spec fn spec_recv<T: Copy>(ch: SubSpMcData<T>, last_seen: Option<u32>) -> Result<
    T,
    GtsTransportError,
> {
    if !ch.is_stable() {
        Err(GtsTransportError::Inconsistent)
    } else if ch.hist().len() == 0 {
        Err(GtsTransportError::Unitialized)
    } else if last_seen == Some(ch.cur_tag()) {
        Err(GtsTransportError::WouldBlock)
    } else {
        Ok(ch.hist().last())
    }
}

impl<T: Copy> SubSpMcData<T> {
    /// One receive attempt against this channel. `last_seen` and
    /// `lastcopy` are the consumer's private state: the tag it last
    /// accepted and its local copy of that value. A torn read clears
    /// `last_seen`; a success overwrites both.
    pub fn poll(&self, last_seen: &mut Option<u32>, lastcopy: &mut Option<T>) -> (r: Result<
        T,
        GtsTransportError,
    >)
        requires
            self.wf(),
        ensures
            r == spec_recv(*self, *old(last_seen)),
            r is Ok ==> *final(last_seen) == Some(self.cur_tag()) && *final(lastcopy) == Some(
                self.hist().last(),
            ),
            (r is Err && r->Err_0 is Inconsistent) ==> *final(last_seen) is None && *final(lastcopy)
                == *old(lastcopy),
            (r is Err && !(r->Err_0 is Inconsistent)) ==> *final(last_seen) == *old(last_seen)
                && *final(lastcopy) == *old(lastcopy),
    {
        let end = self.end;
        let data_copy = self.data;
        let begin = self.begin;

        if begin != end {
            *last_seen = None;
            return Err(GtsTransportError::Inconsistent);
        }
        proof {
            self.lemma_states_disjoint();
            if self.is_inflight() {
                lemma_tag_succ(self.hist().len());
            }
        }

        if begin & GOOD_BIT == 0 {
            proof {
                let b = begin;
                assert(!(0x100_0000u32 <= b < 0x200_0000)) by (bit_vector)
                    requires
                        b & 0x100_0000u32 == 0,
                ;
                lemma_tag_bounds(self.hist().len());
            }
            return Err(GtsTransportError::Unitialized);
        }
        proof {
            let b = begin;
            assert(b & 0x100_0000u32 != 0 ==> b != 0) by (bit_vector);
            lemma_tag_bounds(self.hist().len());
        }

        let same = match *last_seen {
            Some(t) => t == begin,
            None => false,
        };
        if same {
            return Err(GtsTransportError::WouldBlock);
        }

        *lastcopy = data_copy;
        *last_seen = Some(begin);
        Ok(data_copy.unwrap())
    }
}

/// The whole register region: one info channel and `n` slot channels,
/// each with independent framing counters.
pub struct SpMcData<InfoT, T> {
    pub info: SubSpMcData<InfoT>,
    pub slots: Vec<SubSpMcData<T>>,
}

impl<InfoT: Copy, T: Copy> SpMcData<InfoT, T> {
    pub open spec fn n_slots(&self) -> nat {
        self.slots@.len()
    }

    pub open spec fn wf(&self) -> bool {
        &&& self.info.wf()
        &&& forall|i: int| 0 <= i < self.slots@.len() ==> (#[trigger] self.slots@[i]).wf()
    }

    /// A region in its zeroed, never-written state.
    pub open spec fn is_fresh(&self) -> bool {
        &&& self.info.is_stable()
        &&& self.info.hist().len() == 0
        &&& forall|i: int|
            0 <= i < self.slots@.len() ==> (#[trigger] self.slots@[i]).is_stable()
                && self.slots@[i].hist().len() == 0
    }

    /// A zeroed region with `n` slot channels.
    pub fn new(n: usize) -> (r: Self)
        ensures
            r.is_fresh(),
            r.wf(),
            r.n_slots() == n,
    {
        let mut slots: Vec<SubSpMcData<T>> = Vec::new();
        let mut i: usize = 0;
        while i < n
            invariant
                i <= n,
                slots@.len() == i,
                forall|j: int|
                    0 <= j < i ==> (#[trigger] slots@[j]).is_stable() && slots@[j].hist().len()
                        == 0,
            decreases n - i,
        {
            slots.push(SubSpMcData::new());
            i += 1;
        }
        SpMcData { info: SubSpMcData::new(), slots }
    }
}

/// The unique producer endpoint of a register region. It holds the
/// rolling counters of every channel; the region is handed to each call.
pub struct SpMcSender {
    seqnum: u32,
    seqnum_slot: Vec<u32>,
}

impl SpMcSender {
    /// The sender's counters agree with the region's publication counts,
    /// and no publication is in flight.
    pub closed spec fn wf<InfoT: Copy, T: Copy>(&self, region: SpMcData<InfoT, T>) -> bool {
        &&& region.info.is_stable()
        &&& self.seqnum as nat == region.info.hist().len() % (VALUE_BITS as nat)
        &&& self.seqnum_slot@.len() == region.slots@.len()
        &&& forall|i: int|
            0 <= i < region.slots@.len() ==> (#[trigger] region.slots@[i]).is_stable()
                && self.seqnum_slot@[i] as nat == region.slots@[i].hist().len() % (
            VALUE_BITS as nat)
    }

    /// A producer for a fresh region.
    pub fn new<InfoT: Copy, T: Copy>(region: &SpMcData<InfoT, T>) -> (r: Self)
        requires
            region.is_fresh(),
        ensures
            r.wf(*region),
    {
        let n = region.slots.len();
        let mut seqnum_slot: Vec<u32> = Vec::new();
        let mut i: usize = 0;
        while i < n
            invariant
                i <= n,
                seqnum_slot@.len() == i,
                forall|j: int| 0 <= j < i ==> seqnum_slot@[j] == 0u32,
            decreases n - i,
        {
            seqnum_slot.push(0);
            i += 1;
        }
        SpMcSender { seqnum: 0, seqnum_slot }
    }

    /// Publish a new value on the info channel. Publication cannot fail.
    pub fn send_info<InfoT: Copy, T: Copy>(
        &mut self,
        region: &mut SpMcData<InfoT, T>,
        new_data: &InfoT,
    ) -> (r: Result<(), GtsTransportError>)
        requires
            old(self).wf(*old(region)),
        ensures
            final(self).wf(*final(region)),
            r is Ok,
            final(region).info.hist() == old(region).info.hist().push(*new_data),
            final(region).info.is_stable(),
            final(region).slots == old(region).slots,
    {
        region.info.publish(&mut self.seqnum, new_data);
        Ok(())
    }

    /// Publish a new value on slot `idx`. Publication cannot fail.
    pub fn send_slot<InfoT: Copy, T: Copy>(
        &mut self,
        region: &mut SpMcData<InfoT, T>,
        idx: usize,
        new_data: &T,
    ) -> (r: Result<(), GtsTransportError>)
        requires
            old(self).wf(*old(region)),
            idx < old(region).n_slots(),
        ensures
            final(self).wf(*final(region)),
            r is Ok,
            final(region).info == old(region).info,
            final(region).slots@.len() == old(region).slots@.len(),
            final(region).slots@[idx as int].hist() == old(region).slots@[idx as int].hist().push(
                *new_data,
            ),
            final(region).slots@[idx as int].is_stable(),
            forall|i: int|
                0 <= i < old(region).slots@.len() && i != idx ==> final(region).slots@[i] == old(region).slots@[i],
    {
        let mut s: u32 = self.seqnum_slot[idx];
        let ch = &mut region.slots[idx];
        ch.publish(&mut s, new_data);
        self.seqnum_slot[idx] = s;
        Ok(())
    }
}

/// Coherence of one consumer channel record with the channel itself:
/// if a tag was accepted, it is the tag of publication number `idx`, and
/// the consumer's copy holds that publication's value.
pub open spec fn channel_coherent<T: Copy>(
    ch: SubSpMcData<T>,
    seen: Option<u32>,
    idx: nat,
    cached: Option<T>,
) -> bool {
    seen is Some ==> {
        &&& 1 <= idx <= ch.hist().len()
        &&& seen == Some(spec_tag(idx))
        &&& cached == Some(ch.hist()[idx as int - 1])
    }
}

/// A consumer endpoint of a register region. Each consumer keeps, per
/// channel, the tag it last accepted and a private copy of that value;
/// consumers never write to the region and are independent of each other.
pub struct SpMcReceiver<InfoT, T> {
    last_read_success_info: Option<u32>,
    last_read_success_slot: Vec<Option<u32>>,
    lastcopy_info: Option<InfoT>,
    lastcopy_slot: Vec<Option<T>>,
    info_idx: Ghost<nat>,
    slot_idx: Ghost<Seq<nat>>,
}

impl<InfoT: Copy, T: Copy> SpMcReceiver<InfoT, T> {
    /// The tag last accepted on the info channel, if any.
    pub closed spec fn seen_info(&self) -> Option<u32> {
        self.last_read_success_info
    }

    /// The consumer's copy of the last accepted info value.
    pub closed spec fn cached_info(&self) -> Option<InfoT> {
        self.lastcopy_info
    }

    /// The publication number of the last accepted info value.
    pub closed spec fn info_index(&self) -> nat {
        self.info_idx@
    }

    /// The tag last accepted on slot `i`, if any.
    pub closed spec fn seen_slot(&self, i: int) -> Option<u32> {
        self.last_read_success_slot@[i]
    }

    /// The consumer's copy of the last accepted value of slot `i`.
    pub closed spec fn cached_slot(&self, i: int) -> Option<T> {
        self.lastcopy_slot@[i]
    }

    /// The publication number of the last accepted value of slot `i`.
    pub closed spec fn slot_index(&self, i: int) -> nat {
        self.slot_idx@[i]
    }

    pub closed spec fn n_slots(&self) -> nat {
        self.last_read_success_slot@.len()
    }

    /// The consumer's three per-slot records cover the same slots.
    pub closed spec fn lens_ok(&self) -> bool {
        &&& self.lastcopy_slot@.len() == self.last_read_success_slot@.len()
        &&& self.slot_idx@.len() == self.last_read_success_slot@.len()
    }

    /// Coherence with any region keeps the per-slot records aligned.
    pub proof fn lemma_wf_lens(&self, region: SpMcData<InfoT, T>)
        requires
            self.wf(region),
        ensures
            self.lens_ok(),
            self.n_slots() == region.n_slots(),
    {
    }

    /// The consumer's records agree with the region's channels.
    pub closed spec fn wf(&self, region: SpMcData<InfoT, T>) -> bool {
        &&& self.last_read_success_slot@.len() == region.slots@.len()
        &&& self.lastcopy_slot@.len() == region.slots@.len()
        &&& self.slot_idx@.len() == region.slots@.len()
        &&& channel_coherent(
            region.info,
            self.last_read_success_info,
            self.info_idx@,
            self.lastcopy_info,
        )
        &&& forall|i: int|
            0 <= i < region.slots@.len() ==> channel_coherent(
                #[trigger] region.slots@[i],
                self.last_read_success_slot@[i],
                self.slot_idx@[i],
                self.lastcopy_slot@[i],
            )
    }

    /// A consumer that has accepted nothing yet, sized for `n` slots.
    pub closed spec fn is_reset(&self, n: nat) -> bool {
        &&& self.last_read_success_slot@.len() == n
        &&& self.lastcopy_slot@.len() == n
        &&& self.slot_idx@.len() == n
        &&& self.last_read_success_info is None
        &&& forall|i: int| 0 <= i < n ==> self.seen_slot(i) is None
    }

    /// What a reset consumer looks like from outside: sized for `n`
    /// slots, with no accepted tag on any channel.
    pub proof fn lemma_reset_state(&self, n: nat)
        requires
            self.is_reset(n),
        ensures
            self.n_slots() == n,
            self.lens_ok(),
            self.seen_info() is None,
            forall|i: int| 0 <= i < n ==> self.seen_slot(i) is None,
    {
    }

    /// A consumer that has accepted nothing is coherent with any region
    /// of the same slot count.
    pub proof fn lemma_reset_wf(&self, region: SpMcData<InfoT, T>)
        requires
            self.is_reset(region.slots@.len()),
        ensures
            self.wf(region),
    {
        assert forall|i: int| 0 <= i < region.slots@.len() implies channel_coherent(
            #[trigger] region.slots@[i],
            self.last_read_success_slot@[i],
            self.slot_idx@[i],
            self.lastcopy_slot@[i],
        ) by {
            assert(self.seen_slot(i) is None);
        }
    }

    /// A fresh consumer for a region; the region may be in any state.
    pub fn new(region: &SpMcData<InfoT, T>) -> (r: Self)
        ensures
            r.is_reset(region.n_slots()),
            r.wf(*region),
            r.seen_info() is None,
            r.n_slots() == region.n_slots(),
    {
        let n = region.slots.len();
        let mut seen: Vec<Option<u32>> = Vec::new();
        let mut copies: Vec<Option<T>> = Vec::new();
        let mut i: usize = 0;
        while i < n
            invariant
                i <= n,
                seen@.len() == i,
                copies@.len() == i,
                forall|j: int| 0 <= j < i ==> seen@[j] is None,
            decreases n - i,
        {
            seen.push(None);
            copies.push(None);
            i += 1;
        }
        let r = SpMcReceiver {
            last_read_success_info: None,
            last_read_success_slot: seen,
            lastcopy_info: None,
            lastcopy_slot: copies,
            info_idx: Ghost(0),
            slot_idx: Ghost(Seq::new(n as nat, |i: int| 0nat)),
        };
        proof {
            r.lemma_reset_wf(*region);
        }
        r
    }

    /// The last accepted info value, if any; invalidated by the next
    /// successful receive on the info channel.
    pub fn get_last_info(&self) -> (r: Option<InfoT>)
        ensures
            r == (if self.seen_info() is Some {
                self.cached_info()
            } else {
                None::<InfoT>
            }),
    {
        match self.last_read_success_info {
            Some(_) => self.lastcopy_info,
            None => None,
        }
    }

    /// The last accepted value of slot `idx`, if any.
    pub fn get_last_slot(&self, idx: usize) -> (r: Option<T>)
        requires
            self.lens_ok(),
            idx < self.n_slots(),
        ensures
            r == (if self.seen_slot(idx as int) is Some {
                self.cached_slot(idx as int)
            } else {
                None::<T>
            }),
    {
        match self.last_read_success_slot[idx] {
            Some(_) => self.lastcopy_slot[idx],
            None => None,
        }
    }

    /// One receive attempt on the info channel. On success the returned
    /// value is the latest completely published one, and it belongs to a
    /// strictly later publication than any value accepted before.
    pub fn try_recv_info(&mut self, region: &SpMcData<InfoT, T>) -> (r: Result<
        InfoT,
        GtsTransportError,
    >)
        requires
            region.wf(),
            old(self).wf(*region),
        ensures
            final(self).wf(*region),
            r == spec_recv(region.info, old(self).seen_info()),
            final(self).n_slots() == old(self).n_slots(),
            forall|i: int|
                0 <= i < old(self).n_slots() ==> final(self).seen_slot(i) == old(self).seen_slot(i)
                    && final(self).cached_slot(i) == old(self).cached_slot(i) && final(self).slot_index(i) == old(self).slot_index(i),
            r is Ok ==> {
                &&& final(self).seen_info() == Some(region.info.cur_tag())
                &&& final(self).cached_info() == Some(region.info.hist().last())
                &&& final(self).info_index() == region.info.hist().len()
                &&& (old(self).seen_info() is Some ==> old(self).info_index() < region.info.hist().len())
            },
            (r is Err && r->Err_0 is Inconsistent) ==> final(self).seen_info() is None && final(self).cached_info() == old(self).cached_info(),
            (r is Err && !(r->Err_0 is Inconsistent)) ==> final(self).seen_info() == old(self).seen_info() && final(self).cached_info() == old(self).cached_info() && final(self).info_index() == old(self).info_index(),
    {
        let r = region.info.poll(&mut self.last_read_success_info, &mut self.lastcopy_info);
        proof {
            if r is Ok {
                self.info_idx = Ghost(region.info.hist().len());
            }
        }
        r
    }

    /// One receive attempt on slot `idx`, with the same outcome table as
    /// the info channel.
    pub fn try_recv_slot(&mut self, region: &SpMcData<InfoT, T>, idx: usize) -> (r: Result<
        T,
        GtsTransportError,
    >)
        requires
            region.wf(),
            old(self).wf(*region),
            idx < region.n_slots(),
        ensures
            final(self).wf(*region),
            r == spec_recv(region.slots@[idx as int], old(self).seen_slot(idx as int)),
            final(self).n_slots() == old(self).n_slots(),
            final(self).seen_info() == old(self).seen_info(),
            final(self).cached_info() == old(self).cached_info(),
            final(self).info_index() == old(self).info_index(),
            forall|i: int|
                0 <= i < old(self).n_slots() && i != idx ==> final(self).seen_slot(i) == old(self).seen_slot(i) && final(self).cached_slot(i) == old(self).cached_slot(i) && final(self).slot_index(i) == old(self).slot_index(i),
            r is Ok ==> {
                &&& final(self).seen_slot(idx as int) == Some(region.slots@[idx as int].cur_tag())
                &&& final(self).cached_slot(idx as int) == Some(
                    region.slots@[idx as int].hist().last(),
                )
                &&& final(self).slot_index(idx as int) == region.slots@[idx as int].hist().len()
                &&& (old(self).seen_slot(idx as int) is Some ==> old(self).slot_index(idx as int)
                    < region.slots@[idx as int].hist().len())
            },
            (r is Err && r->Err_0 is Inconsistent) ==> final(self).seen_slot(idx as int) is None
                && final(self).cached_slot(idx as int) == old(self).cached_slot(idx as int),
            (r is Err && !(r->Err_0 is Inconsistent)) ==> final(self).seen_slot(idx as int) == old(self).seen_slot(idx as int) && final(self).cached_slot(idx as int) == old(self).cached_slot(
                idx as int,
            ) && final(self).slot_index(idx as int) == old(self).slot_index(idx as int),
    {
        let mut seen: Option<u32> = self.last_read_success_slot[idx];
        let mut copy_val: Option<T> = self.lastcopy_slot[idx];
        let ch = &region.slots[idx];
        let r = ch.poll(&mut seen, &mut copy_val);
        self.last_read_success_slot[idx] = seen;
        self.lastcopy_slot[idx] = copy_val;
        proof {
            if r is Ok {
                self.slot_idx = Ghost(
                    self.slot_idx@.update(idx as int, region.slots@[idx as int].hist().len()),
                );
            }
        }
        r
    }

    /// Receive on the info channel, retrying torn reads up to
    /// `MAX_ITER_TILL_HANG` times. With no publication in flight this
    /// behaves exactly like one receive attempt; against a channel stuck
    /// mid-publication it reports `InconsistentHang`.
    pub fn try_recv_info_multi(&mut self, region: &SpMcData<InfoT, T>) -> (r: Result<
        InfoT,
        GtsTransportError,
    >)
        requires
            region.wf(),
            old(self).wf(*region),
        ensures
            final(self).wf(*region),
            final(self).n_slots() == old(self).n_slots(),
            forall|i: int|
                0 <= i < old(self).n_slots() ==> final(self).seen_slot(i) == old(self).seen_slot(i)
                    && final(self).cached_slot(i) == old(self).cached_slot(i) && final(self).slot_index(i) == old(self).slot_index(i),
            region.info.is_stable() ==> r == spec_recv(region.info, old(self).seen_info()),
            !region.info.is_stable() ==> r == Err::<InfoT, GtsTransportError>(
                GtsTransportError::InconsistentHang,
            ) && final(self).seen_info() is None,
            r is Ok ==> {
                &&& final(self).seen_info() == Some(region.info.cur_tag())
                &&& final(self).cached_info() == Some(region.info.hist().last())
                &&& final(self).info_index() == region.info.hist().len()
                &&& (old(self).seen_info() is Some ==> old(self).info_index() < region.info.hist().len())
            },
            r is Err ==> final(self).cached_info() == old(self).cached_info(),
    {
        let ghost self0 = *self;
        let mut it: usize = 0;
        while it < MAX_ITER_TILL_HANG
            invariant
                self0 == *old(self),
                region.wf(),
                self.wf(*region),
                self.n_slots() == self0.n_slots(),
                self.cached_info() == self0.cached_info(),
                forall|i: int|
                    0 <= i < self0.n_slots() ==> self.seen_slot(i) == self0.seen_slot(i)
                        && self.cached_slot(i) == self0.cached_slot(i) && self.slot_index(i)
                        == self0.slot_index(i),
                it > 0 ==> !region.info.is_stable() && self.seen_info() is None,
                it == 0 ==> *self == self0,
            decreases MAX_ITER_TILL_HANG - it,
        {
            match self.try_recv_info(region) {
                Ok(v) => {
                    return Ok(v);
                },
                Err(e) => {
                    if !matches!(e, GtsTransportError::Inconsistent) {
                        return Err(e);
                    }
                },
            }
            it += 1;
        }
        Err(GtsTransportError::InconsistentHang)
    }

    /// Receive on slot `idx`, retrying torn reads, as for the info
    /// channel.
    pub fn try_recv_slot_multi(&mut self, region: &SpMcData<InfoT, T>, idx: usize) -> (r: Result<
        T,
        GtsTransportError,
    >)
        requires
            region.wf(),
            old(self).wf(*region),
            idx < region.n_slots(),
        ensures
            final(self).wf(*region),
            final(self).n_slots() == old(self).n_slots(),
            final(self).seen_info() == old(self).seen_info(),
            final(self).cached_info() == old(self).cached_info(),
            final(self).info_index() == old(self).info_index(),
            forall|i: int|
                0 <= i < old(self).n_slots() && i != idx ==> final(self).seen_slot(i) == old(self).seen_slot(i) && final(self).cached_slot(i) == old(self).cached_slot(i) && final(self).slot_index(i) == old(self).slot_index(i),
            region.slots@[idx as int].is_stable() ==> r == spec_recv(
                region.slots@[idx as int],
                old(self).seen_slot(idx as int),
            ),
            !region.slots@[idx as int].is_stable() ==> r == Err::<T, GtsTransportError>(
                GtsTransportError::InconsistentHang,
            ) && final(self).seen_slot(idx as int) is None,
            r is Ok ==> {
                &&& final(self).seen_slot(idx as int) == Some(region.slots@[idx as int].cur_tag())
                &&& final(self).cached_slot(idx as int) == Some(
                    region.slots@[idx as int].hist().last(),
                )
                &&& final(self).slot_index(idx as int) == region.slots@[idx as int].hist().len()
                &&& (old(self).seen_slot(idx as int) is Some ==> old(self).slot_index(idx as int)
                    < region.slots@[idx as int].hist().len())
            },
            r is Err ==> final(self).cached_slot(idx as int) == old(self).cached_slot(idx as int),
    {
        let ghost self0 = *self;
        let mut it: usize = 0;
        while it < MAX_ITER_TILL_HANG
            invariant
                self0 == *old(self),
                region.wf(),
                self.wf(*region),
                idx < region.n_slots(),
                self.n_slots() == self0.n_slots(),
                self.cached_slot(idx as int) == self0.cached_slot(idx as int),
                self.seen_info() == self0.seen_info(),
                self.cached_info() == self0.cached_info(),
                self.info_index() == self0.info_index(),
                forall|i: int|
                    0 <= i < self0.n_slots() && i != idx ==> self.seen_slot(i) == self0.seen_slot(i)
                        && self.cached_slot(i) == self0.cached_slot(i) && self.slot_index(i)
                        == self0.slot_index(i),
                it > 0 ==> !region.slots@[idx as int].is_stable() && self.seen_slot(
                    idx as int,
                ) is None,
                it == 0 ==> *self == self0,
            decreases MAX_ITER_TILL_HANG - it,
        {
            match self.try_recv_slot(region, idx) {
                Ok(v) => {
                    return Ok(v);
                },
                Err(e) => {
                    if !matches!(e, GtsTransportError::Inconsistent) {
                        return Err(e);
                    }
                },
            }
            it += 1;
        }
        Err(GtsTransportError::InconsistentHang)
    }
}

impl<InfoT: Copy, T: Copy> Clone for SpMcReceiver<InfoT, T> {
    /// Cloning a consumer adds an independent reader over the same
    /// region: the clone starts with no accepted tags of its own.
    fn clone(&self) -> (r: Self)
        ensures
            r.is_reset(self.n_slots()),
            r.n_slots() == self.n_slots(),
            r.seen_info() is None,
    {
        let n = self.last_read_success_slot.len();
        let mut seen: Vec<Option<u32>> = Vec::new();
        let mut copies: Vec<Option<T>> = Vec::new();
        let mut i: usize = 0;
        while i < n
            invariant
                i <= n,
                seen@.len() == i,
                copies@.len() == i,
                forall|j: int| 0 <= j < i ==> seen@[j] is None,
            decreases n - i,
        {
            seen.push(None);
            copies.push(None);
            i += 1;
        }
        SpMcReceiver {
            last_read_success_info: None,
            last_read_success_slot: seen,
            lastcopy_info: None,
            lastcopy_slot: copies,
            info_idx: Ghost(0),
            slot_idx: Ghost(Seq::new(n as nat, |i: int| 0nat)),
        }
    }
}

/// A zeroed region of `n` slots together with its producer and one
/// consumer.
pub fn spmc_pair_def<InfoT: Copy, T: Copy>(n: usize) -> (r: (
    SpMcData<InfoT, T>,
    SpMcSender,
    SpMcReceiver<InfoT, T>,
))
    ensures
        r.0.is_fresh(),
        r.0.wf(),
        r.0.n_slots() == n,
        r.1.wf(r.0),
        r.2.wf(r.0),
        r.2.is_reset(n as nat),
{
    let region = SpMcData::<InfoT, T>::new(n);
    let tx = SpMcSender::new(&region);
    let rx = SpMcReceiver::new(&region);
    (region, tx, rx)
}

/// The producer and one consumer of a fresh region.
pub fn spmc_pair<InfoT: Copy, T: Copy>(region: &SpMcData<InfoT, T>) -> (r: (
    SpMcSender,
    SpMcReceiver<InfoT, T>,
))
    requires
        region.is_fresh(),
    ensures
        r.0.wf(*region),
        r.1.wf(*region),
        r.1.is_reset(region.n_slots()),
{
    (SpMcSender::new(region), SpMcReceiver::new(region))
}

/// The producer of a fresh region.
pub fn spmc_sender<InfoT: Copy, T: Copy>(region: &SpMcData<InfoT, T>) -> (r: SpMcSender)
    requires
        region.is_fresh(),
    ensures
        r.wf(*region),
{
    SpMcSender::new(region)
}

/// A consumer of a region in any state.
pub fn spmc_receiver<InfoT: Copy, T: Copy>(region: &SpMcData<InfoT, T>) -> (r: SpMcReceiver<
    InfoT,
    T,
>)
    ensures
        r.is_reset(region.n_slots()),
        r.wf(*region),
{
    SpMcReceiver::new(region)
}

/// Pushing a value extends a sequence: the old one stays its prefix.
pub proof fn lemma_push_prefix<A>(s: Seq<A>, v: A)
    ensures
        s.is_prefix_of(s.push(v)),
{
    assert(s.push(v).subrange(0, s.len() as int) =~= s);
}

/// A consumer stays coherent while the producer only appends: every
/// channel history it refers to is still there, unchanged, in the grown
/// region.
pub proof fn lemma_receiver_wf_extend<InfoT: Copy, T: Copy>(
    rx: SpMcReceiver<InfoT, T>,
    before: SpMcData<InfoT, T>,
    after: SpMcData<InfoT, T>,
)
    requires
        rx.wf(before),
        after.slots@.len() == before.slots@.len(),
        before.info.hist().is_prefix_of(after.info.hist()),
        forall|i: int|
            0 <= i < before.slots@.len() ==> (#[trigger] before.slots@[i]).hist().is_prefix_of(
                after.slots@[i].hist(),
            ),
    ensures
        rx.wf(after),
{
    if rx.seen_info() is Some {
        assert(after.info.hist()[rx.info_index() as int - 1] == after.info.hist().subrange(
            0,
            before.info.hist().len() as int,
        )[rx.info_index() as int - 1]);
    }
    assert forall|i: int| 0 <= i < after.slots@.len() implies channel_coherent(
        #[trigger] after.slots@[i],
        rx.seen_slot(i),
        rx.slot_index(i),
        rx.cached_slot(i),
    ) by {
        assert(channel_coherent(
            before.slots@[i],
            rx.seen_slot(i),
            rx.slot_index(i),
            rx.cached_slot(i),
        ));
        if rx.seen_slot(i) is Some {
            assert(after.slots@[i].hist()[rx.slot_index(i) as int - 1] == after.slots@[
                i
            ].hist().subrange(0, before.slots@[i].hist().len() as int)[rx.slot_index(i) as int
                - 1]);
        }
    }
}

/// Read integrity: whatever the consumer's state, a successful receive
/// returns the channel's latest value, which was completely published;
/// in particular it equals some value passed to a publication, never a
/// mixture of two.
pub proof fn lemma_recv_integrity<T: Copy>(ch: SubSpMcData<T>, last_seen: Option<u32>)
    requires
        ch.wf(),
        spec_recv(ch, last_seen) is Ok,
    ensures
        ch.hist().len() > 0,
        spec_recv(ch, last_seen)->Ok_0 == ch.hist().last(),
        exists|j: int|
            0 <= j < ch.hist().len() && spec_recv(ch, last_seen)->Ok_0 == #[trigger] ch.hist()[j],
{
    assert(spec_recv(ch, last_seen)->Ok_0 == ch.hist()[ch.hist().len() - 1]);
}

/// Freshness: a successful receive never carries the tag the consumer
/// already accepted.
pub proof fn lemma_recv_freshness<T: Copy>(ch: SubSpMcData<T>, last_seen: Option<u32>)
    requires
        spec_recv(ch, last_seen) is Ok,
    ensures
        last_seen != Some(ch.cur_tag()),
{
}

/// Staleness detection: when nothing was published after the tag the
/// consumer accepted, the next receive attempt reports `WouldBlock`.
pub proof fn lemma_recv_staleness<T: Copy>(ch: SubSpMcData<T>)
    requires
        ch.is_stable(),
        ch.hist().len() > 0,
    ensures
        spec_recv(ch, Some(ch.cur_tag())) == Err::<T, GtsTransportError>(
            GtsTransportError::WouldBlock,
        ),
{
}

/// Multi-consumer independence: consumers never write to the region, so
/// any two consumers that have not yet accepted the latest tag both
/// receive that same value; neither consumes it to the other's exclusion.
pub proof fn lemma_multi_consumer_independence<T: Copy>(
    ch: SubSpMcData<T>,
    seen1: Option<u32>,
    seen2: Option<u32>,
)
    requires
        ch.is_stable(),
        ch.hist().len() > 0,
        seen1 != Some(ch.cur_tag()),
        seen2 != Some(ch.cur_tag()),
    ensures
        spec_recv(ch, seen1) is Ok,
        spec_recv(ch, seen2) is Ok,
        spec_recv(ch, seen1)->Ok_0 == spec_recv(ch, seen2)->Ok_0,
{
}

} // verus!
