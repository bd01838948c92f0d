//! The decision core of the dual-thread log backend.
//!
//! The threaded backend runs two workers: a *drain* worker pulls records
//! out of the bounded ring into an unbounded queue, and a *writer* worker
//! batches queued records and flushes a batch to a sink when it has grown
//! large enough or waited long enough. The workers' decisions live here;
//! the threads, their sleeps and the sink are the embedder's concern.

use crate::sync::lfringspsc::{SpScRingData, SpScRingReceiver};
use vstd::prelude::*;

verus! {

/// Record count that forces a writer flush.
pub const WRITER_FLUSH_COUNT: usize = 5000;

/// Nanoseconds since the last flush that force a writer flush.
pub const WRITER_FLUSH_INTERVAL_NS: u64 = 5_000_000_000;

/// Suggested pause of the drain worker between ring sweeps, in ms.
pub const DRAIN_SLEEP_MS: u64 = 10;

/// Suggested pause of the writer worker between batching rounds, in ms.
pub const WRITER_SLEEP_MS: u64 = 500;

/// One sweep of the drain worker: receive until the ring reports
/// `WouldBlock`, appending every pending record to `out` in ring order.
pub fn drain_ring<T: Copy>(
    rx: &mut SpScRingReceiver<T>,
    region: &mut SpScRingData<T>,
    out: &mut Vec<T>,
)
    requires
        old(region).wf(),
        old(rx).wf(*old(region)),
    ensures
        final(region).wf(),
        final(rx).wf(*final(region)),
        final(region).sent_seq() == old(region).sent_seq(),
        final(region).ring_size() == old(region).ring_size(),
        final(region).pending() == 0,
        final(region).taken_count() == old(region).sent_seq().len(),
        final(out)@ == old(out)@ + old(region).sent_seq().subrange(
            old(region).taken_count() as int,
            old(region).sent_seq().len() as int,
        ),
{
    let ghost sent0 = region.sent_seq();
    let ghost taken0 = region.taken_count();
    let ghost out0 = out@;
    loop
        invariant
            region.wf(),
            rx.wf(*region),
            region.sent_seq() == sent0,
            region.ring_size() == old(region).ring_size(),
            taken0 <= region.taken_count(),
            out@ == out0 + sent0.subrange(taken0 as int, region.taken_count() as int),
        ensures
            region.pending() == 0,
            region.sent_seq() == sent0,
            region.ring_size() == old(region).ring_size(),
            rx.wf(*region),
            out@ == out0 + sent0.subrange(taken0 as int, region.taken_count() as int),
        decreases region.pending(),
    {
        let ghost taken_before = region.taken_count();
        match rx.try_recv(region) {
            Ok(v) => {
                out.push(v);
                proof {
                    assert(sent0.subrange(taken0 as int, taken_before as int + 1)
                        =~= sent0.subrange(taken0 as int, taken_before as int).push(
                        sent0[taken_before as int],
                    ));
                }
            },
            Err(_) => {
                break;
            },
        }
    }
}

/// The writer worker's batching state: the records gathered so far and
/// the time of the last flush.
pub struct BatchWriter<T> {
    buf: Vec<T>,
    last_flush_ns: u64,
}

/// Whether a writer holding `len` records, last flushed at `last_ns`,
/// must flush now: only when it holds records at all, and then once the
/// batch is large enough or enough time has passed.
pub open spec fn spec_should_flush(len: nat, now_ns: u64, last_ns: u64) -> bool {
    len > 0 && (len >= WRITER_FLUSH_COUNT || now_ns - last_ns > WRITER_FLUSH_INTERVAL_NS)
}

impl<T: Copy> BatchWriter<T> {
    /// The records gathered and not yet flushed, oldest first.
    pub closed spec fn buffered(&self) -> Seq<T> {
        self.buf@
    }

    /// When the writer last flushed, in clock nanoseconds.
    pub closed spec fn last_flush(&self) -> u64 {
        self.last_flush_ns
    }

    /// A writer that has seen nothing, anchored at the given time.
    pub fn new(now_ns: u64) -> (r: Self)
        ensures
            r.buffered() == Seq::<T>::empty(),
            r.last_flush() == now_ns,
    {
        BatchWriter { buf: Vec::new(), last_flush_ns: now_ns }
    }

    /// One batching round: absorb the queued records, then either hand
    /// back the whole batch to be written (emptying the buffer and
    /// re-anchoring the flush time) or keep gathering.
    pub fn offer(&mut self, incoming: &mut Vec<T>, now_ns: u64) -> (r: Option<Vec<T>>)
        requires
            now_ns >= old(self).last_flush(),
            old(self).buffered().len() + old(incoming)@.len() <= usize::MAX,
        ensures
            final(incoming)@ == Seq::<T>::empty(),
            spec_should_flush(
                old(self).buffered().len() + old(incoming)@.len(),
                now_ns,
                old(self).last_flush(),
            ) ==> {
                &&& r is Some
                &&& r->Some_0@ == old(self).buffered() + old(incoming)@
                &&& final(self).buffered() == Seq::<T>::empty()
                &&& final(self).last_flush() == now_ns
            },
            !spec_should_flush(
                old(self).buffered().len() + old(incoming)@.len(),
                now_ns,
                old(self).last_flush(),
            ) ==> {
                &&& r is None
                &&& final(self).buffered() == old(self).buffered() + old(incoming)@
                &&& final(self).last_flush() == old(self).last_flush()
            },
    {
        let ghost buf0 = self.buf@;
        let ghost inc0 = incoming@;
        let n = incoming.len();
        let mut i: usize = 0;
        while i < n
            invariant
                i <= n,
                incoming@ == inc0,
                n == inc0.len(),
                self.buf@ == buf0 + inc0.subrange(0, i as int),
                self.last_flush_ns == old(self).last_flush(),
                buf0.len() + inc0.len() <= usize::MAX,
            decreases n - i,
        {
            let v = incoming[i];
            self.buf.push(v);
            proof {
                assert(buf0 + inc0.subrange(0, i as int + 1) =~= (buf0 + inc0.subrange(
                    0,
                    i as int,
                )).push(inc0[i as int]));
            }
            i += 1;
        }
        incoming.clear();
        proof {
            assert(self.buf@ =~= buf0 + inc0);
        }
        let elapsed = now_ns - self.last_flush_ns;
        if self.buf.len() > 0 && (self.buf.len() >= WRITER_FLUSH_COUNT || elapsed
            > WRITER_FLUSH_INTERVAL_NS) {
            let mut batch: Vec<T> = Vec::new();
            core::mem::swap(&mut batch, &mut self.buf);
            self.last_flush_ns = now_ns;
            Some(batch)
        } else {
            None
        }
    }
}

} // verus!
