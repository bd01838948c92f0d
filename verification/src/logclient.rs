//! The log client: stamps each event with wall-clock nanoseconds and a
//! sequence id, then hands it to a backend.
//!
//! `log` reads the clock and starts a fresh `(timestamp, 0)` pair;
//! `log_same` reuses the last timestamp and steps the sequence id, for
//! bursts that should share a single clock read. Within one client the
//! `(timestamp, seqid)` pairs grow strictly in lexicographic order as
//! long as each fresh clock read exceeds the previous timestamp.

use crate::error::GtsLoggerError;
use crate::logbackend::LogBackend;
use core::marker::PhantomData;
use vstd::prelude::*;

verus! {

/// An event stamped with wall-clock nanoseconds and a sequence id that
/// orders events sharing one timestamp.
#[derive(Debug, Copy, Clone, PartialEq)]
pub struct LogEventTs<T> {
    pub timestamp: u64,
    pub seqid: u32,
    pub data: T,
}

impl<T> LogEventTs<T> {
    pub fn new(timestamp: u64, seqid: u32, data: T) -> (r: Self)
        ensures
            r.timestamp == timestamp,
            r.seqid == seqid,
            r.data == data,
    {
        LogEventTs { timestamp, seqid, data }
    }
}

#[verifier::external_type_specification]
#[verifier::external_body]
pub struct ExAnchor(minstant::Anchor);

#[verifier::external_type_specification]
#[verifier::external_body]
pub struct ExInstant(minstant::Instant);

/// Relies on minstant::Anchor::new: calibrates an anchor that converts
/// clock cycles into unix nanoseconds. The result depends on the machine
/// and the moment, so nothing is promised of it.
#[verifier::external_body]
fn anchor_new() -> minstant::Anchor {
    minstant::Anchor::new()
}

/// Relies on minstant::Instant::now: reads the monotonic clock. The
/// result depends on the moment of the call, so nothing is promised.
#[verifier::external_body]
fn instant_now() -> minstant::Instant {
    minstant::Instant::now()
}

/// Relies on minstant::Instant::as_unix_nanos: converts a clock reading
/// into unix nanoseconds through an anchor. The result depends on the
/// machine's calibration, so nothing is promised of it.
pub assume_specification[ minstant::Instant::as_unix_nanos ](
    i: &minstant::Instant,
    anchor: &minstant::Anchor,
) -> u64;

/// Strict lexicographic order on `(timestamp, seqid)` pairs.
pub open spec fn pair_lt(a: (u64, u32), b: (u64, u32)) -> bool {
    a.0 < b.0 || (a.0 == b.0 && a.1 < b.1)
}

/// A client that stamps events and forwards them to its backend. One
/// client serves one thread; concurrent producers use one client each.
pub struct LogClient<BackendT, EventT> {
    backend: BackendT,
    anc: minstant::Anchor,
    last_ts: (u64, u32),
    _data: PhantomData<EventT>,
}

impl<BackendT: LogBackend<LogEventTs<EventT>>, EventT> LogClient<BackendT, EventT> {
    /// The `(timestamp, seqid)` pair of the most recent event, or
    /// `(0, 0)` before the first one.
    pub closed spec fn last_pair(&self) -> (u64, u32) {
        self.last_ts
    }

    /// The stamped events the backend has accepted.
    pub closed spec fn events(&self) -> Seq<LogEventTs<EventT>> {
        self.backend.events()
    }

    /// A client over the given backend, with no events stamped yet.
    pub fn new(backend: BackendT) -> (r: Self)
        ensures
            r.last_pair() == (0u64, 0u32),
            r.events() == backend.events(),
    {
        LogClient { backend, anc: anchor_new(), last_ts: (0, 0), _data: PhantomData }
    }

    /// Stamp `event` with the given timestamp and sequence id zero, and
    /// hand it to the backend. The pair becomes the client's latest.
    pub fn log_with_ts(&mut self, timestamp: u64, event: EventT) -> (r: Result<
        (),
        GtsLoggerError,
    >)
        ensures
            final(self).last_pair() == (timestamp, 0u32),
            r is Ok ==> final(self).events() == old(self).events().push(
                (LogEventTs { timestamp, seqid: 0u32, data: event }),
            ),
            r is Err ==> final(self).events() == old(self).events(),
    {
        self.last_ts = (timestamp, 0);
        self.backend.log(LogEventTs { timestamp, seqid: 0, data: event })
    }

    /// Stamp `event` with the clock's unix nanoseconds and sequence id
    /// zero. Whatever the clock returned, the event carries the client's
    /// new latest pair, whose sequence id is zero.
    pub fn log(&mut self, event: EventT) -> (r: Result<(), GtsLoggerError>)
        ensures
            final(self).last_pair().1 == 0u32,
            r is Ok ==> final(self).events() == old(self).events().push(
                (LogEventTs {
                    timestamp: final(self).last_pair().0,
                    seqid: 0u32,
                    data: event,
                }),
            ),
            r is Err ==> final(self).events() == old(self).events(),
    {
        let ts = instant_now();
        let timestamp = ts.as_unix_nanos(&self.anc);
        self.log_with_ts(timestamp, event)
    }

    /// Stamp `event` with the latest timestamp and the next sequence id,
    /// for bursts sharing one clock read. The new pair is strictly above
    /// the previous one in lexicographic order.
    pub fn log_same(&mut self, event: EventT) -> (r: Result<(), GtsLoggerError>)
        requires
            old(self).last_pair().1 < u32::MAX,
        ensures
            final(self).last_pair() == (
                old(self).last_pair().0,
                (old(self).last_pair().1 + 1) as u32,
            ),
            pair_lt(old(self).last_pair(), final(self).last_pair()),
            r is Ok ==> final(self).events() == old(self).events().push(
                (LogEventTs {
                    timestamp: old(self).last_pair().0,
                    seqid: (old(self).last_pair().1 + 1) as u32,
                    data: event,
                }),
            ),
            r is Err ==> final(self).events() == old(self).events(),
    {
        let (timestamp, seqid) = self.last_ts;
        let seqid = seqid + 1;
        self.last_ts = (timestamp, seqid);
        self.backend.log(LogEventTs { timestamp, seqid, data: event })
    }

    /// The backend, for inspection.
    pub fn backend(&self) -> (r: &BackendT)
        ensures
            r.events() == self.events(),
    {
        &self.backend
    }

    /// The backend, for draining; the stamped pair is untouched.
    pub fn backend_mut(&mut self) -> (r: &mut BackendT)
        ensures
            r.events() == old(self).events(),
            final(self).events() == final(r).events(),
            final(self).last_pair() == old(self).last_pair(),
    {
        &mut self.backend
    }
}

/// Log ordering: every step of the client advances its pair strictly in
/// lexicographic order — `log_same` always, and `log` whenever the fresh
/// timestamp exceeds the previous one. Chained with transitivity, any
/// run of such calls emits strictly increasing pairs.
pub proof fn lemma_log_ordering(prev: (u64, u32), ts: u64)
    requires
        ts > prev.0,
    ensures
        pair_lt(prev, (ts, 0u32)),
        prev.1 < u32::MAX ==> pair_lt(prev, (prev.0, (prev.1 + 1) as u32)),
{
}

/// Strict lexicographic order on pairs is transitive.
pub proof fn lemma_pair_lt_transitive(a: (u64, u32), b: (u64, u32), c: (u64, u32))
    requires
        pair_lt(a, b),
        pair_lt(b, c),
    ensures
        pair_lt(a, c),
{
}

} // verus!
