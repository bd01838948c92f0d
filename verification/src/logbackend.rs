//! Backends that accept timestamped log events from a client.

use crate::error::GtsLoggerError;
use vstd::prelude::*;

pub mod dualthread;
pub mod mock;

verus! {

/// A sink of log events. Each backend keeps (at least logically) the
/// record of the events it has accepted, in arrival order.
pub trait LogBackend<T>: Sized {
    /// The events this backend has accepted so far, oldest first.
    /// A backend whose contracts are to mean anything overrides this;
    /// the default stands for backends outside the verified world.
    open spec fn events(&self) -> Seq<T> {
        Seq::empty()
    }

    /// Hand one event to the backend: on success it joins the record,
    /// on failure the record is unchanged.
    fn log(&mut self, event: T) -> (r: Result<(), GtsLoggerError>)
        ensures
            r is Ok ==> final(self).events() == old(self).events().push(event),
            r is Err ==> final(self).events() == old(self).events(),
    ;
}

} // verus!
