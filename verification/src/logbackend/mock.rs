//! An in-process backend that queues every event, for tests and examples.

use crate::error::GtsLoggerError;
use crate::logbackend::LogBackend;
use std::collections::VecDeque;
use vstd::prelude::*;

verus! {

/// A backend that stores every event in a queue the caller drains.
pub struct MockLogBacked<T: Copy> {
    queue: VecDeque<T>,
}

impl<T: Copy> MockLogBacked<T> {
    /// An empty backend.
    pub fn new() -> (r: Self)
        ensures
            r.events() == Seq::<T>::empty(),
    {
        MockLogBacked { queue: VecDeque::new() }
    }

    /// Remove and return the oldest queued event, if any.
    pub fn pop_front(&mut self) -> (r: Option<T>)
        ensures
            old(self).events().len() == 0 ==> r is None && final(self).events() == old(self).events(),
            old(self).events().len() > 0 ==> r == Some(old(self).events()[0]) && final(self).events() == old(self).events().subrange(1, old(self).events().len() as int),
    {
        self.queue.pop_front()
    }
}

impl<T: Copy> LogBackend<T> for MockLogBacked<T> {
    closed spec fn events(&self) -> Seq<T> {
        self.queue@
    }

    /// Queue the event; this backend never fails.
    fn log(&mut self, event: T) -> (r: Result<(), GtsLoggerError>)
        ensures
            r is Ok,
    {
        self.queue.push_back(event);
        Ok(())
    }
}

} // verus!
