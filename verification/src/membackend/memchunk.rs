//! A process-private memory region: a plain owned value, usable wherever
//! producer and consumer live in one process.

use crate::membackend::memholder::MemHolder;
use vstd::prelude::*;

verus! {

/// A private region holding one `T`.
pub struct MemChunkHolder<T> {
    pub data: T,
}

impl<T> MemChunkHolder<T> {
    /// A region holding the given initial value.
    pub fn new(data: T) -> (r: Self)
        ensures
            r.data == data,
    {
        MemChunkHolder { data }
    }
}

impl<T> MemHolder<T> for MemChunkHolder<T> {
    closed spec fn inner(&self) -> T {
        self.data
    }

    fn get_ref(&self) -> (r: &T) {
        &self.data
    }
}

} // verus!
