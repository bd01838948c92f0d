//! The interface a memory-region holder offers to transport endpoints.

use vstd::prelude::*;

verus! {

/// A holder of one region value of type `T`. The holder owns the bytes;
/// endpoints borrow them for the duration of each operation.
pub trait MemHolder<T>: Sized {
    /// The region value held.
    spec fn inner(&self) -> T;

    /// Borrow the region.
    fn get_ref(&self) -> (r: &T)
        ensures
            *r == self.inner(),
    ;
}

} // verus!
