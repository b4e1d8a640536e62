//! The lifetime-extension capability.
//!
//! A background task may observe data that lives in a parked coroutine's
//! stack frame. The bridge protocol guarantees that the frame outlives the
//! task: the frame is parked, not destroyed or reentered, while the task
//! runs, and the task has finished strictly before the frame is resumed and
//! could mutate or free anything the task saw. Under that protocol, widening
//! the apparent validity window of a borrow across the suspension point does
//! not change the borrowed value itself, so the capability is the identity on
//! the value it is given; that identity is what this module states and
//! proves. The capability must not be used outside the suspend/resume
//! protocol.

use vstd::prelude::*;

verus! {

/// A value whose apparent validity window may be widened across a suspension
/// point, under the bridge protocol's guarantee that the owner of the value
/// stays parked until every observer of it has finished.
pub trait BorrowUnchecked: Sized {
    /// Treat the value as remaining valid across the suspension window.
    /// The value itself is returned unchanged.
    fn borrow_unchecked(self) -> (unbounded: Self)
        ensures
            unbounded == self,
    ;
}

impl<T> BorrowUnchecked for &T {
    fn borrow_unchecked(self) -> (unbounded: Self) {
        self
    }
}

impl BorrowUnchecked for u64 {
    fn borrow_unchecked(self) -> (unbounded: Self) {
        self
    }
}

/// Widen the apparent validity window of `reference` across a suspension
/// point. Sound only within the suspend/resume protocol: the referent's
/// owning frame must stay parked until the background task that captures the
/// result has finished.
pub fn borrow_unchecked<Ref: BorrowUnchecked>(reference: Ref) -> (unbounded: Ref)
    ensures
        unbounded == reference,
{
    reference.borrow_unchecked()
}

} // verus!
