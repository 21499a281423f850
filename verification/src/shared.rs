//! Shared ownership.
use std::rc::Rc;

use vstd::prelude::*;

verus! {

/// Calls `Rc::clone`, which makes one more pointer to the same allocation.
/// Claimed: the new pointer points to what the given one points to.
#[verifier::external_body]
pub(crate) fn share<T>(pointer: &Rc<T>) -> (shared: Rc<T>)
    ensures
        shared == *pointer,
{
    Rc::clone(pointer)
}

} // verus!
