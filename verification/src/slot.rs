//! Taking a value out of its slot for one operation, and putting it back.
use vstd::prelude::*;

use crate::throw::Throw;

verus! {

/// What taking the value out of `slot` gives: the value, or a throw where
/// there is none.
pub open spec fn taken<T>(slot: Option<T>) -> Result<T, Throw> {
    match slot {
        Some(value) => Ok(value),
        None => Err(Throw::Spent),
    }
}

/// `slot` after an operation gave `value` back, which is kept only where the
/// operation left it fit for reuse.
pub open spec fn put_back<T>(slot: Option<T>, value: T, reusable: bool) -> Option<T> {
    if reusable {
        Some(value)
    } else {
        slot
    }
}

/// Takes the value out of `slot`. The slot is empty from here on, whatever
/// becomes of the operation that the value is used for.
pub(crate) fn take<T>(slot: &mut Option<T>) -> (value: Result<T, Throw>)
    ensures
        *final(slot) == None::<T>,
        value == taken(*old(slot)),
{
    match slot.take() {
        Some(value) => Ok(value),
        None => Err(Throw::Spent),
    }
}

/// `slot` after one whole operation that needs its value: the value is taken
/// out and, where `reusable`, put back. An operation that is cut short between
/// the two leaves the slot as one that is not `reusable` does.
pub open spec fn after_operation<T>(slot: Option<T>, reusable: bool) -> Option<T> {
    match taken(slot) {
        Ok(value) => put_back(None, value, reusable),
        Err(_) => None,
    }
}

/// `slot` after the operations of `reusable`, in order.
pub open spec fn after_operations<T>(slot: Option<T>, reusable: Seq<bool>) -> Option<T>
    decreases reusable.len(),
{
    if reusable.len() == 0 {
        slot
    } else {
        after_operation(after_operations(slot, reusable.drop_last()), reusable.last())
    }
}

/// A value outlives a sequence of operations if and only if every one of them
/// left it fit for reuse, and it is then the very value that was there before.
pub proof fn value_outlives_exactly_reusable_operations<T>(slot: Option<T>, reusable: Seq<bool>)
    ensures
        after_operations(slot, reusable) == (if forall|i: int|
            0 <= i < reusable.len() ==> reusable[i] {
            slot
        } else {
            None
        }),
    decreases reusable.len(),
{
    if reusable.len() > 0 {
        let before = reusable.drop_last();
        value_outlives_exactly_reusable_operations(slot, before);
        if reusable.last() && forall|i: int| 0 <= i < before.len() ==> before[i] {
            assert forall|i: int| 0 <= i < reusable.len() implies reusable[i] by {
                if i < before.len() {
                    assert(before[i]);
                }
            }
        } else if !reusable.last() {
            assert(!reusable[reusable.len() - 1]);
        } else {
            let i = choose|i: int| 0 <= i < before.len() && !before[i];
            assert(!reusable[i]);
        }
    }
}

/// An empty slot stays empty: once a value is lost, no sequence of operations
/// brings it or another back, and taking it throws from then on.
pub proof fn empty_slot_stays_empty<T>(reusable: Seq<bool>)
    ensures
        after_operations(None::<T>, reusable) == None::<T>,
        taken(after_operations(None::<T>, reusable)) == Err::<T, Throw>(Throw::Spent),
{
    value_outlives_exactly_reusable_operations(None::<T>, reusable);
}

/// Taking gives the very value that is there, and throws if and only if there
/// is none.
pub proof fn taking_gives_what_is_there<T>(value: T)
    ensures
        taken(Some(value)) == Ok::<T, Throw>(value),
        taken(None::<T>) == Err::<T, Throw>(Throw::Spent),
{
}

/// A value that may be reused is in the slot once it was given back, whatever
/// the slot held; one that may not be reused leaves the slot as it is.
pub proof fn giving_back_fills_the_slot_or_leaves_it<T>(slot: Option<T>, value: T)
    ensures
        put_back(slot, value, true) == Some(value),
        put_back(slot, value, false) == slot,
{
}

/// Taking a value out undoes giving it back for reuse.
pub proof fn taking_undoes_giving_back<T>(slot: Option<T>, value: T)
    ensures
        taken(put_back(slot, value, true)) == Ok::<T, Throw>(value),
{
}

} // verus!
