//! What the pulls of both kinds of source have in common.
use std::rc::Rc;

use futures_util::future::{AbortHandle, Aborted};
use vstd::prelude::*;

use crate::abort::{abort, AbortedPull, PullRegistration};

verus! {

/// What the future of one pull needs: the cell of what it reads from, the
/// controller that it works for, and the registration under which it can be
/// aborted.
pub struct PullTask<C, K> {
    pub inner: Rc<C>,
    pub controller: K,
    pub registration: PullRegistration,
    /// The handle of the pull before this one. That pull is left to run: the
    /// source can no longer abort it.
    pub replaced: Option<AbortHandle>,
}

/// Whether `aborted` is `pending` after abort was called on it.
pub open spec fn aborts(aborted: Option<AbortedPull>, pending: Option<AbortHandle>) -> bool {
    match pending {
        Some(handle) => aborted matches Some(aborted) && aborted.handle() == handle,
        None => aborted is None,
    }
}

/// Aborts the pending pull, if there is one.
pub(crate) fn abort_pending(pending: Option<AbortHandle>) -> (aborted: Option<AbortedPull>)
    ensures
        aborts(aborted, pending),
{
    match pending {
        Some(handle) => Some(abort(handle)),
        None => None,
    }
}

/// What `outcome` answers a pull with: what the pull itself came to, or
/// success where it was aborted.
pub open spec fn settled<E>(outcome: Result<Result<(), E>, Aborted>) -> Result<(), E> {
    match outcome {
        Ok(answer) => answer,
        Err(_) => Ok(()),
    }
}

/// Answers a pull. A pull that was aborted is no error: nobody waits for it any
/// more, and it is answered with success.
pub fn settle<E>(outcome: Result<Result<(), E>, Aborted>) -> (answer: Result<(), E>)
    ensures
        answer == settled(outcome),
        outcome matches Ok(own) ==> answer == own,
        outcome is Err ==> answer is Ok,
{
    match outcome {
        Ok(answer) => answer,
        Err(_) => Ok(()),
    }
}

/// A pull that cancelling its stream aborts is not answered with an error.
pub proof fn aborted_pull_is_answered_with_success<E>(aborted: Aborted)
    ensures
        settled(Err::<Result<(), E>, Aborted>(aborted)) == Ok::<(), E>(()),
{
}

/// A pull that was not aborted is answered with exactly what it came to: its
/// error rejects it, its success resolves it.
pub proof fn pull_that_ran_is_answered_with_its_own_answer<E>(own: Result<(), E>)
    ensures
        settled(Ok::<Result<(), E>, Aborted>(own)) == own,
{
}

/// A pull is answered with an error if and only if it was not aborted and came
/// to that error itself: no error is lost, and none is made up.
pub proof fn exactly_own_errors_are_answered<E>(
    outcome: Result<Result<(), E>, Aborted>,
    error: E,
)
    ensures
        settled(outcome) == Err::<(), E>(error) <==> outcome == Ok::<Result<(), E>, Aborted>(
            Err(error),
        ),
{
}

/// A pending pull is aborted, and no other; without one, nothing is aborted.
pub proof fn exactly_the_pending_pull_is_aborted(
    aborted: Option<AbortedPull>,
    pending: Option<AbortHandle>,
)
    requires
        aborts(aborted, pending),
    ensures
        aborted is Some <==> pending is Some,
        aborted matches Some(pull) ==> pending == Some(pull.handle()),
{
}

} // verus!
