//! Abort handles for pending pulls.
//!
//! The fields of the two types made here are out of reach of every other
//! module, so a `PullRegistration` always comes from `new_pair`, and an
//! `AbortedPull` from `abort`.
use futures_util::future::{AbortHandle, AbortRegistration, Aborted};
use vstd::prelude::*;

verus! {

/// Makes the handle type of `futures_util` known, as an opaque type.
#[verifier::external_type_specification]
#[verifier::external_body]
pub struct ExAbortHandle(AbortHandle);

/// Makes the registration type of `futures_util` known, as an opaque type.
#[verifier::external_type_specification]
#[verifier::external_body]
pub struct ExAbortRegistration(AbortRegistration);

/// Makes the mark of an aborted task of `futures_util` known, as an opaque
/// type.
#[verifier::external_type_specification]
#[verifier::external_body]
pub struct ExAborted(Aborted);

/// The registration under which the future of one pull runs, with a record of
/// the handle that aborts it.
pub struct PullRegistration {
    registration: AbortRegistration,
    handle: Ghost<AbortHandle>,
}

impl PullRegistration {
    /// The handle that aborts the pull.
    pub closed spec fn handle(self) -> AbortHandle {
        self.handle@
    }

    /// The registration itself.
    pub closed spec fn registration(self) -> AbortRegistration {
        self.registration
    }

    /// Hands the registration over to the future that is to run under it.
    pub fn into_registration(self) -> (registration: AbortRegistration)
        ensures
            registration == self.registration(),
    {
        self.registration
    }
}

/// A handle on which abort was called. Only `abort` makes one, out of a handle
/// that is used up by it: a handle that is still there as such was not aborted
/// by this library.
pub struct AbortedPull {
    handle: AbortHandle,
}

impl AbortedPull {
    /// The handle on which abort was called.
    pub closed spec fn handle(self) -> AbortHandle {
        self.handle
    }
}

/// Calls `AbortHandle::new_pair`, which makes a handle and the registration
/// that it aborts. Claimed: the registration that is returned is the one that
/// belongs to the handle returned with it.
#[verifier::external_body]
pub(crate) fn new_pair() -> (pair: (AbortHandle, PullRegistration))
    ensures
        pair.1.handle() == pair.0,
{
    let (handle, registration) = AbortHandle::new_pair();
    (handle, PullRegistration { registration, handle: Ghost(handle) })
}

/// Calls `AbortHandle::abort`, which tells the task registered under the handle
/// to stop and wakes it. Claimed: the handle recorded as aborted is the one
/// that was given. That the flag is set, in memory that the handle shares with
/// the task, is what the result stands for and is not stated further.
#[verifier::external_body]
pub(crate) fn abort(handle: AbortHandle) -> (aborted: AbortedPull)
    ensures
        aborted.handle() == handle,
{
    handle.abort();
    AbortedPull { handle }
}

} // verus!
