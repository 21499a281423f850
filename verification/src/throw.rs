//! Why a callback throws.
use vstd::prelude::*;

verus! {

/// The reason for which a call is answered by a thrown JavaScript exception
/// and not by a value.
#[derive(Clone, Copy, Debug, PartialEq, Eq, Structural)]
pub enum Throw {
    /// The adapter itself is gone: the stream was cancelled, closed or aborted.
    Released,
    /// The adapter is there, but its stream, reader or sink was taken out and
    /// not put back.
    Spent,
    /// A byte stream controller had no BYOB request to fill.
    NoByobRequest,
    /// A BYOB request had no view to write into.
    NoView,
    /// A length does not fit in 32 bits.
    TooLarge,
}

} // verus!
