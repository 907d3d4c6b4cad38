//! Why a record is not decoded or a transition not taken.

use vstd::prelude::*;

verus! {

/// Every failure is found before a buffer is written to, so a call that
/// fails leaves the state as it was.
#[derive(Clone, Copy, Debug, PartialEq, Eq, Structural)]
pub enum VotingError {
    /// A buffer is too short, or its length is not a whole number of records.
    MalformedRecord,
    /// The voter's `voted` flag is already set.
    AlreadyVoted,
    /// The voter has weight 0.
    NotEnfranchised,
    /// The resolved winning index lies beyond the proposal list.
    IndexOutOfRange,
    /// The instruction's first byte names no transition.
    UnknownOpcode,
}

} // verus!
