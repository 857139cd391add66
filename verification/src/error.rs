//! The failure kinds surfaced by every operation of the library.

use vstd::prelude::*;

verus! {

/// Why an operation was refused.
#[derive(Debug, PartialEq, Eq, Structural, Clone, Copy)]
pub enum Error {
    /// No poll is stored under the given id.
    PollNotFound,
    /// Reserved: poll ids are assigned by the manager, so this is never produced.
    PollAlreadyExists,
    /// The poll was closed by its creator, or its end block has passed.
    PollEnded,
    /// The proof decodes but fails a structural, public-input or key check.
    InvalidProof,
    /// The nullifier was already consumed for this poll.
    NullifierAlreadyUsed,
    /// Only the creator of a poll may end it.
    NotPollCreator,
    /// The option index is not below the poll's option count.
    InvalidVoteChoice,
    /// A counter or block height would wrap.
    ArithmeticOverflow,
    /// The proof buffer is malformed.
    ProofDeserializationError,
    /// Reserved for public-input mismatches reported on their own.
    InvalidPublicInputs,
    /// The nullifier is the all-zero value.
    InvalidNullifierFormat,
}

} // verus!
