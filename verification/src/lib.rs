//! Anonymous, eligibility-gated polling: proof decoding, public-input
//! reconstruction, and the poll / vote lifecycle with its nullifier ledger.

pub mod error;
pub mod types;
pub mod codec;
pub mod public_inputs;
pub mod proof_check;
pub mod ledger;
pub mod tally;
pub mod state;
pub mod lifecycle;

pub use error::Error;
pub use ledger::NullifierLedger;
pub use lifecycle::ZKPoll;
pub use tally::VoteTally;
pub use types::{
    Address, NoirProof, Poll, PollCreated, PollEnded, ProofData, VerificationKeyUpdated, VoteCast,
};
