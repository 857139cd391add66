//! Plain data of the polling system and the mathematical view of each type.

use vstd::prelude::*;

verus! {

/// An account identity: 32 opaque bytes, compared byte for byte.
#[derive(Debug, PartialEq, Eq, Clone, Copy)]
pub struct Address {
    pub bytes: [u8; 32],
}

impl View for Address {
    type V = Seq<u8>;

    open spec fn view(&self) -> Seq<u8> {
        self.bytes@
    }
}

/// The views of a list of strings, element by element.
pub open spec fn strings_view(v: Seq<String>) -> Seq<Seq<char>> {
    Seq::new(v.len(), |i: int| v[i]@)
}

/// A poll record.
#[derive(Debug, PartialEq, Eq)]
pub struct Poll {
    /// Unique identifier, assigned by the manager starting at 1.
    pub id: u32,
    pub title: String,
    pub description: String,
    /// Option labels; an option's index is its id.
    pub options: Vec<String>,
    /// Commitment to the set of eligible voters.
    pub merkle_root: [u8; 32],
    pub creator: Address,
    /// Cleared only when the creator ends the poll.
    pub is_active: bool,
    /// Number of accepted votes.
    pub total_votes: u32,
    /// Last block height at which votes are accepted.
    pub end_block: u32,
}

/// What a poll record is, mathematically.
pub struct PollView {
    pub id: u32,
    pub title: Seq<char>,
    pub description: Seq<char>,
    pub options: Seq<Seq<char>>,
    pub merkle_root: Seq<u8>,
    pub creator: Seq<u8>,
    pub is_active: bool,
    pub total_votes: u32,
    pub end_block: u32,
}

impl View for Poll {
    type V = PollView;

    open spec fn view(&self) -> PollView {
        PollView {
            id: self.id,
            title: self.title@,
            description: self.description@,
            options: strings_view(self.options@),
            merkle_root: self.merkle_root@,
            creator: self.creator@,
            is_active: self.is_active,
            total_votes: self.total_votes,
            end_block: self.end_block,
        }
    }
}

/// A vote submission: the encoded proof, the voter's nullifier and the chosen option.
#[derive(Debug, PartialEq, Eq)]
pub struct ProofData {
    pub proof: Vec<u8>,
    pub nullifier: [u8; 32],
    pub vote_choice: u32,
}

/// What a vote submission is, mathematically.
pub struct ProofDataView {
    pub proof: Seq<u8>,
    pub nullifier: Seq<u8>,
    pub vote_choice: u32,
}

impl View for ProofData {
    type V = ProofDataView;

    open spec fn view(&self) -> ProofDataView {
        ProofDataView {
            proof: self.proof@,
            nullifier: self.nullifier@,
            vote_choice: self.vote_choice,
        }
    }
}

/// A decoded proof: the raw proof bytes and the public inputs in order.
#[derive(Debug, PartialEq, Eq)]
pub struct NoirProof {
    pub proof_bytes: Vec<u8>,
    pub public_inputs: Vec<String>,
}

/// What a decoded proof is, mathematically.
pub struct NoirProofView {
    pub proof_bytes: Seq<u8>,
    pub public_inputs: Seq<Seq<char>>,
}

impl View for NoirProof {
    type V = NoirProofView;

    open spec fn view(&self) -> NoirProofView {
        NoirProofView {
            proof_bytes: self.proof_bytes@,
            public_inputs: strings_view(self.public_inputs@),
        }
    }
}

/// Notification: a poll was created.
#[derive(Debug, PartialEq, Eq)]
pub struct PollCreated {
    pub poll_id: u32,
    pub creator: Address,
    pub title: String,
}

/// Notification: a vote was accepted.
#[derive(Debug, PartialEq, Eq, Clone, Copy)]
pub struct VoteCast {
    pub poll_id: u32,
    pub nullifier: [u8; 32],
    pub vote_choice: u32,
}

/// Notification: a poll was closed by its creator, with its final vote count.
#[derive(Debug, PartialEq, Eq, Clone, Copy)]
pub struct PollEnded {
    pub poll_id: u32,
    pub total_votes: u32,
}

/// Notification: the verification key was replaced.
#[derive(Debug, PartialEq, Eq, Clone, Copy)]
pub struct VerificationKeyUpdated {
    pub updated_by: Address,
}

/// Whether two 32-byte values hold the same bytes.
pub fn same_bytes(a: &[u8; 32], b: &[u8; 32]) -> (r: bool)
    ensures
        r == (a@ == b@),
{
    let mut i: usize = 0;
    while i < 32
        invariant
            i <= 32,
            forall|j: int| 0 <= j < i ==> a@[j] == b@[j],
        decreases 32 - i,
    {
        if a[i] != b[i] {
            return false;
        }
        i += 1;
    }
    assert(a@ =~= b@);
    true
}

impl Poll {
    /// A copy of the record.
    pub fn duplicate(&self) -> (r: Poll)
        ensures
            r@ == self@,
    {
        let mut options: Vec<String> = Vec::new();
        let mut i: usize = 0;
        while i < self.options.len()
            invariant
                i <= self.options.len(),
                options.len() == i,
                forall|j: int| 0 <= j < i ==> options@[j]@ == self.options@[j]@,
            decreases self.options.len() - i,
        {
            options.push(self.options[i].clone());
            i += 1;
        }
        assert(strings_view(options@) =~= strings_view(self.options@));
        Poll {
            id: self.id,
            title: self.title.clone(),
            description: self.description.clone(),
            options,
            merkle_root: self.merkle_root,
            creator: self.creator,
            is_active: self.is_active,
            total_votes: self.total_votes,
            end_block: self.end_block,
        }
    }
}

} // verus!
