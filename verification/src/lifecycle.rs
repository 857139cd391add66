//! The poll lifecycle manager: owns the poll table, the nullifier ledger, the
//! vote tally and the verification key, and decides every operation on them.
//! Every check of an operation is made before anything is written, so an
//! operation that fails leaves the state as it was.

use vstd::prelude::*;
use crate::error::Error;
use crate::ledger::NullifierLedger;
use crate::proof_check::{proof_verdict, verify_proof};
use crate::state::{
    count_at, create_step, end_step, initial_state, is_zero_nullifier, lemma_create_keeps_valid,
    lemma_end_keeps_valid, lemma_vote_keeps_valid, results_of, seq_sum, valid, vote_checks,
    vote_step, VoteUpdate, ZKPollView,
};
use crate::tally::VoteTally;
use crate::types::{
    same_bytes, strings_view, Address, Poll, PollCreated, PollEnded, PollView, ProofData,
    VerificationKeyUpdated, VoteCast,
};

verus! {

/// The poll lifecycle manager.
pub struct ZKPoll {
    next_poll_id: u32,
    polls: Vec<Poll>,
    used_nullifiers: NullifierLedger,
    poll_results: VoteTally,
    verification_key: Option<Vec<u8>>,
}

/// Whether a nullifier has the accepted format: not all zeros.
pub fn validate_nullifier_format(nullifier: &[u8; 32]) -> (r: bool)
    ensures
        r == !is_zero_nullifier(nullifier@),
{
    let mut i: usize = 0;
    while i < 32
        invariant
            i <= 32,
            forall|j: int| 0 <= j < i ==> nullifier@[j] == 0,
        decreases 32 - i,
    {
        if nullifier[i] != 0 {
            return true;
        }
        i += 1;
    }
    false
}

/// Decides a vote on `poll` from what the tables hold for it: whether the
/// nullifier is consumed for this poll and the current `count` of the chosen
/// option. Nothing is written; an accepted vote comes back as the values to
/// write.
pub fn check_vote(
    poll: &Poll,
    nullifier_used: bool,
    count: u32,
    proof_data: &ProofData,
    verification_key: &Option<Vec<u8>>,
    current_block: u32,
) -> (r: Result<VoteUpdate, Error>)
    ensures
        r == vote_checks(
            poll@,
            nullifier_used,
            count,
            proof_data@,
            verification_key is Some,
            current_block,
        ),
{
    if !poll.is_active || current_block > poll.end_block {
        return Err(Error::PollEnded);
    }
    if nullifier_used {
        return Err(Error::NullifierAlreadyUsed);
    }
    if proof_data.vote_choice as usize >= poll.options.len() {
        return Err(Error::InvalidVoteChoice);
    }
    if !validate_nullifier_format(&proof_data.nullifier) {
        return Err(Error::InvalidNullifierFormat);
    }
    match verify_proof(poll, proof_data, verification_key) {
        Err(e) => {
            return Err(e);
        },
        Ok(accepted) => {
            if !accepted {
                return Err(Error::InvalidProof);
            }
        },
    }
    if count == u32::MAX || poll.total_votes == u32::MAX {
        return Err(Error::ArithmeticOverflow);
    }
    Ok(VoteUpdate { new_count: count + 1, new_total: poll.total_votes + 1 })
}

/// Builds the record of a new poll with id `poll_id`, open until block
/// `current_block + duration_blocks`. Fails where that block, or the id that
/// follows `poll_id`, would wrap.
pub fn open_poll(
    poll_id: u32,
    title: String,
    description: String,
    options: Vec<String>,
    merkle_root: [u8; 32],
    duration_blocks: u32,
    caller: Address,
    current_block: u32,
) -> (r: Result<Poll, Error>)
    ensures
        match r {
            Ok(poll) => {
                &&& current_block + duration_blocks <= u32::MAX
                &&& poll_id < u32::MAX
                &&& poll@ == (PollView {
                    id: poll_id,
                    title: title@,
                    description: description@,
                    options: strings_view(options@),
                    merkle_root: merkle_root@,
                    creator: caller@,
                    is_active: true,
                    total_votes: 0,
                    end_block: (current_block + duration_blocks) as u32,
                })
            },
            Err(e) => e == Error::ArithmeticOverflow && (current_block + duration_blocks > u32::MAX
                || poll_id == u32::MAX),
        },
{
    if duration_blocks > u32::MAX - current_block {
        return Err(Error::ArithmeticOverflow);
    }
    if poll_id == u32::MAX {
        return Err(Error::ArithmeticOverflow);
    }
    Ok(
        Poll {
            id: poll_id,
            title,
            description,
            options,
            merkle_root,
            creator: caller,
            is_active: true,
            total_votes: 0,
            end_block: current_block + duration_blocks,
        },
    )
}

/// The record of `poll` after `caller` has ended it. Only the poll's creator
/// may end it.
pub fn close_poll(poll: &Poll, caller: &Address) -> (r: Result<Poll, Error>)
    ensures
        match r {
            Ok(closed) => poll@.creator == caller@ && closed@ == (PollView {
                is_active: false,
                ..poll@
            }),
            Err(e) => e == Error::NotPollCreator && poll@.creator != caller@,
        },
{
    if !same_bytes(&poll.creator.bytes, &caller.bytes) {
        return Err(Error::NotPollCreator);
    }
    let mut closed = poll.duplicate();
    closed.is_active = false;
    Ok(closed)
}

/// The view of an optional key.
pub open spec fn key_view(key: Option<Vec<u8>>) -> Option<Seq<u8>> {
    match key {
        Some(k) => Some(k@),
        None => None,
    }
}

impl View for ZKPoll {
    type V = ZKPollView;

    closed spec fn view(&self) -> ZKPollView {
        ZKPollView {
            next_poll_id: self.next_poll_id,
            polls: Map::new(
                |id: u32| 1 <= id <= self.polls@.len(),
                |id: u32| self.polls@[id - 1]@,
            ),
            used_nullifiers: self.used_nullifiers@,
            poll_results: self.poll_results@,
            verification_key: key_view(self.verification_key),
        }
    }
}

impl ZKPoll {
    /// The polls are stored in the order of their ids.
    pub closed spec fn well_stored(&self) -> bool {
        self.polls@.len() + 1 == self.next_poll_id
    }

    /// The manager's invariant. Constructors establish it, operations keep it.
    pub open spec fn wf(&self) -> bool {
        self.well_stored() && valid(self@)
    }

    /// A manager without polls and without a verification key.
    pub fn new() -> (r: ZKPoll)
        ensures
            r.wf(),
            r@ == initial_state(None),
    {
        let r = ZKPoll {
            next_poll_id: 1,
            polls: Vec::new(),
            used_nullifiers: NullifierLedger::new(),
            poll_results: VoteTally::new(),
            verification_key: None,
        };
        assert(r@.polls =~= Map::<u32, PollView>::empty());
        r
    }

    /// A manager without polls, with a verification key.
    pub fn new_with_vk(verification_key: Vec<u8>) -> (r: ZKPoll)
        ensures
            r.wf(),
            r@ == initial_state(Some(verification_key@)),
    {
        let r = ZKPoll {
            next_poll_id: 1,
            polls: Vec::new(),
            used_nullifiers: NullifierLedger::new(),
            poll_results: VoteTally::new(),
            verification_key: Some(verification_key),
        };
        assert(r@.polls =~= Map::<u32, PollView>::empty());
        r
    }

    /// The same as `new`.
    pub fn default() -> (r: ZKPoll)
        ensures
            r.wf(),
            r@ == initial_state(None),
    {
        ZKPoll::new()
    }

    /// Replaces the verification key and reports who did.
    pub fn set_verification_key(&mut self, verification_key: Vec<u8>, caller: Address) -> (r:
        Result<VerificationKeyUpdated, Error>)
        requires
            old(self).wf(),
        ensures
            final(self).wf(),
            final(self)@ == (ZKPollView {
                verification_key: Some(verification_key@),
                ..old(self)@
            }),
            r == Ok::<VerificationKeyUpdated, Error>(VerificationKeyUpdated { updated_by: caller }),
    {
        self.verification_key = Some(verification_key);
        proof {
            assert(self@.polls =~= old(self)@.polls);
            assert forall|id: u32| #[trigger] self@.polls.contains_key(id) implies seq_sum(
                results_of(self@, id),
            ) == self@.polls[id].total_votes by {
                assert(old(self)@.polls.contains_key(id));
                assert(results_of(self@, id) =~= results_of(old(self)@, id));
            }
        }
        Ok(VerificationKeyUpdated { updated_by: caller })
    }

    /// Creates a poll that accepts votes up to block `current_block +
    /// duration_blocks`, and reports it with its new id.
    pub fn create_poll(
        &mut self,
        title: String,
        description: String,
        options: Vec<String>,
        merkle_root: [u8; 32],
        duration_blocks: u32,
        caller: Address,
        current_block: u32,
    ) -> (r: Result<PollCreated, Error>)
        requires
            old(self).wf(),
        ensures
            final(self).wf(),
            match create_step(
                old(self)@,
                title@,
                description@,
                strings_view(options@),
                merkle_root@,
                duration_blocks,
                caller@,
                current_block,
            ) {
                Ok(post) => final(self)@ == post && r == Ok::<PollCreated, Error>(
                    PollCreated { poll_id: old(self)@.next_poll_id, creator: caller, title },
                ),
                Err(e) => final(self)@ == old(self)@ && r == Err::<PollCreated, Error>(e),
            },
    {
        let poll_id: u32 = self.next_poll_id;
        let poll = match open_poll(
            poll_id,
            title.clone(),
            description,
            options,
            merkle_root,
            duration_blocks,
            caller,
            current_block,
        ) {
            Ok(poll) => poll,
            Err(e) => {
                return Err(e);
            },
        };
        proof {
            lemma_create_keeps_valid(
                old(self)@,
                title@,
                description@,
                strings_view(options@),
                merkle_root@,
                duration_blocks,
                caller@,
                current_block,
            );
        }
        self.polls.push(poll);
        self.next_poll_id = poll_id + 1;
        proof {
            let post = create_step(
                old(self)@,
                title@,
                description@,
                strings_view(options@),
                merkle_root@,
                duration_blocks,
                caller@,
                current_block,
            )->Ok_0;
            assert(self@.polls =~= post.polls);
        }
        Ok(PollCreated { poll_id, creator: caller, title })
    }

    /// Casts a vote at block `current_block`. Every check is made before
    /// anything is written, so a refused vote changes nothing.
    pub fn vote(&mut self, poll_id: u32, proof_data: ProofData, current_block: u32) -> (r: Result<
        VoteCast,
        Error,
    >)
        requires
            old(self).wf(),
        ensures
            final(self).wf(),
            match vote_step(old(self)@, poll_id, proof_data@, current_block) {
                Ok(post) => final(self)@ == post && r == Ok::<VoteCast, Error>(
                    VoteCast {
                        poll_id,
                        nullifier: proof_data.nullifier,
                        vote_choice: proof_data.vote_choice,
                    },
                ),
                Err(e) => final(self)@ == old(self)@ && r == Err::<VoteCast, Error>(e),
            },
    {
        if poll_id == 0 || poll_id >= self.next_poll_id {
            return Err(Error::PollNotFound);
        }
        let at: usize = (poll_id - 1) as usize;
        let poll = &self.polls[at];
        assert(poll@ == self@.polls[poll_id]);
        let nullifier_used = self.used_nullifiers.is_used(poll_id, &proof_data.nullifier);
        let count = self.poll_results.get_count(poll_id, proof_data.vote_choice);
        let update = match check_vote(
            poll,
            nullifier_used,
            count,
            &proof_data,
            &self.verification_key,
            current_block,
        ) {
            Ok(update) => update,
            Err(e) => {
                return Err(e);
            },
        };
        let mut updated = poll.duplicate();
        updated.total_votes = update.new_total;
        proof {
            lemma_vote_keeps_valid(old(self)@, poll_id, proof_data@, current_block);
        }
        self.used_nullifiers.mark_used(poll_id, &proof_data.nullifier);
        let _ = self.poll_results.increment(poll_id, proof_data.vote_choice);
        self.polls.set(at, updated);
        proof {
            let post = vote_step(old(self)@, poll_id, proof_data@, current_block)->Ok_0;
            assert(self@.polls =~= post.polls);
        }
        Ok(
            VoteCast {
                poll_id,
                nullifier: proof_data.nullifier,
                vote_choice: proof_data.vote_choice,
            },
        )
    }

    /// Ends a poll on behalf of `caller`, and reports its final vote count.
    pub fn end_poll(&mut self, poll_id: u32, caller: Address) -> (r: Result<PollEnded, Error>)
        requires
            old(self).wf(),
        ensures
            final(self).wf(),
            match end_step(old(self)@, poll_id, caller@) {
                Ok(post) => final(self)@ == post && r == Ok::<PollEnded, Error>(
                    PollEnded { poll_id, total_votes: old(self)@.polls[poll_id].total_votes },
                ),
                Err(e) => final(self)@ == old(self)@ && r == Err::<PollEnded, Error>(e),
            },
    {
        if poll_id == 0 || poll_id >= self.next_poll_id {
            return Err(Error::PollNotFound);
        }
        let at: usize = (poll_id - 1) as usize;
        let poll = &self.polls[at];
        assert(poll@ == self@.polls[poll_id]);
        let updated = match close_poll(poll, &caller) {
            Ok(closed) => closed,
            Err(e) => {
                return Err(e);
            },
        };
        let total_votes: u32 = updated.total_votes;
        proof {
            lemma_end_keeps_valid(old(self)@, poll_id, caller@);
        }
        self.polls.set(at, updated);
        proof {
            let post = end_step(old(self)@, poll_id, caller@)->Ok_0;
            assert(self@.polls =~= post.polls);
        }
        Ok(PollEnded { poll_id, total_votes })
    }

    /// The poll stored under `poll_id`, if there is one.
    pub fn get_poll(&self, poll_id: u32) -> (r: Option<Poll>)
        requires
            self.wf(),
        ensures
            match r {
                Some(p) => self@.polls.contains_key(poll_id) && p@ == self@.polls[poll_id],
                None => !self@.polls.contains_key(poll_id),
            },
    {
        if poll_id == 0 || poll_id >= self.next_poll_id {
            return None;
        }
        Some(self.polls[(poll_id - 1) as usize].duplicate())
    }

    /// The counts of a poll, one per option in the order of its options. They
    /// add up to the poll's total votes. There is no answer for a poll with
    /// more options than 32-bit option ids.
    pub fn get_results(&self, poll_id: u32) -> (r: Option<Vec<u32>>)
        requires
            self.wf(),
        ensures
            r is Some <==> self@.polls.contains_key(poll_id) && self@.polls[poll_id].options.len()
                <= u32::MAX + 1,
            r matches Some(counts) ==> counts@ == results_of(self@, poll_id) && seq_sum(counts@)
                == self@.polls[poll_id].total_votes,
    {
        if poll_id == 0 || poll_id >= self.next_poll_id {
            return None;
        }
        let poll = &self.polls[(poll_id - 1) as usize];
        assert(poll@ == self@.polls[poll_id]);
        let mut results: Vec<u32> = Vec::new();
        let mut i: usize = 0;
        while i < poll.options.len()
            invariant
                self.wf(),
                self@.polls.contains_key(poll_id),
                poll@ == self@.polls[poll_id],
                self.poll_results@ == self@.poll_results,
                i <= poll.options@.len(),
                results@.len() == i,
                i <= u32::MAX + 1,
                forall|j: int|
                    0 <= j < i ==> results@[j] == count_at(self.poll_results@, poll_id, j),
            decreases poll.options.len() - i,
        {
            if i > u32::MAX as usize {
                return None;
            }
            let votes = self.poll_results.get_count(poll_id, i as u32);
            results.push(votes);
            i += 1;
        }
        assert(results@ =~= results_of(self@, poll_id));
        Some(results)
    }

    /// Whether `nullifier` is consumed for poll `poll_id`.
    pub fn is_nullifier_used(&self, poll_id: u32, nullifier: [u8; 32]) -> (r: bool)
        ensures
            r == self@.used_nullifiers.contains((poll_id, nullifier@)),
    {
        self.used_nullifiers.is_used(poll_id, &nullifier)
    }

    /// Verifies the proof submitted with a vote on `poll` against the stored
    /// verification key. Changes nothing.
    pub fn verify_zk_proof(&self, poll: &Poll, proof_data: &ProofData) -> (r: Result<bool, Error>)
        ensures
            r == proof_verdict(poll@, proof_data@, self@.verification_key is Some),
    {
        verify_proof(poll, proof_data, &self.verification_key)
    }

    /// A copy of the verification key, if one is set.
    pub fn get_verification_key(&self) -> (r: Option<Vec<u8>>)
        ensures
            key_view(r) == self@.verification_key,
    {
        match &self.verification_key {
            Some(k) => Some(k.clone()),
            None => None,
        }
    }

    /// Whether a verification key is set.
    pub fn has_verification_key(&self) -> (r: bool)
        ensures
            r == self@.verification_key is Some,
    {
        self.verification_key.is_some()
    }
}

} // verus!
