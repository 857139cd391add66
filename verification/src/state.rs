//! The mathematical state of the polling system, the step that each
//! operation takes on it, its invariant, and the laws that hold of the steps.

use vstd::prelude::*;
use crate::codec::{encodable, encode_proof};
use crate::error::Error;
use crate::proof_check::{lemma_expected_proof_verifies, proof_verdict, MAX_PROOF_BYTES};
use crate::public_inputs::expected_public_inputs;
use crate::types::{NoirProofView, PollView, ProofDataView};

verus! {

/// What the manager's state is, mathematically.
pub struct ZKPollView {
    /// The id that the next poll will get.
    pub next_poll_id: u32,
    /// The polls by id.
    pub polls: Map<u32, PollView>,
    /// The consumed (poll, nullifier) pairs.
    pub used_nullifiers: Set<(u32, Seq<u8>)>,
    /// The count of every (poll, option); 0 where no vote was cast.
    pub poll_results: Map<(u32, u32), u32>,
    /// The verification key, if one is set.
    pub verification_key: Option<Seq<u8>>,
}

/// The state before any poll exists.
pub open spec fn initial_state(verification_key: Option<Seq<u8>>) -> ZKPollView {
    ZKPollView {
        next_poll_id: 1,
        polls: Map::empty(),
        used_nullifiers: Set::empty(),
        poll_results: Map::total(|k: (u32, u32)| 0u32),
        verification_key,
    }
}

/// The count of option `i` of a poll; 0 for an index that no 32-bit option id reaches.
pub open spec fn count_at(results: Map<(u32, u32), u32>, poll_id: u32, i: int) -> u32 {
    if 0 <= i <= u32::MAX {
        results[(poll_id, i as u32)]
    } else {
        0
    }
}

/// The counts of a poll, one per option, in the order of its options.
pub open spec fn results_of(v: ZKPollView, poll_id: u32) -> Seq<u32> {
    Seq::new(v.polls[poll_id].options.len(), |i: int| count_at(v.poll_results, poll_id, i))
}

/// The sum of a list of counts.
pub open spec fn seq_sum(s: Seq<u32>) -> nat
    decreases s.len(),
{
    if s.len() == 0 {
        0
    } else {
        seq_sum(s.drop_last()) + s.last() as nat
    }
}

/// The invariant of the state: ids run from 1 to below the next id, each poll
/// is stored under its own id, the votes counted for a poll's options add up
/// to its total, and no count exists for a poll that was not created yet.
pub open spec fn valid(v: ZKPollView) -> bool {
    &&& v.next_poll_id >= 1
    &&& forall|id: u32| #[trigger] v.polls.contains_key(id) <==> 1 <= id < v.next_poll_id
    &&& forall|id: u32| #[trigger] v.polls.contains_key(id) ==> v.polls[id].id == id
    &&& forall|id: u32| #[trigger]
        v.polls.contains_key(id) ==> seq_sum(results_of(v, id)) == v.polls[id].total_votes
    &&& forall|k: (u32, u32)| #[trigger] v.poll_results.contains_key(k)
    &&& forall|k: (u32, u32)| k.0 >= v.next_poll_id ==> #[trigger] v.poll_results[k] == 0
}

/// A nullifier of zeros only, which is never accepted.
pub open spec fn is_zero_nullifier(n: Seq<u8>) -> bool {
    forall|i: int| 0 <= i < n.len() ==> n[i] == 0
}

/// Creating a poll: fails where the end block or the next id would wrap;
/// else stores the poll, active and without votes, under the next id.
pub open spec fn create_step(
    v: ZKPollView,
    title: Seq<char>,
    description: Seq<char>,
    options: Seq<Seq<char>>,
    merkle_root: Seq<u8>,
    duration_blocks: u32,
    caller: Seq<u8>,
    current_block: u32,
) -> Result<ZKPollView, Error> {
    if current_block + duration_blocks > u32::MAX || v.next_poll_id == u32::MAX {
        Err(Error::ArithmeticOverflow)
    } else {
        Ok(
            ZKPollView {
                next_poll_id: (v.next_poll_id + 1) as u32,
                polls: v.polls.insert(
                    v.next_poll_id,
                    PollView {
                        id: v.next_poll_id,
                        title,
                        description,
                        options,
                        merkle_root,
                        creator: caller,
                        is_active: true,
                        total_votes: 0,
                        end_block: (current_block + duration_blocks) as u32,
                    },
                ),
                ..v
            },
        )
    }
}

/// What an accepted vote writes: the new count of the chosen option and the
/// new total of the poll.
#[derive(Debug, PartialEq, Eq, Structural, Clone, Copy)]
pub struct VoteUpdate {
    pub new_count: u32,
    pub new_total: u32,
}

/// The checks on a vote for a poll that exists, in their order, each with its
/// error: the poll is open at `current_block`, the nullifier is fresh, the
/// option is one of the poll's, the nullifier is not all zeros,
/// the proof verifies, and neither the option's `count` nor the poll's total
/// would wrap.
pub open spec fn vote_checks(
    poll: PollView,
    nullifier_used: bool,
    count: u32,
    data: ProofDataView,
    has_key: bool,
    current_block: u32,
) -> Result<VoteUpdate, Error> {
    if !poll.is_active || current_block > poll.end_block {
        Err(Error::PollEnded)
    } else if nullifier_used {
        Err(Error::NullifierAlreadyUsed)
    } else if data.vote_choice >= poll.options.len() {
        Err(Error::InvalidVoteChoice)
    } else if is_zero_nullifier(data.nullifier) {
        Err(Error::InvalidNullifierFormat)
    } else {
        match proof_verdict(poll, data, has_key) {
            Err(e) => Err(e),
            Ok(false) => Err(Error::InvalidProof),
            Ok(true) => if count == u32::MAX || poll.total_votes == u32::MAX {
                Err(Error::ArithmeticOverflow)
            } else {
                Ok(
                    VoteUpdate {
                        new_count: (count + 1) as u32,
                        new_total: (poll.total_votes + 1) as u32,
                    },
                )
            },
        }
    }
}

/// Voting: fails where the poll does not exist or a check refuses the vote;
/// else the nullifier is consumed, the option's count and the poll's total
/// grow by one, and nothing else changes.
pub open spec fn vote_step(v: ZKPollView, poll_id: u32, data: ProofDataView, current_block: u32)
    -> Result<ZKPollView, Error> {
    if !v.polls.contains_key(poll_id) {
        Err(Error::PollNotFound)
    } else {
        let poll = v.polls[poll_id];
        match vote_checks(
            poll,
            v.used_nullifiers.contains((poll_id, data.nullifier)),
            v.poll_results[(poll_id, data.vote_choice)],
            data,
            v.verification_key is Some,
            current_block,
        ) {
            Err(e) => Err(e),
            Ok(update) => Ok(
                ZKPollView {
                    polls: v.polls.insert(
                        poll_id,
                        PollView { total_votes: update.new_total, ..poll },
                    ),
                    used_nullifiers: v.used_nullifiers.insert((poll_id, data.nullifier)),
                    poll_results: v.poll_results.insert(
                        (poll_id, data.vote_choice),
                        update.new_count,
                    ),
                    ..v
                },
            ),
        }
    }
}

/// Ending a poll: only its creator may; the poll then stops being active.
pub open spec fn end_step(v: ZKPollView, poll_id: u32, caller: Seq<u8>) -> Result<
    ZKPollView,
    Error,
> {
    if !v.polls.contains_key(poll_id) {
        Err(Error::PollNotFound)
    } else if v.polls[poll_id].creator != caller {
        Err(Error::NotPollCreator)
    } else {
        Ok(
            ZKPollView {
                polls: v.polls.insert(poll_id, PollView { is_active: false, ..v.polls[poll_id] }),
                ..v
            },
        )
    }
}

/// Replacing one count changes the sum by the difference.
pub proof fn lemma_seq_sum_update(s: Seq<u32>, i: int, x: u32)
    requires
        0 <= i < s.len(),
    ensures
        seq_sum(s.update(i, x)) + s[i] == seq_sum(s) + x,
    decreases s.len(),
{
    let t = s.update(i, x);
    if i == s.len() - 1 {
        assert(t.drop_last() =~= s.drop_last());
    } else {
        assert(t.drop_last() =~= s.drop_last().update(i, x));
        lemma_seq_sum_update(s.drop_last(), i, x);
    }
}

/// Counts that are all 0 add up to 0.
pub proof fn lemma_seq_sum_zero(s: Seq<u32>)
    requires
        forall|i: int| 0 <= i < s.len() ==> s[i] == 0,
    ensures
        seq_sum(s) == 0,
    decreases s.len(),
{
    if s.len() > 0 {
        lemma_seq_sum_zero(s.drop_last());
    }
}

/// A created poll leaves the state valid.
pub proof fn lemma_create_keeps_valid(
    v: ZKPollView,
    title: Seq<char>,
    description: Seq<char>,
    options: Seq<Seq<char>>,
    merkle_root: Seq<u8>,
    duration_blocks: u32,
    caller: Seq<u8>,
    current_block: u32,
)
    requires
        valid(v),
    ensures
        create_step(
            v,
            title,
            description,
            options,
            merkle_root,
            duration_blocks,
            caller,
            current_block,
        ) matches Ok(post) ==> valid(post),
{
    let step = create_step(
        v,
        title,
        description,
        options,
        merkle_root,
        duration_blocks,
        caller,
        current_block,
    );
    if let Ok(post) = step {
        assert forall|id: u32| #[trigger] post.polls.contains_key(id) implies seq_sum(
            results_of(post, id),
        ) == post.polls[id].total_votes by {
            if id == v.next_poll_id {
                assert forall|i: int| 0 <= i < results_of(post, id).len() implies results_of(
                    post,
                    id,
                )[i] == 0 by {
                    if 0 <= i <= u32::MAX {
                        assert(post.poll_results[(id, i as u32)] == 0);
                    }
                }
                lemma_seq_sum_zero(results_of(post, id));
            } else {
                assert(v.polls.contains_key(id));
                assert(results_of(post, id) =~= results_of(v, id));
            }
        }
    }
}

/// An accepted vote leaves the state valid.
pub proof fn lemma_vote_keeps_valid(
    v: ZKPollView,
    poll_id: u32,
    data: ProofDataView,
    current_block: u32,
)
    requires
        valid(v),
    ensures
        vote_step(v, poll_id, data, current_block) matches Ok(post) ==> valid(post),
{
    if let Ok(post) = vote_step(v, poll_id, data, current_block) {
        assert forall|id: u32| #[trigger] post.polls.contains_key(id) implies seq_sum(
            results_of(post, id),
        ) == post.polls[id].total_votes by {
            assert(v.polls.contains_key(id));
            if id == poll_id {
                let choice = data.vote_choice as int;
                let next = (v.poll_results[(poll_id, data.vote_choice)] + 1) as u32;
                assert(results_of(post, id) =~= results_of(v, id).update(choice, next));
                lemma_seq_sum_update(results_of(v, id), choice, next);
            } else {
                assert(results_of(post, id) =~= results_of(v, id));
            }
        }
    }
}

/// An ended poll leaves the state valid.
pub proof fn lemma_end_keeps_valid(v: ZKPollView, poll_id: u32, caller: Seq<u8>)
    requires
        valid(v),
    ensures
        end_step(v, poll_id, caller) matches Ok(post) ==> valid(post),
{
    if let Ok(post) = end_step(v, poll_id, caller) {
        assert forall|id: u32| #[trigger] post.polls.contains_key(id) implies seq_sum(
            results_of(post, id),
        ) == post.polls[id].total_votes by {
            assert(v.polls.contains_key(id));
            assert(results_of(post, id) =~= results_of(v, id));
        }
    }
}

/// The state before any poll exists is valid.
pub proof fn lemma_initial_valid(verification_key: Option<Seq<u8>>)
    ensures
        valid(initial_state(verification_key)),
{
}

/// In a valid state the counts of a poll's options add up to its total
/// votes. Every operation keeps the state valid, so this holds after any
/// sequence of votes.
pub proof fn lemma_results_sum_to_total(v: ZKPollView, poll_id: u32)
    requires
        valid(v),
        v.polls.contains_key(poll_id),
    ensures
        seq_sum(results_of(v, poll_id)) == v.polls[poll_id].total_votes,
{
}

/// After an accepted vote, a second vote on the same poll with the same
/// nullifier is refused as already used, whatever option or proof it brings,
/// as long as the poll's end block has not passed.
pub proof fn lemma_second_vote_rejected(
    v: ZKPollView,
    poll_id: u32,
    first: ProofDataView,
    first_block: u32,
    second: ProofDataView,
    second_block: u32,
)
    requires
        vote_step(v, poll_id, first, first_block) is Ok,
        second.nullifier == first.nullifier,
        second_block <= v.polls[poll_id].end_block,
    ensures
        vote_step(vote_step(v, poll_id, first, first_block)->Ok_0, poll_id, second, second_block)
            == Err::<ZKPollView, Error>(Error::NullifierAlreadyUsed),
{
}

/// What no operation undoes: polls are never deleted, an ended poll stays
/// ended, a consumed nullifier stays consumed, and no count decreases.
pub open spec fn never_undone(pre: ZKPollView, post: ZKPollView) -> bool {
    &&& pre.next_poll_id <= post.next_poll_id
    &&& forall|id: u32| #[trigger]
        pre.polls.contains_key(id) ==> post.polls.contains_key(id) && (!pre.polls[id].is_active
            ==> !post.polls[id].is_active) && pre.polls[id].total_votes
            <= post.polls[id].total_votes
    &&& forall|k: (u32, Seq<u8>)| #[trigger]
        pre.used_nullifiers.contains(k) ==> post.used_nullifiers.contains(k)
    &&& forall|k: (u32, u32)| pre.poll_results[k] <= #[trigger] post.poll_results[k]
}

/// Creating a poll undoes nothing.
pub proof fn lemma_create_undoes_nothing(
    v: ZKPollView,
    title: Seq<char>,
    description: Seq<char>,
    options: Seq<Seq<char>>,
    merkle_root: Seq<u8>,
    duration_blocks: u32,
    caller: Seq<u8>,
    current_block: u32,
)
    requires
        valid(v),
    ensures
        create_step(
            v,
            title,
            description,
            options,
            merkle_root,
            duration_blocks,
            caller,
            current_block,
        ) matches Ok(post) ==> never_undone(v, post),
{
}

/// An accepted vote undoes nothing.
pub proof fn lemma_vote_undoes_nothing(
    v: ZKPollView,
    poll_id: u32,
    data: ProofDataView,
    current_block: u32,
)
    ensures
        vote_step(v, poll_id, data, current_block) matches Ok(post) ==> never_undone(v, post),
{
}

/// Ending a poll undoes nothing.
pub proof fn lemma_end_undoes_nothing(v: ZKPollView, poll_id: u32, caller: Seq<u8>)
    ensures
        end_step(v, poll_id, caller) matches Ok(post) ==> never_undone(v, post),
{
}

/// A vote that passes every check is accepted: on an open poll, with a fresh
/// nullifier that is not all zeros, for one of the poll's options,
/// with a verification key set and counters below their maximum, a proof of
/// 1 to 10000 raw bytes that carries the expected public inputs succeeds.
pub proof fn lemma_expected_vote_accepted(
    v: ZKPollView,
    poll_id: u32,
    data: ProofDataView,
    raw: Seq<u8>,
    current_block: u32,
)
    requires
        v.polls.contains_key(poll_id),
        v.polls[poll_id].is_active,
        current_block <= v.polls[poll_id].end_block,
        !v.used_nullifiers.contains((poll_id, data.nullifier)),
        data.vote_choice < v.polls[poll_id].options.len(),
        !is_zero_nullifier(data.nullifier),
        v.verification_key is Some,
        v.poll_results[(poll_id, data.vote_choice)] < u32::MAX,
        v.polls[poll_id].total_votes < u32::MAX,
        v.polls[poll_id].merkle_root.len() == 32,
        data.nullifier.len() == 32,
        v.polls[poll_id].options.len() <= u128::MAX,
        0 < raw.len() <= MAX_PROOF_BYTES,
        encodable(
            NoirProofView {
                proof_bytes: raw,
                public_inputs: expected_public_inputs(v.polls[poll_id], data.nullifier),
            },
        ),
        data.proof == encode_proof(
            NoirProofView {
                proof_bytes: raw,
                public_inputs: expected_public_inputs(v.polls[poll_id], data.nullifier),
            },
        ),
    ensures
        vote_step(v, poll_id, data, current_block) is Ok,
{
    lemma_expected_proof_verifies(v.polls[poll_id], data, raw);
}

/// On a poll that is open, a vote with a consumed nullifier is refused as
/// already used.
pub proof fn lemma_consumed_nullifier_rejected(
    v: ZKPollView,
    poll_id: u32,
    data: ProofDataView,
    current_block: u32,
)
    requires
        v.polls.contains_key(poll_id),
        v.polls[poll_id].is_active,
        current_block <= v.polls[poll_id].end_block,
        v.used_nullifiers.contains((poll_id, data.nullifier)),
    ensures
        vote_step(v, poll_id, data, current_block) == Err::<ZKPollView, Error>(
            Error::NullifierAlreadyUsed,
        ),
{
}

/// On a poll that is open, a vote with a fresh nullifier for an option that
/// the poll does not have is refused as an invalid choice.
pub proof fn lemma_invalid_choice_rejected(
    v: ZKPollView,
    poll_id: u32,
    data: ProofDataView,
    current_block: u32,
)
    requires
        v.polls.contains_key(poll_id),
        v.polls[poll_id].is_active,
        current_block <= v.polls[poll_id].end_block,
        !v.used_nullifiers.contains((poll_id, data.nullifier)),
        data.vote_choice >= v.polls[poll_id].options.len(),
    ensures
        vote_step(v, poll_id, data, current_block) == Err::<ZKPollView, Error>(
            Error::InvalidVoteChoice,
        ),
{
}

/// On a poll that is open, a vote for one of its options with the all-zero
/// nullifier is refused for the nullifier's format.
pub proof fn lemma_zero_nullifier_rejected(
    v: ZKPollView,
    poll_id: u32,
    data: ProofDataView,
    current_block: u32,
)
    requires
        v.polls.contains_key(poll_id),
        v.polls[poll_id].is_active,
        current_block <= v.polls[poll_id].end_block,
        !v.used_nullifiers.contains((poll_id, data.nullifier)),
        data.vote_choice < v.polls[poll_id].options.len(),
        is_zero_nullifier(data.nullifier),
    ensures
        vote_step(v, poll_id, data, current_block) == Err::<ZKPollView, Error>(
            Error::InvalidNullifierFormat,
        ),
{
}

} // verus!
