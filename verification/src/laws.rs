use vstd::prelude::*;

use crate::errors::ErrorCode;
use crate::model::{
    counted_ballots, has_ballot, lemma_counted_absent, lemma_counted_push,
    spec_close_proposal, spec_create_proposal, spec_initialize_dao, spec_vote, BallotModel,
    ProposalModel, StateModel, MAX_DESCRIPTION_LEN, REWARD_AMOUNT,
};

verus! {

/// Proposal creation preserves well-formedness. It succeeds exactly when
/// the description fits the byte budget; on success it appends one record
/// carrying the next sequential id with zero tallies and advances the
/// registry counter by one, touching nothing else; on failure it changes
/// nothing at all.
pub proof fn lemma_create_proposal_step(s: StateModel, d: Seq<u8>)
    requires
        s.wf(),
    ensures
        spec_create_proposal(s, d).0.wf(),
        ((spec_create_proposal(s, d).1 is Ok) <==> d.len() <= MAX_DESCRIPTION_LEN),
        d.len() > MAX_DESCRIPTION_LEN ==> spec_create_proposal(s, d) == (
            s,
            Err::<(), ErrorCode>(ErrorCode::DescriptionTooLong),
        ),
        d.len() <= MAX_DESCRIPTION_LEN ==> spec_create_proposal(s, d).0 == (StateModel {
            dao: crate::model::DaoModel {
                bump: s.dao.bump,
                proposal_count: s.dao.proposal_count + 1,
            },
            proposals: s.proposals.push(
                ProposalModel {
                    id: s.dao.proposal_count,
                    description: d,
                    votes_for: 0,
                    votes_against: 0,
                    is_active: true,
                },
            ),
            ballots: s.ballots,
            vault_balance: s.vault_balance,
        }),
{
    if d.len() <= MAX_DESCRIPTION_LEN {
        let t0 = spec_create_proposal(s, d).0;
        assert(forall|j: int|
            0 <= j < s.ballots.len() ==> (#[trigger] s.ballots[j]).proposal_id
                != s.dao.proposal_count);
        lemma_counted_absent(s.ballots, s.dao.proposal_count, true);
        lemma_counted_absent(s.ballots, s.dao.proposal_count, false);
        assert(t0.wf());
    }
}

/// A vote preserves well-formedness and is all-or-nothing. It is accepted
/// exactly when the proposal exists and is open, the voter holds no ballot
/// on it yet, and the vault holds a full reward. An accepted vote raises
/// exactly one tally counter of exactly one proposal by exactly one,
/// appends the one witnessing ballot, moves exactly one reward from the
/// vault to the voter, and touches nothing else. A rejected vote reports
/// which precondition failed and changes nothing at all.
pub proof fn lemma_vote_step(s: StateModel, voter: u64, pid: nat, vote_for: bool, bal: nat)
    requires
        s.wf(),
    ensures
        spec_vote(s, voter, pid, vote_for, bal).0.wf(),
        spec_vote(s, voter, pid, vote_for, bal).0.proposals.len() == s.proposals.len(),
        spec_vote(s, voter, pid, vote_for, bal).0.dao == s.dao,
        ((spec_vote(s, voter, pid, vote_for, bal).2 is Err) ==> spec_vote(
            s,
            voter,
            pid,
            vote_for,
            bal,
        ).0 == s && spec_vote(s, voter, pid, vote_for, bal).1 == bal),
        ((spec_vote(s, voter, pid, vote_for, bal).2 is Ok) <==> (pid < s.proposals.len()
            && s.proposals[pid as int].is_active && !has_ballot(s.ballots, pid, voter)
            && s.vault_balance >= REWARD_AMOUNT)),
        (spec_vote(s, voter, pid, vote_for, bal).2 == Err::<(), ErrorCode>(
            ErrorCode::ProposalNotActive,
        ) <==> (pid >= s.proposals.len() || !s.proposals[pid as int].is_active)),
        (spec_vote(s, voter, pid, vote_for, bal).2 == Err::<(), ErrorCode>(ErrorCode::AlreadyVoted)
            <==> (pid < s.proposals.len() && s.proposals[pid as int].is_active && has_ballot(
            s.ballots,
            pid,
            voter,
        ))),
        (spec_vote(s, voter, pid, vote_for, bal).2 == Err::<(), ErrorCode>(
            ErrorCode::InsufficientVaultBalance,
        ) <==> (pid < s.proposals.len() && s.proposals[pid as int].is_active && !has_ballot(
            s.ballots,
            pid,
            voter,
        ) && s.vault_balance < REWARD_AMOUNT)),
        ((spec_vote(s, voter, pid, vote_for, bal).2 is Ok) ==> spec_vote(
            s,
            voter,
            pid,
            vote_for,
            bal,
        ).0.proposals[pid as int] == (ProposalModel {
            id: s.proposals[pid as int].id,
            description: s.proposals[pid as int].description,
            votes_for: s.proposals[pid as int].votes_for + (if vote_for {
                1nat
            } else {
                0nat
            }),
            votes_against: s.proposals[pid as int].votes_against + (if vote_for {
                0nat
            } else {
                1nat
            }),
            is_active: true,
        })),
        ((spec_vote(s, voter, pid, vote_for, bal).2 is Ok) ==> forall|i: int|
            0 <= i < s.proposals.len() && i != pid ==> spec_vote(
                s,
                voter,
                pid,
                vote_for,
                bal,
            ).0.proposals[i] == (#[trigger] s.proposals[i])),
        ((spec_vote(s, voter, pid, vote_for, bal).2 is Ok) ==> spec_vote(
            s,
            voter,
            pid,
            vote_for,
            bal,
        ).0.ballots == s.ballots.push(BallotModel { proposal_id: pid, voter, vote_for })
            && spec_vote(s, voter, pid, vote_for, bal).0.vault_balance == s.vault_balance
            - REWARD_AMOUNT && spec_vote(s, voter, pid, vote_for, bal).1 == bal + REWARD_AMOUNT),
{
    if pid < s.proposals.len() && s.proposals[pid as int].is_active && !has_ballot(
        s.ballots,
        pid,
        voter,
    ) && s.vault_balance >= REWARD_AMOUNT {
        let t0 = spec_vote(s, voter, pid, vote_for, bal).0;
        let b = BallotModel { proposal_id: pid, voter, vote_for };
        let bs2 = s.ballots.push(b);
        assert(bs2[s.ballots.len() as int] == b);
        assert forall|q: nat| q < s.proposals.len() implies #[trigger] counted_ballots(
            bs2,
            q,
            true,
        ) == counted_ballots(s.ballots, q, true) + (if q == pid && vote_for {
            1nat
        } else {
            0nat
        }) by {
            lemma_counted_push(s.ballots, b, q, true);
        }
        assert forall|q: nat| q < s.proposals.len() implies #[trigger] counted_ballots(
            bs2,
            q,
            false,
        ) == counted_ballots(s.ballots, q, false) + (if q == pid && !vote_for {
            1nat
        } else {
            0nat
        }) by {
            lemma_counted_push(s.ballots, b, q, false);
        }
        assert(forall|j: int|
            0 <= j < s.ballots.len() ==> !((#[trigger] s.ballots[j]).proposal_id == pid
                && s.ballots[j].voter == voter));
        assert(t0.wf());
    }
}

/// Closing preserves well-formedness and is one-way. It succeeds exactly
/// when the proposal exists and is still open; then it turns the lifecycle
/// flag off and leaves the id, the description, both tallies, every other
/// proposal, every ballot, the registry and the vault untouched. Closing
/// an already-closed proposal is an explicit error that changes nothing.
pub proof fn lemma_close_proposal_step(s: StateModel, pid: nat)
    requires
        s.wf(),
    ensures
        spec_close_proposal(s, pid).0.wf(),
        spec_close_proposal(s, pid).0.proposals.len() == s.proposals.len(),
        spec_close_proposal(s, pid).0.dao == s.dao,
        spec_close_proposal(s, pid).0.ballots == s.ballots,
        spec_close_proposal(s, pid).0.vault_balance == s.vault_balance,
        ((spec_close_proposal(s, pid).1 is Ok) <==> (pid < s.proposals.len()
            && s.proposals[pid as int].is_active)),
        ((spec_close_proposal(s, pid).1 is Err) ==> spec_close_proposal(s, pid) == (
            s,
            Err::<(), ErrorCode>(ErrorCode::ProposalNotActive),
        )),
        ((spec_close_proposal(s, pid).1 is Ok) ==> spec_close_proposal(s, pid).0.proposals[pid
            as int] == (ProposalModel {
            id: s.proposals[pid as int].id,
            description: s.proposals[pid as int].description,
            votes_for: s.proposals[pid as int].votes_for,
            votes_against: s.proposals[pid as int].votes_against,
            is_active: false,
        })),
        ((spec_close_proposal(s, pid).1 is Ok) ==> forall|i: int|
            0 <= i < s.proposals.len() && i != pid ==> spec_close_proposal(s, pid).0.proposals[i]
                == (#[trigger] s.proposals[i])),
{
    if pid < s.proposals.len() && s.proposals[pid as int].is_active {
        assert(spec_close_proposal(s, pid).0.wf());
    }
}

/// In every well-formed state, each tally counter equals the number of
/// ballots recorded with that choice, so `votes_for + votes_against` is
/// exactly the number of accepted votes on the proposal: none lost, none
/// counted twice.
pub proof fn lemma_tally_counts_ballots(s: StateModel, pid: nat)
    requires
        s.wf(),
        pid < s.proposals.len(),
    ensures
        s.proposals[pid as int].votes_for == counted_ballots(s.ballots, pid, true),
        s.proposals[pid as int].votes_against == counted_ballots(s.ballots, pid, false),
{
}

/// One vote request: who votes, on which proposal, which way, and the
/// voter's token balance at the time of the call.
pub struct VoteCall {
    pub voter: u64,
    pub proposal_id: nat,
    pub vote_for: bool,
    pub voter_balance: nat,
}

/// The state after the vote calls in `calls` run in order from `s`.
pub open spec fn apply_votes(s: StateModel, calls: Seq<VoteCall>) -> StateModel
    decreases calls.len(),
{
    if calls.len() == 0 {
        s
    } else {
        spec_vote(
            apply_votes(s, calls.drop_last()),
            calls.last().voter,
            calls.last().proposal_id,
            calls.last().vote_for,
            calls.last().voter_balance,
        ).0
    }
}

/// How many of the vote calls in `calls`, run in order from `s`, are
/// accepted and target proposal `pid`.
pub open spec fn accepted_votes(s: StateModel, calls: Seq<VoteCall>, pid: nat) -> nat
    decreases calls.len(),
{
    if calls.len() == 0 {
        0
    } else {
        accepted_votes(s, calls.drop_last(), pid) + (if (spec_vote(
            apply_votes(s, calls.drop_last()),
            calls.last().voter,
            calls.last().proposal_id,
            calls.last().vote_for,
            calls.last().voter_balance,
        ).2 is Ok) && calls.last().proposal_id == pid {
            1nat
        } else {
            0nat
        })
    }
}

/// How many of the vote calls in `calls`, run in order from `s`, are
/// accepted, on whatever proposal.
pub open spec fn accepted_votes_all(s: StateModel, calls: Seq<VoteCall>) -> nat
    decreases calls.len(),
{
    if calls.len() == 0 {
        0
    } else {
        accepted_votes_all(s, calls.drop_last()) + (if (spec_vote(
            apply_votes(s, calls.drop_last()),
            calls.last().voter,
            calls.last().proposal_id,
            calls.last().vote_for,
            calls.last().voter_balance,
        ).2 is Ok) {
            1nat
        } else {
            0nat
        })
    }
}

/// For every sequence of vote calls on a well-formed state: a proposal's
/// `votes_for + votes_against` grows by exactly the number of accepted
/// votes on it — each accepted vote moves exactly one of the two counters
/// by exactly one (`lemma_vote_step`) and rejected votes move nothing —
/// one ballot is recorded per accepted vote, and the vault pays out
/// exactly one reward per accepted vote and not a token more.
pub proof fn lemma_vote_sequence_tally(s: StateModel, calls: Seq<VoteCall>, pid: nat)
    requires
        s.wf(),
        pid < s.proposals.len(),
    ensures
        apply_votes(s, calls).wf(),
        apply_votes(s, calls).proposals.len() == s.proposals.len(),
        apply_votes(s, calls).proposals[pid as int].votes_for + apply_votes(
            s,
            calls,
        ).proposals[pid as int].votes_against == s.proposals[pid as int].votes_for
            + s.proposals[pid as int].votes_against + accepted_votes(s, calls, pid),
        apply_votes(s, calls).ballots.len() == s.ballots.len() + accepted_votes_all(s, calls),
        s.vault_balance == apply_votes(s, calls).vault_balance + accepted_votes_all(s, calls)
            * REWARD_AMOUNT,
    decreases calls.len(),
{
    if calls.len() > 0 {
        let prev = apply_votes(s, calls.drop_last());
        lemma_vote_sequence_tally(s, calls.drop_last(), pid);
        let c = calls.last();
        lemma_vote_step(prev, c.voter, c.proposal_id, c.vote_for, c.voter_balance);
        assert((accepted_votes_all(s, calls.drop_last()) + 1) * REWARD_AMOUNT
            == accepted_votes_all(s, calls.drop_last()) * REWARD_AMOUNT + REWARD_AMOUNT)
            by (nonlinear_arith);
    }
}

/// A vote on a closed proposal is rejected with `ProposalNotActive` and
/// changes nothing: not the tallies, not the ballots, not the vault, and
/// not the voter's balance.
pub proof fn lemma_vote_on_closed_rejected(
    s: StateModel,
    voter: u64,
    pid: nat,
    vote_for: bool,
    bal: nat,
)
    requires
        pid < s.proposals.len(),
        !s.proposals[pid as int].is_active,
    ensures
        spec_vote(s, voter, pid, vote_for, bal) == (
            s,
            bal,
            Err::<(), ErrorCode>(ErrorCode::ProposalNotActive),
        ),
{
}

/// Once a proposal is closed it stays closed under every instruction:
/// any creation, any vote and any closure leave its lifecycle flag off.
/// Together with `lemma_vote_on_closed_rejected`, every vote after a
/// successful closure fails with `ProposalNotActive` and leaves the
/// tallies unchanged.
pub proof fn lemma_closed_is_permanent(s: StateModel, pid: nat)
    requires
        pid < s.proposals.len(),
        !s.proposals[pid as int].is_active,
    ensures
        forall|d: Seq<u8>|
            !(#[trigger] spec_create_proposal(s, d)).0.proposals[pid as int].is_active,
        forall|voter: u64, q: nat, vf: bool, bal: nat|
            !(#[trigger] spec_vote(s, voter, q, vf, bal)).0.proposals[pid as int].is_active,
        forall|q: nat| !(#[trigger] spec_close_proposal(s, q)).0.proposals[pid as int].is_active,
{
}

/// One instruction of the governance surface, with the plain values its
/// handler reads.
pub enum Instruction {
    Create { description: Seq<u8> },
    CastVote { voter: u64, proposal_id: nat, vote_for: bool, voter_balance: nat },
    Close { proposal_id: nat },
}

/// The state after the instructions in `calls` run in order from `s`.
pub open spec fn apply_instructions(s: StateModel, calls: Seq<Instruction>) -> StateModel
    decreases calls.len(),
{
    if calls.len() == 0 {
        s
    } else {
        let prev = apply_instructions(s, calls.drop_last());
        match calls.last() {
            Instruction::Create { description } => spec_create_proposal(prev, description).0,
            Instruction::CastVote { voter, proposal_id, vote_for, voter_balance } => spec_vote(
                prev,
                voter,
                proposal_id,
                vote_for,
                voter_balance,
            ).0,
            Instruction::Close { proposal_id } => spec_close_proposal(prev, proposal_id).0,
        }
    }
}

/// A closed proposal stays closed under every later sequence of
/// instructions, whatever they create, vote on or close.
pub proof fn lemma_closed_forever(s: StateModel, pid: nat, calls: Seq<Instruction>)
    requires
        pid < s.proposals.len(),
        !s.proposals[pid as int].is_active,
    ensures
        pid < apply_instructions(s, calls).proposals.len(),
        !apply_instructions(s, calls).proposals[pid as int].is_active,
    decreases calls.len(),
{
    if calls.len() > 0 {
        lemma_closed_forever(s, pid, calls.drop_last());
        lemma_closed_is_permanent(apply_instructions(s, calls.drop_last()), pid);
    }
}

/// Once `close_proposal` has succeeded on a proposal, every subsequent
/// vote on it — however many other instructions run in between — fails
/// with `ProposalNotActive` and changes nothing: not the state and not
/// the voter's balance.
pub proof fn lemma_vote_after_close(
    s: StateModel,
    pid: nat,
    calls: Seq<Instruction>,
    voter: u64,
    vote_for: bool,
    bal: nat,
)
    requires
        pid < s.proposals.len(),
        !s.proposals[pid as int].is_active,
    ensures
        spec_vote(apply_instructions(s, calls), voter, pid, vote_for, bal) == (
            apply_instructions(s, calls),
            bal,
            Err::<(), ErrorCode>(ErrorCode::ProposalNotActive),
        ),
{
    lemma_closed_forever(s, pid, calls);
    lemma_vote_on_closed_rejected(apply_instructions(s, calls), voter, pid, vote_for, bal);
}

/// The state after the proposal creations in `descs` run in order from
/// `s`.
pub open spec fn apply_creates(s: StateModel, descs: Seq<Seq<u8>>) -> StateModel
    decreases descs.len(),
{
    if descs.len() == 0 {
        s
    } else {
        spec_create_proposal(apply_creates(s, descs.drop_last()), descs.last()).0
    }
}

/// After any number of in-budget creations on a well-formed state the
/// registry counter has advanced by exactly that number, one record was
/// appended per creation, and the records carry the distinct sequential
/// ids 0, 1, 2, ... in creation order.
pub proof fn lemma_create_sequence(s: StateModel, descs: Seq<Seq<u8>>)
    requires
        s.wf(),
        forall|i: int| 0 <= i < descs.len() ==> (#[trigger] descs[i]).len() <= MAX_DESCRIPTION_LEN,
    ensures
        apply_creates(s, descs).wf(),
        apply_creates(s, descs).dao.proposal_count == s.dao.proposal_count + descs.len(),
        apply_creates(s, descs).proposals.len() == s.proposals.len() + descs.len(),
        forall|i: int|
            0 <= i < apply_creates(s, descs).proposals.len() ==> (#[trigger] apply_creates(
                s,
                descs,
            ).proposals[i]).id == i,
    decreases descs.len(),
{
    if descs.len() > 0 {
        assert(forall|i: int|
            0 <= i < descs.drop_last().len() ==> (#[trigger] descs.drop_last()[i]).len()
                <= MAX_DESCRIPTION_LEN);
        lemma_create_sequence(s, descs.drop_last());
        lemma_create_proposal_step(apply_creates(s, descs.drop_last()), descs.last());
    }
}

/// From a fresh registry, K in-budget creations leave `proposal_count`
/// equal to K and exactly K proposals whose ids are the distinct
/// sequential values 0 through K - 1.
pub proof fn lemma_create_sequence_from_genesis(bump: u8, vault_balance: nat, descs: Seq<Seq<u8>>)
    requires
        forall|i: int| 0 <= i < descs.len() ==> (#[trigger] descs[i]).len() <= MAX_DESCRIPTION_LEN,
    ensures
        apply_creates(spec_initialize_dao(bump, vault_balance), descs).wf(),
        apply_creates(spec_initialize_dao(bump, vault_balance), descs).dao.proposal_count
            == descs.len(),
        apply_creates(spec_initialize_dao(bump, vault_balance), descs).proposals.len()
            == descs.len(),
        forall|i: int|
            0 <= i < descs.len() ==> (#[trigger] apply_creates(
                spec_initialize_dao(bump, vault_balance),
                descs,
            ).proposals[i]).id == i,
{
    assert(spec_initialize_dao(bump, vault_balance).wf());
    lemma_create_sequence(spec_initialize_dao(bump, vault_balance), descs);
}

} // verus!
