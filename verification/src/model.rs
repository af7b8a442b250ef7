use vstd::prelude::*;

use crate::errors::ErrorCode;

verus! {

/// Reward paid from the vault for each accepted vote, in raw token units
/// (10 tokens at 6 decimal places). A single configured constant per
/// deployment, never derived from stake or participation.
pub const REWARD_AMOUNT: u64 = 10_000_000;

/// Byte budget reserved in persistent storage for a proposal description.
/// A longer description is rejected, never truncated.
pub const MAX_DESCRIPTION_LEN: usize = 256;

/// Mathematical model of the registry record: the bump seed that fixes the
/// derived vault authority, and how many proposals exist.
#[verifier::ext_equal]
pub struct DaoModel {
    pub bump: u8,
    pub proposal_count: nat,
}

/// Mathematical model of one proposal record.
#[verifier::ext_equal]
pub struct ProposalModel {
    pub id: nat,
    pub description: Seq<u8>,
    pub votes_for: nat,
    pub votes_against: nat,
    pub is_active: bool,
}

/// Mathematical model of one ballot: the witness that `voter` has voted on
/// `proposal_id`, and which way.
#[verifier::ext_equal]
pub struct BallotModel {
    pub proposal_id: nat,
    pub voter: u64,
    pub vote_for: bool,
}

/// Mathematical model of the whole governance state: the registry, every
/// proposal record, every ballot, and the reward vault's token balance.
#[verifier::ext_equal]
pub struct StateModel {
    pub dao: DaoModel,
    pub proposals: Seq<ProposalModel>,
    pub ballots: Seq<BallotModel>,
    pub vault_balance: nat,
}

/// How many ballots in `bs` were cast on proposal `pid` with choice `vf`.
pub open spec fn counted_ballots(bs: Seq<BallotModel>, pid: nat, vf: bool) -> nat
    decreases bs.len(),
{
    if bs.len() == 0 {
        0
    } else {
        counted_ballots(bs.drop_last(), pid, vf) + (if bs.last().proposal_id == pid
            && bs.last().vote_for == vf {
            1nat
        } else {
            0nat
        })
    }
}

/// Whether `voter` already holds a ballot on proposal `pid`.
pub open spec fn has_ballot(bs: Seq<BallotModel>, pid: nat, voter: u64) -> bool {
    exists|j: int| 0 <= j < bs.len() && (#[trigger] bs[j]).proposal_id == pid && bs[j].voter == voter
}

impl StateModel {
    /// Well-formedness of the governance state:
    /// - the registry counter equals the number of proposal records;
    /// - proposal ids are exactly their sequential creation indices;
    /// - every stored description fits the reserved byte budget;
    /// - each tally counter equals the number of ballots cast that way, so
    ///   no vote is ever double counted or rewarded without being tallied;
    /// - every ballot points at an existing proposal;
    /// - no two ballots share a (proposal, voter) pair.
    pub open spec fn wf(self) -> bool {
        &&& self.dao.proposal_count == self.proposals.len()
        &&& forall|i: int|
            0 <= i < self.proposals.len() ==> (#[trigger] self.proposals[i]).id == i
        &&& forall|i: int|
            0 <= i < self.proposals.len() ==> (#[trigger] self.proposals[i]).description.len()
                <= MAX_DESCRIPTION_LEN
        &&& forall|i: int|
            0 <= i < self.proposals.len() ==> (#[trigger] self.proposals[i]).votes_for
                == counted_ballots(self.ballots, i as nat, true)
        &&& forall|i: int|
            0 <= i < self.proposals.len() ==> (#[trigger] self.proposals[i]).votes_against
                == counted_ballots(self.ballots, i as nat, false)
        &&& forall|j: int|
            0 <= j < self.ballots.len() ==> (#[trigger] self.ballots[j]).proposal_id
                < self.proposals.len()
        &&& forall|j: int, k: int|
            0 <= j < k < self.ballots.len() ==> !((#[trigger] self.ballots[j]).proposal_id
                == (#[trigger] self.ballots[k]).proposal_id && self.ballots[j].voter
                == self.ballots[k].voter)
    }
}

/// The state established by registry initialization: an empty registry with
/// the given bump seed and a freshly funded reward vault.
pub open spec fn spec_initialize_dao(bump: u8, vault_balance: nat) -> StateModel {
    StateModel {
        dao: DaoModel { bump, proposal_count: 0 },
        proposals: Seq::empty(),
        ballots: Seq::empty(),
        vault_balance,
    }
}

/// Transition for proposal creation. A description over the byte budget is
/// rejected whole; otherwise a record with the next sequential id is
/// appended and the registry counter advances in the same step, so the two
/// effects commit together or not at all.
pub open spec fn spec_create_proposal(s: StateModel, description: Seq<u8>) -> (StateModel, Result<
    (),
    ErrorCode,
>) {
    if description.len() > MAX_DESCRIPTION_LEN {
        (s, Err(ErrorCode::DescriptionTooLong))
    } else {
        (
            StateModel {
                dao: DaoModel { bump: s.dao.bump, proposal_count: s.dao.proposal_count + 1 },
                proposals: s.proposals.push(
                    ProposalModel {
                        id: s.dao.proposal_count,
                        description,
                        votes_for: 0,
                        votes_against: 0,
                        is_active: true,
                    },
                ),
                ballots: s.ballots,
                vault_balance: s.vault_balance,
            },
            Ok(()),
        )
    }
}

/// Transition for a vote by `voter` on proposal `pid`, where `voter_balance`
/// is the voter's token balance. Yields the next state, the voter's next
/// balance, and the receipt. A vote is accepted only on an open proposal the
/// voter has not voted on, and only if the vault holds a full reward; any
/// rejection leaves state and balances exactly as they were, so the tally
/// update and the reward transfer are atomic: both happen or neither does.
pub open spec fn spec_vote(
    s: StateModel,
    voter: u64,
    pid: nat,
    vote_for: bool,
    voter_balance: nat,
) -> (StateModel, nat, Result<(), ErrorCode>) {
    if pid >= s.proposals.len() || !s.proposals[pid as int].is_active {
        (s, voter_balance, Err(ErrorCode::ProposalNotActive))
    } else if has_ballot(s.ballots, pid, voter) {
        (s, voter_balance, Err(ErrorCode::AlreadyVoted))
    } else if s.vault_balance < REWARD_AMOUNT {
        (s, voter_balance, Err(ErrorCode::InsufficientVaultBalance))
    } else {
        let p = s.proposals[pid as int];
        let tallied = ProposalModel {
            id: p.id,
            description: p.description,
            votes_for: if vote_for {
                p.votes_for + 1
            } else {
                p.votes_for
            },
            votes_against: if vote_for {
                p.votes_against
            } else {
                p.votes_against + 1
            },
            is_active: p.is_active,
        };
        (
            StateModel {
                dao: s.dao,
                proposals: s.proposals.update(pid as int, tallied),
                ballots: s.ballots.push(BallotModel { proposal_id: pid, voter, vote_for }),
                vault_balance: (s.vault_balance - REWARD_AMOUNT) as nat,
            },
            (voter_balance + REWARD_AMOUNT) as nat,
            Ok(()),
        )
    }
}

/// Transition for proposal closure: turns the lifecycle flag off, one way.
/// Closing a proposal that is already closed is an explicit error, so a
/// successful closure always witnesses the open-to-closed step.
pub open spec fn spec_close_proposal(s: StateModel, pid: nat) -> (StateModel, Result<
    (),
    ErrorCode,
>) {
    if pid >= s.proposals.len() || !s.proposals[pid as int].is_active {
        (s, Err(ErrorCode::ProposalNotActive))
    } else {
        let p = s.proposals[pid as int];
        let closed = ProposalModel {
            id: p.id,
            description: p.description,
            votes_for: p.votes_for,
            votes_against: p.votes_against,
            is_active: false,
        };
        (
            StateModel {
                dao: s.dao,
                proposals: s.proposals.update(pid as int, closed),
                ballots: s.ballots,
                vault_balance: s.vault_balance,
            },
            Ok(()),
        )
    }
}

/// A ballot count never exceeds the number of ballots.
pub proof fn lemma_counted_le_len(bs: Seq<BallotModel>, pid: nat, vf: bool)
    ensures
        counted_ballots(bs, pid, vf) <= bs.len(),
    decreases bs.len(),
{
    if bs.len() > 0 {
        lemma_counted_le_len(bs.drop_last(), pid, vf);
    }
}

/// Appending one ballot raises exactly the matching count by one and leaves
/// every other count unchanged.
pub proof fn lemma_counted_push(bs: Seq<BallotModel>, b: BallotModel, pid: nat, vf: bool)
    ensures
        counted_ballots(bs.push(b), pid, vf) == counted_ballots(bs, pid, vf) + (
        if b.proposal_id == pid && b.vote_for == vf {
            1nat
        } else {
            0nat
        }),
{
    assert(bs.push(b).drop_last() =~= bs);
    assert(bs.push(b).last() == b);
}

/// A proposal no ballot points at has a zero count.
pub proof fn lemma_counted_absent(bs: Seq<BallotModel>, pid: nat, vf: bool)
    requires
        forall|j: int| 0 <= j < bs.len() ==> (#[trigger] bs[j]).proposal_id != pid,
    ensures
        counted_ballots(bs, pid, vf) == 0,
    decreases bs.len(),
{
    if bs.len() > 0 {
        assert(forall|j: int|
            0 <= j < bs.drop_last().len() ==> (#[trigger] bs.drop_last()[j]).proposal_id != pid);
        lemma_counted_absent(bs.drop_last(), pid, vf);
    }
}

} // verus!
