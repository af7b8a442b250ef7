use vstd::prelude::*;

use crate::errors::ErrorCode;
use crate::model::{
    has_ballot, lemma_counted_le_len, spec_close_proposal, spec_create_proposal,
    spec_initialize_dao, spec_vote, BallotModel, DaoModel, ProposalModel, StateModel,
    MAX_DESCRIPTION_LEN, REWARD_AMOUNT,
};

verus! {

/// The singleton registry record: the bump seed that, together with the
/// fixed derivation seed, identifies the registry address and the vault's
/// signing authority, and the running count of proposals ever created.
#[derive(Clone, Copy, Debug, PartialEq, Eq, Structural)]
pub struct Dao {
    pub bump: u8,
    pub proposal_count: u64,
}

/// One proposal record: a bounded description, the two tally counters, and
/// the one-way lifecycle flag.
#[derive(Clone, Debug, PartialEq, Eq)]
pub struct Proposal {
    pub id: u64,
    pub description: Vec<u8>,
    pub votes_for: u64,
    pub votes_against: u64,
    pub is_active: bool,
}

/// One ballot record, keyed by (proposal, voter): created on the voter's
/// first accepted vote and checked before any later one.
#[derive(Clone, Copy, Debug, PartialEq, Eq, Structural)]
pub struct Ballot {
    pub proposal_id: u64,
    pub voter: u64,
    pub vote_for: bool,
}

/// What registry initialization reads from its instruction: the bump seed
/// of the derived registry address and the vault's opening token balance.
#[derive(Clone, Copy, Debug, PartialEq, Eq, Structural)]
pub struct InitializeDao {
    pub bump: u8,
    pub vault_balance: u64,
}

/// What proposal creation reads from its instruction: the description text
/// as bytes.
#[derive(Clone, Debug, PartialEq, Eq)]
pub struct CreateProposal {
    pub description: Vec<u8>,
}

/// What a vote reads from its instruction: the voter's identity, which
/// proposal the vote targets, and the choice.
#[derive(Clone, Copy, Debug, PartialEq, Eq, Structural)]
pub struct Vote {
    pub voter: u64,
    pub proposal_id: u64,
    pub vote_for: bool,
}

/// What proposal closure reads from its instruction: which proposal to
/// close.
#[derive(Clone, Copy, Debug, PartialEq, Eq, Structural)]
pub struct CloseProposal {
    pub proposal_id: u64,
}

/// The whole persistent governance state: the registry, every proposal
/// record, every ballot record, and the reward vault's token balance.
#[derive(Clone, Debug, PartialEq, Eq)]
pub struct DaoState {
    pub dao: Dao,
    pub proposals: Vec<Proposal>,
    pub ballots: Vec<Ballot>,
    pub vault_balance: u64,
}

impl View for Proposal {
    type V = ProposalModel;

    open spec fn view(&self) -> ProposalModel {
        ProposalModel {
            id: self.id as nat,
            description: self.description@,
            votes_for: self.votes_for as nat,
            votes_against: self.votes_against as nat,
            is_active: self.is_active,
        }
    }
}

impl View for Ballot {
    type V = BallotModel;

    open spec fn view(&self) -> BallotModel {
        BallotModel {
            proposal_id: self.proposal_id as nat,
            voter: self.voter,
            vote_for: self.vote_for,
        }
    }
}

impl View for DaoState {
    type V = StateModel;

    open spec fn view(&self) -> StateModel {
        StateModel {
            dao: DaoModel { bump: self.dao.bump, proposal_count: self.dao.proposal_count as nat },
            proposals: self.proposals@.map_values(|p: Proposal| p@),
            ballots: self.ballots@.map_values(|b: Ballot| b@),
            vault_balance: self.vault_balance as nat,
        }
    }
}

/// Creates the one-and-only registry with a zero proposal count and records
/// the vault's opening balance. The storage layer guarantees the derived
/// address is fresh (it fails the instruction itself if the registry
/// already exists), so this core receives only the first call.
pub fn initialize_dao(args: InitializeDao) -> (s: DaoState)
    ensures
        s@ == spec_initialize_dao(args.bump, args.vault_balance as nat),
        s@.wf(),
{
    let s = DaoState {
        dao: Dao { bump: args.bump, proposal_count: 0 },
        proposals: Vec::new(),
        ballots: Vec::new(),
        vault_balance: args.vault_balance,
    };
    proof {
        assert(s@.proposals =~= Seq::<ProposalModel>::empty());
        assert(s@.ballots =~= Seq::<BallotModel>::empty());
        assert(s@ =~= spec_initialize_dao(args.bump, args.vault_balance as nat));
    }
    s
}

impl DaoState {
    /// Appends a proposal record with the next sequential id, zero tallies
    /// and an open lifecycle flag, and advances the registry counter in the
    /// same step; or rejects a description over the byte budget and leaves
    /// everything untouched.
    pub fn create_proposal(&mut self, args: CreateProposal) -> (r: Result<u64, ErrorCode>)
        requires
            old(self)@.wf(),
            old(self).dao.proposal_count < u64::MAX,
        ensures
            final(self)@ == spec_create_proposal(old(self)@, args.description@).0,
            final(self)@.wf(),
            args.description@.len() <= MAX_DESCRIPTION_LEN ==> r == Ok::<u64, ErrorCode>(
                old(self).dao.proposal_count,
            ),
            args.description@.len() > MAX_DESCRIPTION_LEN ==> r == Err::<u64, ErrorCode>(
                ErrorCode::DescriptionTooLong,
            ) && *final(self) == *old(self),
    {
        let ghost d: Seq<u8> = args.description@;
        if args.description.len() > MAX_DESCRIPTION_LEN {
            return Err(ErrorCode::DescriptionTooLong);
        }
        let id = self.dao.proposal_count;
        let record = Proposal {
            id,
            description: args.description,
            votes_for: 0,
            votes_against: 0,
            is_active: true,
        };
        self.proposals.push(record);
        self.dao.proposal_count = id + 1;
        proof {
            let t = spec_create_proposal(old(self)@, d).0;
            assert(self@.proposals =~= t.proposals);
            assert(self@.ballots =~= old(self)@.ballots);
            assert(self@ =~= t);
            crate::laws::lemma_create_proposal_step(old(self)@, d);
        }
        Ok(id)
    }

    /// Whether `voter` already holds a ballot on proposal `proposal_id`.
    pub fn has_voted(&self, proposal_id: u64, voter: u64) -> (r: bool)
        ensures
            r == has_ballot(self@.ballots, proposal_id as nat, voter),
    {
        let mut i: usize = 0;
        while i < self.ballots.len()
            invariant
                i <= self.ballots.len(),
                forall|j: int|
                    0 <= j < i ==> !((#[trigger] self@.ballots[j]).proposal_id == proposal_id
                        as nat && self@.ballots[j].voter == voter),
            decreases self.ballots@.len() - i,
        {
            let b = self.ballots[i];
            if b.proposal_id == proposal_id && b.voter == voter {
                proof {
                    assert(self@.ballots[i as int].proposal_id == proposal_id as nat
                        && self@.ballots[i as int].voter == voter);
                }
                return true;
            }
            i = i + 1;
        }
        proof {
            if has_ballot(self@.ballots, proposal_id as nat, voter) {
                let j = choose|j: int|
                    0 <= j < self@.ballots.len() && (#[trigger] self@.ballots[j]).proposal_id
                        == proposal_id as nat && self@.ballots[j].voter == voter;
                assert(false);
            }
        }
        false
    }

    /// Casts `args.voter`'s vote on proposal `args.proposal_id` and pays the
    /// fixed reward from the vault into `voter_balance`, the voter's token
    /// account balance, as one atomic unit: a vote on a closed proposal, a
    /// second vote by the same voter, or a vote the vault cannot fund is
    /// rejected whole, with no tally moved and no tokens moved.
    pub fn vote(&mut self, args: Vote, voter_balance: &mut u64) -> (r: Result<(), ErrorCode>)
        requires
            old(self)@.wf(),
            args.proposal_id < old(self).dao.proposal_count,
            old(self)@.ballots.len() < u64::MAX,
            *old(voter_balance) + REWARD_AMOUNT <= u64::MAX,
        ensures
            final(self)@ == spec_vote(
                old(self)@,
                args.voter,
                args.proposal_id as nat,
                args.vote_for,
                *old(voter_balance) as nat,
            ).0,
            *final(voter_balance) as nat == spec_vote(
                old(self)@,
                args.voter,
                args.proposal_id as nat,
                args.vote_for,
                *old(voter_balance) as nat,
            ).1,
            r == spec_vote(
                old(self)@,
                args.voter,
                args.proposal_id as nat,
                args.vote_for,
                *old(voter_balance) as nat,
            ).2,
            final(self)@.wf(),
            ((r is Err) ==> *final(self) == *old(self) && *final(voter_balance) == *old(
                voter_balance,
            )),
            ((r is Ok) ==> final(self).vault_balance == old(self).vault_balance - REWARD_AMOUNT
                && *final(voter_balance) == *old(voter_balance) + REWARD_AMOUNT),
            ((r is Ok) && args.vote_for ==> final(self)@.proposals[args.proposal_id
                as int].votes_for == old(self)@.proposals[args.proposal_id as int].votes_for + 1
                && final(self)@.proposals[args.proposal_id as int].votes_against == old(
            self,
            )@.proposals[args.proposal_id as int].votes_against),
            ((r is Ok) && !args.vote_for ==> final(self)@.proposals[args.proposal_id
                as int].votes_against == old(self)@.proposals[args.proposal_id
                as int].votes_against + 1 && final(self)@.proposals[args.proposal_id
                as int].votes_for == old(self)@.proposals[args.proposal_id as int].votes_for),
    {
        proof {
            crate::laws::lemma_vote_step(
                old(self)@,
                args.voter,
                args.proposal_id as nat,
                args.vote_for,
                *old(voter_balance) as nat,
            );
            assert(old(self)@.dao.proposal_count == old(self)@.proposals.len());
        }
        let n = self.proposals.len();
        proof {
            assert(n == self@.proposals.len());
            assert((args.proposal_id as int) < (n as int));
        }
        let pid = args.proposal_id as usize;
        if !self.proposals[pid].is_active {
            return Err(ErrorCode::ProposalNotActive);
        }
        if self.has_voted(args.proposal_id, args.voter) {
            return Err(ErrorCode::AlreadyVoted);
        }
        if self.vault_balance < REWARD_AMOUNT {
            return Err(ErrorCode::InsufficientVaultBalance);
        }
        proof {
            lemma_counted_le_len(self@.ballots, args.proposal_id as nat, true);
            lemma_counted_le_len(self@.ballots, args.proposal_id as nat, false);
        }
        {
            let p = &mut self.proposals[pid];
            if args.vote_for {
                p.votes_for = p.votes_for + 1;
            } else {
                p.votes_against = p.votes_against + 1;
            }
        }
        self.vault_balance = self.vault_balance - REWARD_AMOUNT;
        *voter_balance = *voter_balance + REWARD_AMOUNT;
        self.ballots.push(
            Ballot { proposal_id: args.proposal_id, voter: args.voter, vote_for: args.vote_for },
        );
        proof {
            let t = spec_vote(
                old(self)@,
                args.voter,
                args.proposal_id as nat,
                args.vote_for,
                *old(voter_balance) as nat,
            );
            assert(self@.proposals =~= t.0.proposals);
            assert(self@.ballots =~= t.0.ballots);
            assert(self@ =~= t.0);
        }
        Ok(())
    }

    /// Turns the proposal's lifecycle flag off, irreversibly: no further
    /// vote or closure is accepted on it afterwards. Closing an
    /// already-closed proposal is an explicit error that changes nothing.
    pub fn close_proposal(&mut self, args: CloseProposal) -> (r: Result<(), ErrorCode>)
        requires
            old(self)@.wf(),
            args.proposal_id < old(self).dao.proposal_count,
        ensures
            final(self)@ == spec_close_proposal(old(self)@, args.proposal_id as nat).0,
            r == spec_close_proposal(old(self)@, args.proposal_id as nat).1,
            final(self)@.wf(),
            ((r is Err) ==> *final(self) == *old(self) && r == Err::<(), ErrorCode>(
                ErrorCode::ProposalNotActive,
            )),
            ((r is Ok) ==> !final(self)@.proposals[args.proposal_id as int].is_active),
    {
        proof {
            crate::laws::lemma_close_proposal_step(old(self)@, args.proposal_id as nat);
            assert(old(self)@.dao.proposal_count == old(self)@.proposals.len());
        }
        let n = self.proposals.len();
        proof {
            assert(n == self@.proposals.len());
            assert((args.proposal_id as int) < (n as int));
        }
        let pid = args.proposal_id as usize;
        if !self.proposals[pid].is_active {
            return Err(ErrorCode::ProposalNotActive);
        }
        {
            let p = &mut self.proposals[pid];
            p.is_active = false;
        }
        proof {
            let t0 = spec_close_proposal(old(self)@, args.proposal_id as nat).0;
            assert(self@.proposals =~= t0.proposals);
            assert(self@ =~= t0);
        }
        Ok(())
    }
}

} // verus!
