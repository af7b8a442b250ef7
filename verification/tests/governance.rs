use dao_voting_system::errors::ErrorCode;
use dao_voting_system::model::{MAX_DESCRIPTION_LEN, REWARD_AMOUNT};
use dao_voting_system::state::{
    initialize_dao, CloseProposal, CreateProposal, DaoState, InitializeDao, Vote,
};

fn fresh_dao(vault_balance: u64) -> DaoState {
    initialize_dao(InitializeDao { bump: 254, vault_balance })
}

fn create(s: &mut DaoState, text: &[u8]) -> Result<u64, ErrorCode> {
    s.create_proposal(CreateProposal { description: text.to_vec() })
}

fn cast(s: &mut DaoState, voter: u64, pid: u64, vote_for: bool, bal: &mut u64) -> Result<(), ErrorCode> {
    s.vote(Vote { voter, proposal_id: pid, vote_for }, bal)
}

#[test]
fn initialize_sets_fresh_registry() {
    let s = fresh_dao(42);
    assert_eq!(s.dao.bump, 254);
    assert_eq!(s.dao.proposal_count, 0);
    assert!(s.proposals.is_empty());
    assert!(s.ballots.is_empty());
    assert_eq!(s.vault_balance, 42);
}

#[test]
fn create_assigns_sequential_ids() {
    let mut s = fresh_dao(0);
    assert_eq!(create(&mut s, b"first"), Ok(0));
    assert_eq!(create(&mut s, b"second"), Ok(1));
    assert_eq!(create(&mut s, b"third"), Ok(2));
    assert_eq!(s.dao.proposal_count, 3);
    assert_eq!(s.proposals.len(), 3);
    for (i, p) in s.proposals.iter().enumerate() {
        assert_eq!(p.id, i as u64);
        assert_eq!(p.votes_for, 0);
        assert_eq!(p.votes_against, 0);
        assert!(p.is_active);
    }
    assert_eq!(s.proposals[1].description, b"second".to_vec());
}

#[test]
fn create_rejects_over_budget_description() {
    let mut s = fresh_dao(7);
    let before = s.clone();
    let r = create(&mut s, &vec![b'x'; MAX_DESCRIPTION_LEN + 1]);
    assert_eq!(r, Err(ErrorCode::DescriptionTooLong));
    assert_eq!(s, before);
}

#[test]
fn create_accepts_description_at_budget() {
    let mut s = fresh_dao(0);
    assert_eq!(create(&mut s, &vec![b'x'; MAX_DESCRIPTION_LEN]), Ok(0));
    assert_eq!(s.proposals[0].description.len(), MAX_DESCRIPTION_LEN);
}

#[test]
fn vote_for_increments_only_votes_for_and_pays_reward() {
    let mut s = fresh_dao(10 * REWARD_AMOUNT);
    create(&mut s, b"road repairs").unwrap();
    let mut bal: u64 = 3;
    assert_eq!(cast(&mut s, 11, 0, true, &mut bal), Ok(()));
    assert_eq!(s.proposals[0].votes_for, 1);
    assert_eq!(s.proposals[0].votes_against, 0);
    assert_eq!(s.vault_balance, 9 * REWARD_AMOUNT);
    assert_eq!(bal, 3 + REWARD_AMOUNT);
    assert_eq!(s.ballots.len(), 1);
    assert_eq!(s.ballots[0].proposal_id, 0);
    assert_eq!(s.ballots[0].voter, 11);
    assert!(s.ballots[0].vote_for);
}

#[test]
fn vote_against_increments_only_votes_against() {
    let mut s = fresh_dao(REWARD_AMOUNT);
    create(&mut s, b"road repairs").unwrap();
    let mut bal: u64 = 0;
    assert_eq!(cast(&mut s, 11, 0, false, &mut bal), Ok(()));
    assert_eq!(s.proposals[0].votes_for, 0);
    assert_eq!(s.proposals[0].votes_against, 1);
    assert_eq!(bal, REWARD_AMOUNT);
}

#[test]
fn vote_on_closed_proposal_rejected() {
    let mut s = fresh_dao(10 * REWARD_AMOUNT);
    create(&mut s, b"close me").unwrap();
    assert_eq!(s.close_proposal(CloseProposal { proposal_id: 0 }), Ok(()));
    assert!(!s.proposals[0].is_active);
    let before = s.clone();
    let mut bal: u64 = 0;
    assert_eq!(cast(&mut s, 5, 0, true, &mut bal), Err(ErrorCode::ProposalNotActive));
    assert_eq!(s, before);
    assert_eq!(bal, 0);
}

#[test]
fn second_vote_by_same_voter_rejected() {
    let mut s = fresh_dao(10 * REWARD_AMOUNT);
    create(&mut s, b"one ballot each").unwrap();
    let mut bal: u64 = 0;
    assert_eq!(cast(&mut s, 8, 0, true, &mut bal), Ok(()));
    assert!(s.has_voted(0, 8));
    assert!(!s.has_voted(0, 9));
    let before = s.clone();
    assert_eq!(cast(&mut s, 8, 0, false, &mut bal), Err(ErrorCode::AlreadyVoted));
    assert_eq!(s, before);
    assert_eq!(bal, REWARD_AMOUNT);
    assert_eq!(s.proposals[0].votes_for, 1);
    assert_eq!(s.proposals[0].votes_against, 0);
}

#[test]
fn vote_without_full_reward_in_vault_rejected() {
    let mut s = fresh_dao(REWARD_AMOUNT - 1);
    create(&mut s, b"underfunded").unwrap();
    let before = s.clone();
    let mut bal: u64 = 17;
    assert_eq!(cast(&mut s, 4, 0, true, &mut bal), Err(ErrorCode::InsufficientVaultBalance));
    assert_eq!(s, before);
    assert_eq!(bal, 17);
    assert_eq!(s.proposals[0].votes_for, 0);
    assert_eq!(s.proposals[0].votes_against, 0);
}

#[test]
fn vault_funds_exactly_one_reward() {
    let mut s = fresh_dao(REWARD_AMOUNT);
    create(&mut s, b"one reward only").unwrap();
    let mut bal_a: u64 = 0;
    let mut bal_b: u64 = 0;
    assert_eq!(cast(&mut s, 1, 0, true, &mut bal_a), Ok(()));
    assert_eq!(s.vault_balance, 0);
    assert_eq!(cast(&mut s, 2, 0, true, &mut bal_b), Err(ErrorCode::InsufficientVaultBalance));
    assert_eq!(s.proposals[0].votes_for, 1);
    assert_eq!(bal_a, REWARD_AMOUNT);
    assert_eq!(bal_b, 0);
}

#[test]
fn close_is_terminal_and_second_close_errors() {
    let mut s = fresh_dao(0);
    create(&mut s, b"lifecycle").unwrap();
    assert!(s.proposals[0].is_active);
    assert_eq!(s.close_proposal(CloseProposal { proposal_id: 0 }), Ok(()));
    assert!(!s.proposals[0].is_active);
    let before = s.clone();
    assert_eq!(
        s.close_proposal(CloseProposal { proposal_id: 0 }),
        Err(ErrorCode::ProposalNotActive)
    );
    assert_eq!(s, before);
}

#[test]
fn five_distinct_voters_then_a_repeat() {
    let mut s = fresh_dao(100 * REWARD_AMOUNT);
    create(&mut s, b"community grant").unwrap();
    let mut balances = [0u64; 5];
    for v in 0..5u64 {
        assert_eq!(cast(&mut s, v + 1, 0, true, &mut balances[v as usize]), Ok(()));
    }
    assert_eq!(s.proposals[0].votes_for, 5);
    assert_eq!(s.proposals[0].votes_against, 0);
    assert_eq!(s.vault_balance, 95 * REWARD_AMOUNT);
    for bal in balances.iter() {
        assert_eq!(*bal, REWARD_AMOUNT);
    }
    let before = s.clone();
    let mut again: u64 = REWARD_AMOUNT;
    assert_eq!(cast(&mut s, 1, 0, true, &mut again), Err(ErrorCode::AlreadyVoted));
    assert_eq!(s, before);
    assert_eq!(again, REWARD_AMOUNT);
}

#[test]
fn tally_equals_accepted_votes_across_mixed_calls() {
    let mut s = fresh_dao(3 * REWARD_AMOUNT);
    create(&mut s, b"alpha").unwrap();
    create(&mut s, b"beta").unwrap();
    let mut bal: u64 = 0;
    let mut accepted_on_0: u64 = 0;
    let calls: [(u64, u64, bool); 6] = [
        (1, 0, true),
        (1, 0, true),  // repeat voter: rejected
        (2, 0, false),
        (2, 1, true),  // other proposal
        (3, 0, true),  // vault already spent three rewards: rejected
        (4, 1, false), // vault still empty: rejected
    ];
    for (voter, pid, way) in calls.iter() {
        if cast(&mut s, *voter, *pid, *way, &mut bal).is_ok() && *pid == 0 {
            accepted_on_0 += 1;
        }
    }
    assert_eq!(accepted_on_0, 2);
    assert_eq!(s.proposals[0].votes_for + s.proposals[0].votes_against, accepted_on_0);
    assert_eq!(s.proposals[1].votes_for + s.proposals[1].votes_against, 1);
    assert_eq!(s.vault_balance, 0);
}
