use solana_programs::accounts::{ConstraintError, KeyedAccount, Pubkey, Signer};
use solana_programs::voting::{
    create_proposal, delegate, initialize_voting, vote, winning_proposal, BallotBox,
    CreateProposal, Delegate, ErrorCode, Initialize, Proposal, Vote, Voter, Winner,
};

fn key(b: u8) -> Pubkey {
    Pubkey::new_from_array([b; 32])
}

fn account<T>(k: Pubkey, data: T) -> KeyedAccount<T> {
    KeyedAccount { key: k, is_signer: true, is_writable: true, in_use: true, data }
}

fn signer(k: Pubkey) -> Signer {
    Signer { key: k, is_signer: true, is_writable: true }
}

fn voter(address: u8, votes: u64, weight: u64) -> Voter {
    Voter { voter_address: key(address), votes, has_voted: false, vote_weight: weight }
}

fn ballot(authority: u8) -> BallotBox {
    BallotBox {
        ballot_authority: key(authority),
        proposal_list: Vec::new(),
        votes: 0,
        winner: Proposal { ID: 9, votes: 9, is_initialized: true },
    }
}

fn proposal(id: u8, votes: u64, init: bool) -> Proposal {
    Proposal { ID: id, votes, is_initialized: init }
}

#[test]
fn default_proposal_is_empty() {
    let p = Proposal::default();
    assert_eq!(p, proposal(0, 0, false));
}

#[test]
fn calculate_votes_multiplies_votes_by_weight() {
    assert_eq!(voter(1, 7, 3).calculate_votes(), 21);
    assert_eq!(voter(1, 0, 3).calculate_votes(), 0);
}

#[test]
fn initialize_sets_authority_and_resets_winner() {
    let mut acc = Initialize {
        chairperson: signer(key(1)),
        voter: account(key(2), voter(2, 1, 1)),
        ballot: account(key(3), ballot(0)),
    };
    assert_eq!(initialize_voting(&mut acc, key(7)), Ok(()));
    assert!(acc.ballot.data.ballot_authority == key(7));
    assert_eq!(acc.ballot.data.winner, Proposal::default());
}

fn delegate_accounts(from: u8, to: u8, has_voted: bool) -> Delegate {
    let mut v = voter(from, 1, 1);
    v.has_voted = has_voted;
    Delegate {
        from_voter: account(key(from), v),
        to_voter: account(key(to), voter(to, 1, 1)),
        ballot: account(key(50), ballot(0)),
    }
}

#[test]
fn delegate_marks_from_voter_once() {
    let mut acc = delegate_accounts(1, 2, false);
    assert_eq!(delegate(&mut acc, key(1), key(2)), Ok(()));
    assert!(acc.from_voter.data.has_voted);
    assert!(!acc.to_voter.data.has_voted);
    assert_eq!(delegate(&mut acc, key(1), key(2)), Err(ErrorCode::AlreadyDelegated));
}

#[test]
fn delegate_to_self_is_refused() {
    let mut acc = delegate_accounts(4, 4, false);
    assert_eq!(delegate(&mut acc, key(4), key(4)), Err(ErrorCode::CannotSelfDelegate));
    assert!(!acc.from_voter.data.has_voted);
}

fn vote_accounts(addr: u8, votes: u64, weight: u64, tally: u64) -> Vote {
    Vote {
        voter: account(key(addr), voter(addr, votes, weight)),
        ballot: account(key(60), ballot(0)),
        proposal: account(key(61), proposal(1, tally, true)),
    }
}

#[test]
fn vote_adds_weighted_votes_once() {
    let mut acc = vote_accounts(5, 4, 3, 10);
    assert_eq!(vote(&mut acc, key(5), 1), Ok(()));
    assert_eq!(acc.proposal.data.votes, 22);
    assert!(acc.voter.data.has_voted);
    assert_eq!(vote(&mut acc, key(5), 1), Err(ErrorCode::AlreadyVoted));
    assert_eq!(acc.proposal.data.votes, 22);
}

#[test]
fn vote_by_wrong_address_is_refused() {
    let mut acc = vote_accounts(5, 4, 3, 10);
    assert_eq!(vote(&mut acc, key(6), 1), Err(ErrorCode::InvalidVoter));
    assert_eq!(acc.proposal.data.votes, 10);
    assert!(!acc.voter.data.has_voted);
}

#[test]
fn delegated_voter_cannot_vote() {
    let mut d = delegate_accounts(1, 2, false);
    assert_eq!(delegate(&mut d, key(1), key(2)), Ok(()));
    let mut v = vote_accounts(1, 4, 3, 0);
    v.voter = d.from_voter;
    assert_eq!(vote(&mut v, key(1), 0), Err(ErrorCode::AlreadyVoted));
}

fn proposal_accounts(chair: u8, authority: u8, init: bool) -> CreateProposal {
    CreateProposal {
        chairperson: signer(key(chair)),
        proposal: account(key(70), proposal(0, 0, init)),
        voter: account(key(71), voter(71, 1, 1)),
        ballot: account(key(72), ballot(authority)),
    }
}

#[test]
fn chairperson_adds_proposals_in_order() {
    let mut acc = proposal_accounts(3, 3, false);
    assert_eq!(create_proposal(&mut acc, 11), Ok(()));
    assert_eq!(create_proposal(&mut acc, 12), Ok(()));
    assert_eq!(acc.ballot.data.proposal_list, vec![proposal(11, 0, true), proposal(12, 0, true)]);
    assert_eq!(acc.proposal.data, proposal(0, 0, false));
}

#[test]
fn others_cannot_add_proposals() {
    let mut acc = proposal_accounts(4, 3, false);
    assert_eq!(create_proposal(&mut acc, 11), Err(ErrorCode::NotAuthorizedToAddProposals));
    assert!(acc.ballot.data.proposal_list.is_empty());
}

#[test]
fn initialized_proposal_account_is_refused() {
    let mut acc = proposal_accounts(3, 3, true);
    assert_eq!(create_proposal(&mut acc, 11), Err(ErrorCode::ProposalAlreadyExists));
    assert!(acc.ballot.data.proposal_list.is_empty());
}

#[test]
fn opened_ballot_accepts_its_chairperson() {
    let mut init = Initialize {
        chairperson: signer(key(8)),
        voter: account(key(2), voter(2, 1, 1)),
        ballot: account(key(3), ballot(0)),
    };
    initialize_voting(&mut init, key(8)).unwrap();
    let mut acc = proposal_accounts(8, 0, false);
    acc.ballot = init.ballot;
    assert_eq!(create_proposal(&mut acc, 1), Ok(()));
    assert_eq!(acc.ballot.data.proposal_list.len(), 1);
}

#[test]
fn winning_proposal_changes_nothing() {
    let mut b = ballot(0);
    b.proposal_list = vec![proposal(1, 5, true), proposal(2, 9, true)];
    let acc = Winner { ballot: account(key(1), b) };
    assert_eq!(winning_proposal(&acc), Ok(()));
    assert_eq!(acc.ballot.data.proposal_list.len(), 2);
    assert_eq!(acc.ballot.data.winner, proposal(9, 9, true));
}

#[test]
fn error_messages() {
    assert_eq!(ErrorCode::AlreadyVoted.msg(), "You have already voted");
    assert_eq!(ErrorCode::CannotSelfDelegate.msg(), "Cannot self delegate");
    assert_eq!(ErrorCode::InvalidVoter.msg(), "You are not authorized to vote");
}

#[test]
fn full_ballot_refuses_twenty_first_proposal() {
    let mut acc = proposal_accounts(3, 3, false);
    for id in 0..20u8 {
        assert_eq!(create_proposal(&mut acc, id), Ok(()));
    }
    assert_eq!(acc.ballot.data.proposal_list.len(), BallotBox::MAX_PROPOSALS);
    assert_eq!(create_proposal(&mut acc, 20), Err(ErrorCode::BallotFull));
    assert_eq!(acc.ballot.data.proposal_list.len(), 20);
    assert_eq!(acc.ballot.data.proposal_list[19], proposal(19, 0, true));
    assert_eq!(ErrorCode::BallotFull.msg(), "The ballot already holds 20 proposals");
}

#[test]
fn voting_account_checks() {
    let mut init = Initialize {
        chairperson: signer(key(1)),
        voter: account(key(2), voter(2, 1, 1)),
        ballot: account(key(3), ballot(0)),
    };
    assert_eq!(init.check_constraints(), Err(ConstraintError::AccountAlreadyInUse));
    init.ballot.in_use = false;
    assert_eq!(init.check_constraints(), Ok(()));
    init.chairperson.is_signer = false;
    assert_eq!(init.check_constraints(), Err(ConstraintError::AccountNotSigner));

    let mut d = delegate_accounts(1, 2, false);
    assert_eq!(d.check_constraints(), Ok(()));
    d.from_voter.is_signer = false;
    assert_eq!(d.check_constraints(), Err(ConstraintError::ConstraintSigner));

    let mut v = vote_accounts(5, 1, 1, 0);
    assert_eq!(v.check_constraints(), Ok(()));
    v.proposal.is_writable = false;
    assert_eq!(v.check_constraints(), Err(ConstraintError::ConstraintMut));
    v.voter.is_signer = false;
    assert_eq!(v.check_constraints(), Err(ConstraintError::ConstraintSigner));

    let mut p = proposal_accounts(3, 3, false);
    assert_eq!(p.check_constraints(), Err(ConstraintError::AccountAlreadyInUse));
    p.proposal.in_use = false;
    assert_eq!(p.check_constraints(), Ok(()));
    p.ballot.in_use = false;
    assert_eq!(p.check_constraints(), Err(ConstraintError::AccountNotInitialized));

    let mut w = Winner { ballot: account(key(1), ballot(0)) };
    assert_eq!(w.check_constraints(), Ok(()));
    w.ballot.is_writable = false;
    assert_eq!(w.check_constraints(), Err(ConstraintError::ConstraintMut));
}
