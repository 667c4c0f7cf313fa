//! A ballot: a chairperson opens it and adds proposals, voters delegate or
//! cast their weighted votes for a proposal.
use vstd::prelude::*;

use crate::accounts::{ConstraintError, KeyedAccount, Pubkey, Signer};

verus! {

/// The errors of the voting program.
#[derive(Clone, Copy, Debug, PartialEq, Eq, Structural)]
pub enum ErrorCode {
    AlreadyVoted,
    InvalidProposal,
    AlreadyDelegated,
    NotAuthorizedToAddProposals,
    ProposalAlreadyExists,
    CannotSelfDelegate,
    InvalidVoter,
    BallotFull,
}

/// The message that goes with each error.
pub open spec fn error_message(e: ErrorCode) -> Seq<char> {
    match e {
        ErrorCode::AlreadyVoted => "You have already voted"@,
        ErrorCode::InvalidProposal => "The proposal you entered does not exist in the ballot"@,
        ErrorCode::AlreadyDelegated => "This account has already delegated their vote"@,
        ErrorCode::NotAuthorizedToAddProposals => "You are not authorized to add proposals"@,
        ErrorCode::ProposalAlreadyExists => "The proposal you entered already exists"@,
        ErrorCode::CannotSelfDelegate => "Cannot self delegate"@,
        ErrorCode::InvalidVoter => "You are not authorized to vote"@,
        ErrorCode::BallotFull => "The ballot already holds 20 proposals"@,
    }
}

impl ErrorCode {
    /// The message of this error.
    pub fn msg(&self) -> (m: &'static str)
        ensures
            m@ == error_message(*self),
    {
        match self {
            ErrorCode::AlreadyVoted => "You have already voted",
            ErrorCode::InvalidProposal => "The proposal you entered does not exist in the ballot",
            ErrorCode::AlreadyDelegated => "This account has already delegated their vote",
            ErrorCode::NotAuthorizedToAddProposals => "You are not authorized to add proposals",
            ErrorCode::ProposalAlreadyExists => "The proposal you entered already exists",
            ErrorCode::CannotSelfDelegate => "Cannot self delegate",
            ErrorCode::InvalidVoter => "You are not authorized to vote",
            ErrorCode::BallotFull => "The ballot already holds 20 proposals",
        }
    }
}

/// A voter: its address, its votes and their weight, and whether it voted
/// (or delegated) already.
#[derive(Clone, Copy, Debug)]
pub struct Voter {
    pub voter_address: Pubkey,
    pub votes: u64,
    pub has_voted: bool,
    pub vote_weight: u64,
}

/// A proposal of the ballot and the votes it received.
#[allow(non_snake_case)]
#[derive(Clone, Copy, Debug, PartialEq, Eq, Structural)]
pub struct Proposal {
    pub ID: u8,
    pub votes: u64,
    pub is_initialized: bool,
}

/// The ballot: who may add proposals, the proposals, and the winner.
pub struct BallotBox {
    pub ballot_authority: Pubkey,
    pub proposal_list: Vec<Proposal>,
    pub votes: u64,
    pub winner: Proposal,
}

impl BallotBox {
    /// The most proposals a ballot holds.
    pub const MAX_PROPOSALS: usize = 20;
}

/// The proposal that a fresh ballot names as its winner.
pub open spec fn empty_proposal() -> Proposal {
    Proposal { ID: 0, votes: 0, is_initialized: false }
}

impl Default for Proposal {
    fn default() -> (p: Self)
        ensures
            p == empty_proposal(),
    {
        Proposal { ID: 0, votes: 0, is_initialized: false }
    }
}

impl Proposal {
    /// A fresh, initialized proposal; its name is not kept.
    #[allow(dead_code)]
    fn new(&self, name: String) -> (p: Self)
        ensures
            p == (Proposal { ID: 0, votes: 0, is_initialized: true }),
    {
        Proposal { ID: 0, votes: 0, is_initialized: true }
    }
}

impl Voter {
    /// The voter's weighted votes.
    pub fn calculate_votes(&self) -> (r: u64)
        requires
            self.votes * self.vote_weight <= u64::MAX,
        ensures
            r == self.votes * self.vote_weight,
    {
        self.votes * self.vote_weight
    }
}

/// Accounts of `initialize_voting`.
pub struct Initialize {
    pub chairperson: Signer,
    pub voter: KeyedAccount<Voter>,
    pub ballot: KeyedAccount<BallotBox>,
}

/// Accounts of `delegate`.
pub struct Delegate {
    pub from_voter: KeyedAccount<Voter>,
    pub to_voter: KeyedAccount<Voter>,
    pub ballot: KeyedAccount<BallotBox>,
}

/// Accounts of `vote`.
pub struct Vote {
    pub voter: KeyedAccount<Voter>,
    pub ballot: KeyedAccount<BallotBox>,
    pub proposal: KeyedAccount<Proposal>,
}

/// Accounts of `create_proposal`.
pub struct CreateProposal {
    pub chairperson: Signer,
    pub proposal: KeyedAccount<Proposal>,
    pub voter: KeyedAccount<Voter>,
    pub ballot: KeyedAccount<BallotBox>,
}

/// Accounts of `winning_proposal`.
pub struct Winner {
    pub ballot: KeyedAccount<BallotBox>,
}

// ---------------------------------------------------------------- specs

/// What `initialize_voting` does.
pub open spec fn initialize_outcome(
    pre: Initialize,
    chairperson: Pubkey,
    r: Result<(), ErrorCode>,
    post: Initialize,
) -> bool {
    &&& r is Ok
    &&& post.chairperson == pre.chairperson
    &&& post.voter == pre.voter
    &&& post.ballot.key == pre.ballot.key
    &&& post.ballot.data.ballot_authority == chairperson
    &&& post.ballot.data.winner == empty_proposal()
    &&& post.ballot.data.proposal_list == pre.ballot.data.proposal_list
    &&& post.ballot.data.votes == pre.ballot.data.votes
}

/// What `delegate` does.
pub open spec fn delegate_outcome(pre: Delegate, r: Result<(), ErrorCode>, post: Delegate) -> bool {
    if pre.from_voter.key@ == pre.to_voter.key@ {
        r == Err::<(), ErrorCode>(ErrorCode::CannotSelfDelegate) && post == pre
    } else if pre.from_voter.data.has_voted {
        r == Err::<(), ErrorCode>(ErrorCode::AlreadyDelegated) && post == pre
    } else {
        &&& r is Ok
        &&& post.to_voter == pre.to_voter
        &&& post.ballot == pre.ballot
        &&& post.from_voter.key == pre.from_voter.key
        &&& post.from_voter.data == (Voter { has_voted: true, ..pre.from_voter.data })
    }
}

/// The vote that `vote` would cast is accepted: the voter has not voted and
/// is the voter it claims to be.
pub open spec fn vote_accepted(accounts: Vote, voter_address: Pubkey) -> bool {
    !accounts.voter.data.has_voted && voter_address@ == accounts.voter.data.voter_address@
}

/// An accepted vote fits the proposal's vote count.
pub open spec fn vote_fits(accounts: Vote, voter_address: Pubkey) -> bool {
    vote_accepted(accounts, voter_address) ==> accounts.voter.data.votes
        * accounts.voter.data.vote_weight + accounts.proposal.data.votes <= u64::MAX
}

/// What `vote` does.
pub open spec fn vote_outcome(
    pre: Vote,
    voter_address: Pubkey,
    r: Result<(), ErrorCode>,
    post: Vote,
) -> bool {
    if pre.voter.data.has_voted {
        r == Err::<(), ErrorCode>(ErrorCode::AlreadyVoted) && post == pre
    } else if voter_address@ != pre.voter.data.voter_address@ {
        r == Err::<(), ErrorCode>(ErrorCode::InvalidVoter) && post == pre
    } else {
        &&& r is Ok
        &&& post.ballot == pre.ballot
        &&& post.voter.key == pre.voter.key
        &&& post.voter.data == (Voter { has_voted: true, ..pre.voter.data })
        &&& post.proposal.key == pre.proposal.key
        &&& post.proposal.data == (Proposal {
            votes: (pre.proposal.data.votes + pre.voter.data.votes
                * pre.voter.data.vote_weight) as u64,
            ..pre.proposal.data
        })
    }
}

/// What `create_proposal` does with the proposal id.
#[allow(non_snake_case)]
pub open spec fn create_proposal_outcome(
    pre: CreateProposal,
    proposal_ID: u8,
    r: Result<(), ErrorCode>,
    post: CreateProposal,
) -> bool {
    if pre.ballot.data.ballot_authority@ != pre.chairperson.key@ {
        r == Err::<(), ErrorCode>(ErrorCode::NotAuthorizedToAddProposals) && post == pre
    } else if pre.proposal.data.is_initialized {
        r == Err::<(), ErrorCode>(ErrorCode::ProposalAlreadyExists) && post == pre
    } else if pre.ballot.data.proposal_list@.len() >= 20 {
        r == Err::<(), ErrorCode>(ErrorCode::BallotFull) && post == pre
    } else {
        &&& r is Ok
        &&& post.chairperson == pre.chairperson
        &&& post.proposal == pre.proposal
        &&& post.voter == pre.voter
        &&& post.ballot.key == pre.ballot.key
        &&& post.ballot.data.ballot_authority == pre.ballot.data.ballot_authority
        &&& post.ballot.data.votes == pre.ballot.data.votes
        &&& post.ballot.data.winner == pre.ballot.data.winner
        &&& post.ballot.data.proposal_list@ == pre.ballot.data.proposal_list@.push(
            Proposal { ID: proposal_ID, votes: 0, is_initialized: true },
        )
    }
}

/// The most votes any of the proposals received (0 for none).
pub open spec fn max_votes(list: Seq<Proposal>) -> u64
    decreases list.len(),
{
    if list.len() == 0 {
        0
    } else {
        let rest = max_votes(list.drop_last());
        if list.last().votes > rest {
            list.last().votes
        } else {
            rest
        }
    }
}

// ---------------------------------------------------------------- handlers

/// Opens the ballot: the chairperson becomes its authority and the winner is
/// reset.
pub fn initialize_voting(accounts: &mut Initialize, chairperson: Pubkey) -> (r: Result<(), ErrorCode>)
    ensures
        initialize_outcome(*old(accounts), chairperson, r, *final(accounts)),
{
    let new_ballot = &mut accounts.ballot.data;
    new_ballot.ballot_authority = chairperson;
    new_ballot.winner = Proposal::default();
    Ok(())
}

/// Marks `from_voter` as having given its vote away; refused when the two
/// voters are one account or `from_voter` voted or delegated already.
pub fn delegate(accounts: &mut Delegate, from_voter: Pubkey, to_voter: Pubkey) -> (r: Result<(), ErrorCode>)
    ensures
        delegate_outcome(*old(accounts), r, *final(accounts)),
{
    if accounts.from_voter.key == accounts.to_voter.key {
        return Err(ErrorCode::CannotSelfDelegate);
    } else if accounts.from_voter.data.has_voted {
        return Err(ErrorCode::AlreadyDelegated);
    } else {
        accounts.from_voter.data.has_voted = true;
    }
    Ok(())
}

/// Casts the voter's weighted votes for the proposal.
#[allow(non_snake_case)]
pub fn vote(accounts: &mut Vote, voter_address: Pubkey, proposal_ID: u8) -> (r: Result<(), ErrorCode>)
    requires
        vote_fits(*old(accounts), voter_address),
    ensures
        vote_outcome(*old(accounts), voter_address, r, *final(accounts)),
{
    let voting_status = accounts.voter.data.has_voted;
    if voting_status {
        return Err(ErrorCode::AlreadyVoted);
    }
    if !(voter_address == accounts.voter.data.voter_address) {
        return Err(ErrorCode::InvalidVoter);
    } else {
        accounts.voter.data.has_voted = true;
        let votes = accounts.voter.data.calculate_votes();
        accounts.proposal.data.votes = accounts.proposal.data.votes + votes;
    }
    Ok(())
}

/// Adds a proposal to the ballot; only its authority may, only for a
/// proposal account that is not initialized, and only while the ballot holds
/// fewer than 20 proposals.
#[allow(non_snake_case)]
pub fn create_proposal(accounts: &mut CreateProposal, proposal_ID: u8) -> (r: Result<(), ErrorCode>)
    ensures
        create_proposal_outcome(*old(accounts), proposal_ID, r, *final(accounts)),
{
    if !(accounts.ballot.data.ballot_authority == accounts.chairperson.key) {
        return Err(ErrorCode::NotAuthorizedToAddProposals);
    }
    if accounts.proposal.data.is_initialized {
        return Err(ErrorCode::ProposalAlreadyExists);
    }
    if accounts.ballot.data.proposal_list.len() >= BallotBox::MAX_PROPOSALS {
        return Err(ErrorCode::BallotFull);
    }
    let mut new_proposal = Proposal::default();
    new_proposal.ID = proposal_ID;
    new_proposal.votes = 0;
    new_proposal.is_initialized = true;
    accounts.ballot.data.proposal_list.push(new_proposal);
    Ok(())
}

/// The most votes any proposal of the list received.
fn winning_votes(list: &Vec<Proposal>) -> (r: u64)
    ensures
        r == max_votes(list@),
{
    let mut winning: u64 = 0;
    let mut i: usize = 0;
    while i < list.len()
        invariant
            i <= list@.len(),
            winning == max_votes(list@.take(i as int)),
        decreases list.len() - i,
    {
        assert(list@.take(i + 1).drop_last() =~= list@.take(i as int));
        if list[i].votes > winning {
            winning = list[i].votes;
        }
        i = i + 1;
    }
    assert(list@.take(list.len() as int) =~= list@);
    winning
}

/// Looks for the most votes among the ballot's proposals; the ballot is
/// left as it is.
pub fn winning_proposal(accounts: &Winner) -> (r: Result<(), ErrorCode>)
    ensures
        r is Ok,
{
    let _winning_votes = winning_votes(&accounts.ballot.data.proposal_list);
    Ok(())
}

// ---------------------------------------------------------------- constraints

/// The account checks of `initialize_voting`: the chairperson signed, the
/// voter account holds data, and the ballot is created fresh.
pub open spec fn initialize_constraints(a: Initialize) -> Result<(), ConstraintError> {
    if !a.chairperson.is_signer {
        Err(ConstraintError::AccountNotSigner)
    } else if !a.voter.in_use {
        Err(ConstraintError::AccountNotInitialized)
    } else if a.ballot.in_use {
        Err(ConstraintError::AccountAlreadyInUse)
    } else {
        Ok(())
    }
}

/// The account checks of `delegate`: all three accounts hold data, the
/// delegating voter signed and both voters are writable.
pub open spec fn delegate_constraints(a: Delegate) -> Result<(), ConstraintError> {
    if !a.from_voter.in_use || !a.to_voter.in_use || !a.ballot.in_use {
        Err(ConstraintError::AccountNotInitialized)
    } else if !a.from_voter.is_writable {
        Err(ConstraintError::ConstraintMut)
    } else if !a.from_voter.is_signer {
        Err(ConstraintError::ConstraintSigner)
    } else if !a.to_voter.is_writable {
        Err(ConstraintError::ConstraintMut)
    } else {
        Ok(())
    }
}

/// The account checks of `vote`: all three accounts hold data, the voter
/// signed, and the ballot and the proposal are writable.
pub open spec fn vote_constraints(a: Vote) -> Result<(), ConstraintError> {
    if !a.voter.in_use || !a.ballot.in_use || !a.proposal.in_use {
        Err(ConstraintError::AccountNotInitialized)
    } else if !a.voter.is_signer {
        Err(ConstraintError::ConstraintSigner)
    } else if !a.ballot.is_writable || !a.proposal.is_writable {
        Err(ConstraintError::ConstraintMut)
    } else {
        Ok(())
    }
}

/// The account checks of `create_proposal`: the chairperson signed, the
/// voter and the ballot hold data, the proposal is created fresh, and the
/// ballot is writable.
pub open spec fn create_proposal_constraints(a: CreateProposal) -> Result<(), ConstraintError> {
    if !a.chairperson.is_signer {
        Err(ConstraintError::AccountNotSigner)
    } else if !a.voter.in_use || !a.ballot.in_use {
        Err(ConstraintError::AccountNotInitialized)
    } else if a.proposal.in_use {
        Err(ConstraintError::AccountAlreadyInUse)
    } else if !a.ballot.is_writable {
        Err(ConstraintError::ConstraintMut)
    } else {
        Ok(())
    }
}

/// The account checks of `winning_proposal`: the ballot holds data and is
/// writable.
pub open spec fn winner_constraints(a: Winner) -> Result<(), ConstraintError> {
    if !a.ballot.in_use {
        Err(ConstraintError::AccountNotInitialized)
    } else if !a.ballot.is_writable {
        Err(ConstraintError::ConstraintMut)
    } else {
        Ok(())
    }
}

impl Initialize {
    /// The account checks of `initialize_voting`.
    pub fn check_constraints(&self) -> (r: Result<(), ConstraintError>)
        ensures
            r == initialize_constraints(*self),
            r is Ok <==> (self.chairperson.is_signer && self.voter.in_use && !self.ballot.in_use),
    {
        if !self.chairperson.is_signer {
            Err(ConstraintError::AccountNotSigner)
        } else if !self.voter.in_use {
            Err(ConstraintError::AccountNotInitialized)
        } else if self.ballot.in_use {
            Err(ConstraintError::AccountAlreadyInUse)
        } else {
            Ok(())
        }
    }
}

impl Delegate {
    /// The account checks of `delegate`.
    pub fn check_constraints(&self) -> (r: Result<(), ConstraintError>)
        ensures
            r == delegate_constraints(*self),
            r is Ok <==> (self.from_voter.in_use && self.to_voter.in_use && self.ballot.in_use
                && self.from_voter.is_writable && self.from_voter.is_signer && self.to_voter.is_writable),
    {
        if !self.from_voter.in_use || !self.to_voter.in_use || !self.ballot.in_use {
            Err(ConstraintError::AccountNotInitialized)
        } else if !self.from_voter.is_writable {
            Err(ConstraintError::ConstraintMut)
        } else if !self.from_voter.is_signer {
            Err(ConstraintError::ConstraintSigner)
        } else if !self.to_voter.is_writable {
            Err(ConstraintError::ConstraintMut)
        } else {
            Ok(())
        }
    }
}

impl Vote {
    /// The account checks of `vote`.
    pub fn check_constraints(&self) -> (r: Result<(), ConstraintError>)
        ensures
            r == vote_constraints(*self),
            r is Ok <==> (self.voter.in_use && self.ballot.in_use && self.proposal.in_use
                && self.voter.is_signer && self.ballot.is_writable && self.proposal.is_writable),
    {
        if !self.voter.in_use || !self.ballot.in_use || !self.proposal.in_use {
            Err(ConstraintError::AccountNotInitialized)
        } else if !self.voter.is_signer {
            Err(ConstraintError::ConstraintSigner)
        } else if !self.ballot.is_writable || !self.proposal.is_writable {
            Err(ConstraintError::ConstraintMut)
        } else {
            Ok(())
        }
    }
}

impl CreateProposal {
    /// The account checks of `create_proposal`.
    pub fn check_constraints(&self) -> (r: Result<(), ConstraintError>)
        ensures
            r == create_proposal_constraints(*self),
            r is Ok <==> (self.chairperson.is_signer && self.voter.in_use && self.ballot.in_use
                && !self.proposal.in_use && self.ballot.is_writable),
    {
        if !self.chairperson.is_signer {
            Err(ConstraintError::AccountNotSigner)
        } else if !self.voter.in_use || !self.ballot.in_use {
            Err(ConstraintError::AccountNotInitialized)
        } else if self.proposal.in_use {
            Err(ConstraintError::AccountAlreadyInUse)
        } else if !self.ballot.is_writable {
            Err(ConstraintError::ConstraintMut)
        } else {
            Ok(())
        }
    }
}

impl Winner {
    /// The account checks of `winning_proposal`.
    pub fn check_constraints(&self) -> (r: Result<(), ConstraintError>)
        ensures
            r == winner_constraints(*self),
            r is Ok <==> (self.ballot.in_use && self.ballot.is_writable),
    {
        if !self.ballot.in_use {
            Err(ConstraintError::AccountNotInitialized)
        } else if !self.ballot.is_writable {
            Err(ConstraintError::ConstraintMut)
        } else {
            Ok(())
        }
    }
}

// ---------------------------------------------------------------- laws

/// A voter votes at most once: after an accepted vote, any further vote
/// through the same voter account is refused with `AlreadyVoted` and
/// changes nothing.
pub proof fn lemma_vote_only_once(
    a0: Vote,
    addr1: Pubkey,
    r1: Result<(), ErrorCode>,
    a1: Vote,
    addr2: Pubkey,
    r2: Result<(), ErrorCode>,
    a2: Vote,
)
    requires
        vote_outcome(a0, addr1, r1, a1),
        r1 is Ok,
        vote_outcome(a1, addr2, r2, a2),
    ensures
        r2 == Err::<(), ErrorCode>(ErrorCode::AlreadyVoted),
        a2 == a1,
{
}

/// A voter delegates at most once: after an accepted delegation, a further
/// delegation from the same voter account is refused with
/// `AlreadyDelegated` (the accounts stay distinct).
pub proof fn lemma_delegate_only_once(
    a0: Delegate,
    r1: Result<(), ErrorCode>,
    a1: Delegate,
    r2: Result<(), ErrorCode>,
    a2: Delegate,
)
    requires
        delegate_outcome(a0, r1, a1),
        r1 is Ok,
        delegate_outcome(a1, r2, a2),
    ensures
        r2 == Err::<(), ErrorCode>(ErrorCode::AlreadyDelegated),
        a2 == a1,
{
}

/// A voter that delegated cannot vote any more: delegation and voting share
/// the one `has_voted` mark.
pub proof fn lemma_delegated_voter_cannot_vote(
    d0: Delegate,
    r1: Result<(), ErrorCode>,
    d1: Delegate,
    v0: Vote,
    addr: Pubkey,
    r2: Result<(), ErrorCode>,
    v1: Vote,
)
    requires
        delegate_outcome(d0, r1, d1),
        r1 is Ok,
        v0.voter == d1.from_voter,
        vote_outcome(v0, addr, r2, v1),
    ensures
        r2 == Err::<(), ErrorCode>(ErrorCode::AlreadyVoted),
{
}

/// A proposal's tally never goes down, and an accepted vote adds exactly the
/// voter's weighted votes.
pub proof fn lemma_tally_grows_by_weighted_votes(
    pre: Vote,
    addr: Pubkey,
    r: Result<(), ErrorCode>,
    post: Vote,
)
    requires
        vote_fits(pre, addr),
        vote_outcome(pre, addr, r, post),
    ensures
        post.proposal.data.votes >= pre.proposal.data.votes,
        r is Ok ==> post.proposal.data.votes == pre.proposal.data.votes + pre.voter.data.votes
            * pre.voter.data.vote_weight,
{
    if r is Ok {
        assert(pre.voter.data.votes * pre.voter.data.vote_weight >= 0) by (nonlinear_arith);
    }
}

/// The chairperson that opened a ballot may add any proposal whose account
/// is not initialized yet while the ballot is not full, and nobody else may
/// add one.
#[allow(non_snake_case)]
pub proof fn lemma_only_chairperson_proposes(
    i0: Initialize,
    chairperson: Pubkey,
    r1: Result<(), ErrorCode>,
    i1: Initialize,
    c0: CreateProposal,
    proposal_ID: u8,
    r2: Result<(), ErrorCode>,
    c1: CreateProposal,
)
    requires
        initialize_outcome(i0, chairperson, r1, i1),
        c0.ballot == i1.ballot,
        create_proposal_outcome(c0, proposal_ID, r2, c1),
    ensures
        c0.chairperson.key@ == chairperson@ && !c0.proposal.data.is_initialized
            && c0.ballot.data.proposal_list@.len() < 20 ==> r2 is Ok,
        c0.chairperson.key@ != chairperson@ ==> r2 == Err::<(), ErrorCode>(
            ErrorCode::NotAuthorizedToAddProposals,
        ),
{
}

/// Adding a proposal keeps every proposal the ballot had, in its place.
#[allow(non_snake_case)]
pub proof fn lemma_proposals_are_kept(
    pre: CreateProposal,
    proposal_ID: u8,
    r: Result<(), ErrorCode>,
    post: CreateProposal,
)
    requires
        create_proposal_outcome(pre, proposal_ID, r, post),
    ensures
        post.ballot.data.proposal_list@.len() >= pre.ballot.data.proposal_list@.len(),
        forall|i: int|
            0 <= i < pre.ballot.data.proposal_list@.len() ==> #[trigger] post.ballot.data.proposal_list@[i]
                == pre.ballot.data.proposal_list@[i],
{
}

/// A ballot never holds more than 20 proposals: adding a proposal to a
/// ballot of at most 20 leaves at most 20, and a full ballot is left as it
/// is.
#[allow(non_snake_case)]
pub proof fn lemma_ballot_holds_at_most_twenty(
    pre: CreateProposal,
    proposal_ID: u8,
    r: Result<(), ErrorCode>,
    post: CreateProposal,
)
    requires
        pre.ballot.data.proposal_list@.len() <= 20,
        create_proposal_outcome(pre, proposal_ID, r, post),
    ensures
        post.ballot.data.proposal_list@.len() <= 20,
        pre.ballot.data.proposal_list@.len() == 20 ==> r is Err && post == pre,
{
}

/// A proposal is only ever added by the ballot's authority with its
/// signature: accounts that pass the checks of `create_proposal` and a call
/// that succeeds mean the signing chairperson is the ballot's authority.
#[allow(non_snake_case)]
pub proof fn lemma_proposal_added_by_signing_authority(
    pre: CreateProposal,
    proposal_ID: u8,
    r: Result<(), ErrorCode>,
    post: CreateProposal,
)
    requires
        create_proposal_constraints(pre) is Ok,
        create_proposal_outcome(pre, proposal_ID, r, post),
        r is Ok,
    ensures
        pre.chairperson.is_signer,
        pre.chairperson.key@ == pre.ballot.data.ballot_authority@,
        !pre.proposal.in_use,
{
}

/// Accounts that pass the checks of `vote` hold a voter, a ballot and a
/// proposal, all with data: a vote is never tallied into an account that
/// holds no proposal; the voter signed, and the ballot and the proposal are
/// writable.
pub proof fn lemma_vote_checks_passed(a: Vote)
    requires
        vote_constraints(a) is Ok,
    ensures
        a.voter.in_use,
        a.ballot.in_use,
        a.proposal.in_use,
        a.voter.is_signer,
        a.ballot.is_writable,
        a.proposal.is_writable,
{
}

/// Accounts that pass the checks of `delegate` hold two voters and a ballot,
/// all with data: a vote is never given to an account that holds no voter;
/// the delegating voter signed, and both voters are writable.
pub proof fn lemma_delegate_checks_passed(a: Delegate)
    requires
        delegate_constraints(a) is Ok,
    ensures
        a.from_voter.in_use,
        a.to_voter.in_use,
        a.ballot.in_use,
        a.from_voter.is_signer,
        a.from_voter.is_writable,
        a.to_voter.is_writable,
{
}

/// Accounts that pass the checks of `initialize_voting` hold a signing
/// chairperson, a voter with data and a fresh ballot.
pub proof fn lemma_initialize_checks_passed(a: Initialize)
    requires
        initialize_constraints(a) is Ok,
    ensures
        a.chairperson.is_signer,
        a.voter.in_use,
        !a.ballot.in_use,
{
}

/// Accounts that pass the checks of `create_proposal` hold a signing
/// chairperson, a voter and a writable ballot with data, and a fresh
/// proposal account.
pub proof fn lemma_create_proposal_checks_passed(a: CreateProposal)
    requires
        create_proposal_constraints(a) is Ok,
    ensures
        a.chairperson.is_signer,
        a.voter.in_use,
        a.ballot.in_use,
        a.ballot.is_writable,
        !a.proposal.in_use,
{
}

/// Accounts that pass the checks of `winning_proposal` hold a writable
/// ballot with data.
pub proof fn lemma_winner_checks_passed(a: Winner)
    requires
        winner_constraints(a) is Ok,
    ensures
        a.ballot.in_use,
        a.ballot.is_writable,
{
}

} // verus!
