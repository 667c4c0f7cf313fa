//! A registry of user identities: one account per username, at the address
//! derived from the username.
use vstd::prelude::*;
use vstd::utf8::encode_utf8;

use crate::accounts::{find_program_address, two_seeds, ConstraintError, KeyedAccount, Pubkey, Signer};

verus! {

/// The errors of the identity program.
#[derive(Clone, Copy, Debug, PartialEq, Eq, Structural)]
pub enum ErrorCode {
    UsernameTooLong,
}

/// The message that goes with each error.
pub open spec fn error_message(e: ErrorCode) -> Seq<char> {
    match e {
        ErrorCode::UsernameTooLong => "Please provide a username with less than 140 characters"@,
    }
}

impl ErrorCode {
    /// The message of this error.
    pub fn msg(&self) -> (m: &'static str)
        ensures
            m@ == error_message(*self),
    {
        match self {
            ErrorCode::UsernameTooLong => "Please provide a username with less than 140 characters",
        }
    }
}

/// A registered user.
pub struct User {
    pub username: String,
    pub authority: Pubkey,
    pub bump: u8,
}

impl User {
    /// The bound on a username's bytes: a username must be shorter.
    pub const STRING_SIZE: usize = 140;

    /// The space of a user account: discriminator, bump, authority, username.
    pub const SIZE: usize = 8 + 1 + 32 + Self::STRING_SIZE;
}

/// Accounts of `create_user`.
pub struct CreateUser {
    pub user: KeyedAccount<User>,
    pub authority: Signer,
}

/// The number of bytes of a username in UTF-8.
pub open spec fn byte_len(username: Seq<char>) -> nat {
    encode_utf8(username).len()
}

/// The seeds of a user's address: the word "username" and the username.
pub open spec fn user_seeds(username: Seq<char>) -> Seq<Seq<u8>> {
    seq![encode_utf8("username"@), encode_utf8(username)]
}

/// What `create_user` does with `username` and `bump`.
pub open spec fn create_user_outcome(
    pre: CreateUser,
    username: Seq<char>,
    bump: u8,
    r: Result<(), ErrorCode>,
    post: CreateUser,
) -> bool {
    if byte_len(username) >= 140 {
        r == Err::<(), ErrorCode>(ErrorCode::UsernameTooLong) && post == pre
    } else {
        &&& r is Ok
        &&& post.authority == pre.authority
        &&& post.user.key == pre.user.key
        &&& post.user.data.username@ == username
        &&& post.user.data.bump == bump
        &&& post.user.data.authority == pre.authority.key
    }
}

/// Registers a username for the signing authority; refused unless the
/// username has less than 140 bytes.
pub fn create_user(accounts: &mut CreateUser, username: String, bump: u8) -> (r: Result<(), ErrorCode>)
    ensures
        create_user_outcome(*old(accounts), username@, bump, r, *final(accounts)),
{
    if username.as_str().as_bytes().len() >= User::STRING_SIZE {
        return Err(ErrorCode::UsernameTooLong);
    }
    accounts.user.data.username = username;
    accounts.user.data.bump = bump;
    accounts.user.data.authority = accounts.authority.key;
    Ok(())
}

/// The account checks of `create_user`: the authority signed; the user
/// account is at the canonical address derived from the username under
/// `program_id` and is created fresh; the authority, which pays for it, is
/// writable. Gives the canonical bump seed. Where no canonical address
/// exists the accounts are refused as well.
pub open spec fn create_user_constraints(a: CreateUser, username: Seq<char>, program_id: Seq<u8>) -> Result<u8, ConstraintError> {
    if !a.authority.is_signer {
        Err(ConstraintError::AccountNotSigner)
    } else {
        match crate::accounts::canonical_address(user_seeds(username), program_id) {
            Some((k, b)) => if k != a.user.key@ {
                Err(ConstraintError::ConstraintSeeds)
            } else if a.user.in_use {
                Err(ConstraintError::AccountAlreadyInUse)
            } else if !a.authority.is_writable {
                Err(ConstraintError::ConstraintMut)
            } else {
                Ok(b)
            },
            None => Err(ConstraintError::ConstraintSeeds),
        }
    }
}

impl CreateUser {
    /// The account checks of `create_user`.
    pub fn check_constraints(&self, username: &String, program_id: &Pubkey) -> (r: Result<u8, ConstraintError>)
        ensures
            r == create_user_constraints(*self, username@, program_id@),
            r is Ok <==> {
                &&& self.authority.is_signer
                &&& self.authority.is_writable
                &&& !self.user.in_use
                &&& crate::accounts::canonical_address(
                    seq![encode_utf8("username"@), encode_utf8(username@)],
                    program_id@,
                ) matches Some((k, b)) && k == self.user.key@ && r == Ok::<u8, ConstraintError>(b)
            },
    {
        proof {
            lemma_user_seeds_are_full_username(username@);
        }
        if !self.authority.is_signer {
            return Err(ConstraintError::AccountNotSigner);
        }
        let seeds = two_seeds("username".as_bytes_vec(), username.as_str().as_bytes_vec());
        match find_program_address(&seeds, program_id) {
            Some((pda, bump)) => {
                if !(pda == self.user.key) {
                    Err(ConstraintError::ConstraintSeeds)
                } else if self.user.in_use {
                    Err(ConstraintError::AccountAlreadyInUse)
                } else if !self.authority.is_writable {
                    Err(ConstraintError::ConstraintMut)
                } else {
                    Ok(bump)
                }
            },
            None => Err(ConstraintError::ConstraintSeeds),
        }
    }
}

// ---------------------------------------------------------------- laws

/// The seeds of a user's address are exactly the bytes of "username" and
/// all the UTF-8 bytes of the username.
pub proof fn lemma_user_seeds_are_full_username(username: Seq<char>)
    ensures
        user_seeds(username).len() == 2,
        user_seeds(username)[0] == encode_utf8("username"@),
        user_seeds(username)[1] == encode_utf8(username),
        user_seeds(username) == seq![encode_utf8("username"@), encode_utf8(username)],
{
}

/// Different usernames have different seeds.
pub proof fn lemma_user_seeds_injective(a: Seq<char>, b: Seq<char>)
    requires
        user_seeds(a) == user_seeds(b),
    ensures
        a == b,
{
    lemma_user_seeds_are_full_username(a);
    lemma_user_seeds_are_full_username(b);
    assert(user_seeds(a)[1] == user_seeds(b)[1]);
    vstd::utf8::encode_utf8_decode_utf8(a);
    vstd::utf8::encode_utf8_decode_utf8(b);
}

/// Accounts that pass the checks of `create_user` hold a fresh user account
/// at the canonical address of the full username's seeds, and a signing,
/// writable authority; the bump given is that address's canonical bump.
pub proof fn lemma_create_user_checks_passed(
    a: CreateUser,
    username: Seq<char>,
    program_id: Seq<u8>,
)
    requires
        create_user_constraints(a, username, program_id) is Ok,
    ensures
        a.authority.is_signer,
        a.authority.is_writable,
        !a.user.in_use,
        crate::accounts::canonical_address(
            seq![encode_utf8("username"@), encode_utf8(username)],
            program_id,
        ) == Some((a.user.key@, create_user_constraints(a, username, program_id)->Ok_0)),
{
    lemma_user_seeds_are_full_username(username);
}

} // verus!
