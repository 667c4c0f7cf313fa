//! A blog: one account per blogger holding the latest post.
use vstd::prelude::*;
use vstd::utf8::valid_utf8;

use crate::accounts::{ConstraintError, KeyedAccount, ProgramError, Pubkey, Signer};

verus! {

/// A blog: its author and its post, as UTF-8 bytes.
pub struct BlogAccount {
    pub blogger: Pubkey,
    pub blog: Vec<u8>,
}

/// Accounts of `initialize`.
pub struct Initialize {
    pub blog_account: KeyedAccount<BlogAccount>,
    pub blogger: Signer,
}

/// Accounts of `make_post`.
pub struct MakePost {
    pub blog_account: KeyedAccount<BlogAccount>,
    pub blogger: Signer,
}

/// Calls `std::str::from_utf8`. Trusted: it accepts exactly the byte strings
/// that are valid UTF-8.
#[verifier::external_body]
fn is_utf8(bytes: &[u8]) -> (r: bool)
    ensures
        r == valid_utf8(bytes@),
{
    std::str::from_utf8(bytes).is_ok()
}

/// What `initialize` does.
pub open spec fn initialize_outcome(pre: Initialize, r: Result<(), ProgramError>, post: Initialize) -> bool {
    &&& r is Ok
    &&& post.blogger == pre.blogger
    &&& post.blog_account.key == pre.blog_account.key
    &&& post.blog_account.data.blogger == pre.blogger.key
    &&& post.blog_account.data.blog == pre.blog_account.data.blog
}

/// What `make_post` does with `new_post`.
pub open spec fn make_post_outcome(
    pre: MakePost,
    new_post: Seq<u8>,
    r: Result<(), ProgramError>,
    post: MakePost,
) -> bool {
    if valid_utf8(new_post) {
        &&& r is Ok
        &&& post.blogger == pre.blogger
        &&& post.blog_account.key == pre.blog_account.key
        &&& post.blog_account.data.blogger == pre.blog_account.data.blogger
        &&& post.blog_account.data.blog@ == new_post
    } else {
        r == Err::<(), ProgramError>(ProgramError::InvalidInstructionData) && post == pre
    }
}

/// Makes the signer the blog's author.
pub fn initialize(accounts: &mut Initialize) -> (r: Result<(), ProgramError>)
    ensures
        initialize_outcome(*old(accounts), r, *final(accounts)),
{
    let blog = &mut accounts.blog_account.data;
    blog.blogger = accounts.blogger.key;
    Ok(())
}

/// Replaces the blog's post; refused unless the post is valid UTF-8.
pub fn make_post(accounts: &mut MakePost, new_post: Vec<u8>) -> (r: Result<(), ProgramError>)
    ensures
        make_post_outcome(*old(accounts), new_post@, r, *final(accounts)),
{
    if !is_utf8(new_post.as_slice()) {
        return Err(ProgramError::InvalidInstructionData);
    }
    let blog = &mut accounts.blog_account.data;
    blog.blog = new_post;
    Ok(())
}

/// The account checks of `initialize`: the blogger signed, the blog is
/// created fresh, and the blogger, who pays for it, is writable.
pub open spec fn initialize_constraints(a: Initialize) -> Result<(), ConstraintError> {
    if !a.blogger.is_signer {
        Err(ConstraintError::AccountNotSigner)
    } else if a.blog_account.in_use {
        Err(ConstraintError::AccountAlreadyInUse)
    } else if !a.blogger.is_writable {
        Err(ConstraintError::ConstraintMut)
    } else {
        Ok(())
    }
}

/// The account checks of `make_post`: the blog holds data, the blogger
/// signed, the blog is writable and belongs to the blogger.
pub open spec fn make_post_constraints(a: MakePost) -> Result<(), ConstraintError> {
    if !a.blog_account.in_use {
        Err(ConstraintError::AccountNotInitialized)
    } else if !a.blogger.is_signer {
        Err(ConstraintError::AccountNotSigner)
    } else if !a.blog_account.is_writable {
        Err(ConstraintError::ConstraintMut)
    } else if a.blog_account.data.blogger@ != a.blogger.key@ {
        Err(ConstraintError::ConstraintHasOne)
    } else {
        Ok(())
    }
}

impl Initialize {
    /// The account checks of `initialize`.
    pub fn check_constraints(&self) -> (r: Result<(), ConstraintError>)
        ensures
            r == initialize_constraints(*self),
            r is Ok <==> (self.blogger.is_signer && !self.blog_account.in_use && self.blogger.is_writable),
    {
        if !self.blogger.is_signer {
            Err(ConstraintError::AccountNotSigner)
        } else if self.blog_account.in_use {
            Err(ConstraintError::AccountAlreadyInUse)
        } else if !self.blogger.is_writable {
            Err(ConstraintError::ConstraintMut)
        } else {
            Ok(())
        }
    }
}

impl MakePost {
    /// The account checks of `make_post`.
    pub fn check_constraints(&self) -> (r: Result<(), ConstraintError>)
        ensures
            r == make_post_constraints(*self),
            r is Ok <==> (self.blog_account.in_use && self.blogger.is_signer && self.blog_account.is_writable
                && self.blog_account.data.blogger@ == self.blogger.key@),
    {
        if !self.blog_account.in_use {
            Err(ConstraintError::AccountNotInitialized)
        } else if !self.blogger.is_signer {
            Err(ConstraintError::AccountNotSigner)
        } else if !self.blog_account.is_writable {
            Err(ConstraintError::ConstraintMut)
        } else if !(self.blog_account.data.blogger == self.blogger.key) {
            Err(ConstraintError::ConstraintHasOne)
        } else {
            Ok(())
        }
    }
}

// ---------------------------------------------------------------- laws

/// A blog that holds valid UTF-8 keeps holding valid UTF-8: a post is either
/// valid UTF-8 and stored, or refused and the blog left as it was.
pub proof fn lemma_blog_stays_utf8(pre: MakePost, new_post: Seq<u8>, r: Result<(), ProgramError>, post: MakePost)
    requires
        valid_utf8(pre.blog_account.data.blog@),
        make_post_outcome(pre, new_post, r, post),
    ensures
        valid_utf8(post.blog_account.data.blog@),
        r is Ok <==> post.blog_account.data.blog@ == new_post && valid_utf8(new_post),
{
}

/// The author of a blog never changes by posting.
pub proof fn lemma_posting_keeps_author(pre: MakePost, new_post: Seq<u8>, r: Result<(), ProgramError>, post: MakePost)
    requires
        make_post_outcome(pre, new_post, r, post),
    ensures
        post.blog_account.data.blogger == pre.blog_account.data.blogger,
{
}

/// Accounts that pass the checks of `make_post` hold a writable blog with
/// data that belongs to the signing blogger.
pub proof fn lemma_make_post_checks_passed(a: MakePost)
    requires
        make_post_constraints(a) is Ok,
    ensures
        a.blog_account.in_use,
        a.blog_account.is_writable,
        a.blogger.is_signer,
        a.blog_account.data.blogger@ == a.blogger.key@,
{
}

/// Accounts that pass the checks of `initialize` hold a fresh blog account
/// and a signing, writable blogger.
pub proof fn lemma_initialize_checks_passed(a: Initialize)
    requires
        initialize_constraints(a) is Ok,
    ensures
        !a.blog_account.in_use,
        a.blogger.is_signer,
        a.blogger.is_writable,
{
}

} // verus!
