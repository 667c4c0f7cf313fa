use solana_programs::accounts::{Signer, ConstraintError, KeyedAccount, ProgramError, Pubkey};
use solana_programs::solblog::{initialize, make_post, BlogAccount, Initialize, MakePost};

fn key(b: u8) -> Pubkey {
    Pubkey::new_from_array([b; 32])
}

fn account<T>(k: Pubkey, data: T) -> KeyedAccount<T> {
    KeyedAccount { key: k, is_signer: true, is_writable: true, in_use: true, data }
}

fn signer(k: Pubkey) -> Signer {
    Signer { key: k, is_signer: true, is_writable: true }
}

fn post_accounts() -> MakePost {
    MakePost {
        blog_account: account(key(1), BlogAccount { blogger: key(2), blog: b"old".to_vec() }),
        blogger: signer(key(2)),
    }
}

#[test]
fn initialize_sets_blogger() {
    let mut acc = Initialize {
        blog_account: account(key(1), BlogAccount { blogger: key(0), blog: Vec::new() }),
        blogger: signer(key(4)),
    };
    assert_eq!(initialize(&mut acc), Ok(()));
    assert!(acc.blog_account.data.blogger == key(4));
    assert!(acc.blog_account.data.blog.is_empty());
}

#[test]
fn valid_post_is_stored() {
    let mut acc = post_accounts();
    assert_eq!(make_post(&mut acc, "héllo".as_bytes().to_vec()), Ok(()));
    assert_eq!(acc.blog_account.data.blog, "héllo".as_bytes().to_vec());
    assert_eq!(make_post(&mut acc, Vec::new()), Ok(()));
    assert!(acc.blog_account.data.blog.is_empty());
}

#[test]
fn invalid_utf8_post_is_refused() {
    let mut acc = post_accounts();
    assert_eq!(make_post(&mut acc, vec![0x66, 0xff, 0x66]), Err(ProgramError::InvalidInstructionData));
    assert_eq!(make_post(&mut acc, vec![0xc3]), Err(ProgramError::InvalidInstructionData));
    assert_eq!(acc.blog_account.data.blog, b"old".to_vec());
}

#[test]
fn post_constraint_checks_blogger() {
    let acc = post_accounts();
    assert_eq!(acc.check_constraints(), Ok(()));
    let mut other = post_accounts();
    other.blogger = signer(key(3));
    assert_eq!(other.check_constraints(), Err(ConstraintError::ConstraintHasOne));
}

#[test]
fn blog_account_checks() {
    let mut acc = post_accounts();
    acc.blogger.is_signer = false;
    assert_eq!(acc.check_constraints(), Err(ConstraintError::AccountNotSigner));
    let mut init = Initialize {
        blog_account: account(key(1), BlogAccount { blogger: key(0), blog: Vec::new() }),
        blogger: signer(key(4)),
    };
    assert_eq!(init.check_constraints(), Err(ConstraintError::AccountAlreadyInUse));
    init.blog_account.in_use = false;
    assert_eq!(init.check_constraints(), Ok(()));
}
