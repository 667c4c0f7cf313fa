use solana_programs::accounts::{Signer, ConstraintError, KeyedAccount, Pubkey};
use solana_programs::shared_wallet::{
    approve_transaction, check_unique_owners, create_transaction, create_wallet,
    finish_execution, prepare_execution, signer_count, ApproveTransaction, CreateTransaction,
    CreateWallet, ErrorCode, ExecuteTransaction, SharedWallet, Transaction, TransactionAccount,
};

fn key(b: u8) -> Pubkey {
    Pubkey::new_from_array([b; 32])
}

fn account<T>(k: Pubkey, data: T) -> KeyedAccount<T> {
    KeyedAccount { key: k, is_signer: true, is_writable: true, in_use: true, data }
}

fn signer(k: Pubkey) -> Signer {
    Signer { key: k, is_signer: true, is_writable: true }
}

fn wallet(owners: Vec<Pubkey>, threshold: u64) -> SharedWallet {
    SharedWallet { owners, threshold_owners: threshold, nonce: 254, owner_sequence: 3 }
}

fn empty_tx() -> Transaction {
    Transaction {
        shared_wallet: key(0),
        program_id: key(0),
        accounts: Vec::new(),
        data: Vec::new(),
        signers: Vec::new(),
        did_execute: false,
        owner_sequence: 0,
    }
}

fn meta(k: u8, signer: bool, writable: bool) -> TransactionAccount {
    TransactionAccount { pubkey: key(k), is_signer: signer, is_writable: writable }
}

#[test]
fn unique_owners_accepted() {
    assert_eq!(check_unique_owners(&[key(1), key(2), key(3)]), Ok(()));
    assert_eq!(check_unique_owners(&[]), Ok(()));
}

#[test]
fn duplicate_owners_refused() {
    assert_eq!(check_unique_owners(&[key(1), key(2), key(1)]), Err(ErrorCode::UniqueOwners));
    assert_eq!(check_unique_owners(&[key(2), key(2)]), Err(ErrorCode::UniqueOwners));
}

fn create_accounts() -> CreateWallet {
    CreateWallet { shared_wallet: account(key(9), wallet(Vec::new(), 0)) }
}

#[test]
fn create_wallet_duplicate_owners() {
    let mut acc = create_accounts();
    assert_eq!(create_wallet(&mut acc, vec![key(1), key(1)], 1, 7), Err(ErrorCode::UniqueOwners));
}

#[test]
fn create_wallet_bad_threshold() {
    let mut acc = create_accounts();
    assert_eq!(create_wallet(&mut acc, vec![key(1), key(2)], 0, 7), Err(ErrorCode::InvalidThreshold));
    assert_eq!(create_wallet(&mut acc, vec![key(1), key(2)], 3, 7), Err(ErrorCode::InvalidThreshold));
    assert_eq!(create_wallet(&mut acc, vec![], 1, 7), Err(ErrorCode::InvalidThreshold));
}

#[test]
fn create_wallet_stores_owners_threshold_and_nonce() {
    let mut acc = create_accounts();
    assert_eq!(create_wallet(&mut acc, vec![key(1), key(2)], 2, 7), Ok(()));
    assert!(acc.shared_wallet.data.owners == vec![key(1), key(2)]);
    assert_eq!(acc.shared_wallet.data.threshold_owners, 2);
    assert_eq!(acc.shared_wallet.data.nonce, 7);
    assert_eq!(acc.shared_wallet.data.owner_sequence, 0);
    assert!(acc.shared_wallet.key == key(9));
}

fn tx_accounts(initiator: u8) -> CreateTransaction {
    CreateTransaction {
        shared_wallet: account(key(9), wallet(vec![key(1), key(2), key(3)], 2)),
        transaction: account(key(10), empty_tx()),
        initiator: signer(key(initiator)),
    }
}

#[test]
fn create_transaction_records_initiator() {
    let mut acc = tx_accounts(2);
    let accs = vec![meta(20, false, true), meta(21, true, false)];
    assert_eq!(create_transaction(&mut acc, key(30), accs, vec![1, 2, 3]), Ok(()));
    let tx = &acc.transaction.data;
    assert_eq!(tx.signers, vec![false, true, false]);
    assert!(tx.program_id == key(30));
    assert!(tx.shared_wallet == key(9));
    assert_eq!(tx.data, vec![1, 2, 3]);
    assert_eq!(tx.accounts.len(), 2);
    assert!(!tx.did_execute);
    assert_eq!(tx.owner_sequence, 3);
    assert_eq!(signer_count(&tx.signers), 1);
}

#[test]
fn create_transaction_by_stranger_refused() {
    let mut acc = tx_accounts(8);
    assert_eq!(create_transaction(&mut acc, key(30), vec![], vec![]), Err(ErrorCode::InvalidOwner));
    assert!(acc.transaction.data.signers.is_empty());
}

fn approve_accounts(owner: u8) -> ApproveTransaction {
    let mut tx = empty_tx();
    tx.signers = vec![true, false, false];
    tx.shared_wallet = key(9);
    tx.owner_sequence = 3;
    ApproveTransaction {
        shared_wallet: account(key(9), wallet(vec![key(1), key(2), key(3)], 2)),
        transaction: account(key(10), tx),
        owner: signer(key(owner)),
    }
}

#[test]
fn approve_sets_owner_flag_idempotently() {
    let mut acc = approve_accounts(3);
    assert_eq!(approve_transaction(&mut acc), Ok(()));
    assert_eq!(acc.transaction.data.signers, vec![true, false, true]);
    assert_eq!(approve_transaction(&mut acc), Ok(()));
    assert_eq!(acc.transaction.data.signers, vec![true, false, true]);
    assert_eq!(signer_count(&acc.transaction.data.signers), 2);
}

#[test]
fn approve_by_stranger_refused() {
    let mut acc = approve_accounts(7);
    assert_eq!(approve_transaction(&mut acc), Err(ErrorCode::InvalidOwner));
    assert_eq!(acc.transaction.data.signers, vec![true, false, false]);
}

#[test]
fn approve_constraints() {
    let acc = approve_accounts(1);
    assert_eq!(acc.check_constraints(), Ok(()));
    let mut bad_seq = approve_accounts(1);
    bad_seq.transaction.data.owner_sequence = 4;
    assert_eq!(bad_seq.check_constraints(), Err(ConstraintError::ConstraintRaw));
    let mut other_wallet = approve_accounts(1);
    other_wallet.transaction.data.shared_wallet = key(8);
    assert_eq!(other_wallet.check_constraints(), Err(ConstraintError::ConstraintHasOne));
}

fn execute_accounts(signer: Pubkey, did_execute: bool) -> ExecuteTransaction {
    let mut tx = empty_tx();
    tx.shared_wallet = key(9);
    tx.owner_sequence = 3;
    tx.program_id = key(40);
    tx.accounts = vec![meta(20, false, true), signer_meta(signer), meta(22, true, false)];
    tx.data = vec![5, 6];
    tx.signers = vec![true, false, true];
    tx.did_execute = did_execute;
    ExecuteTransaction {
        shared_wallet: account(key(9), wallet(vec![key(1), key(2), key(3)], 2)),
        transaction: account(key(10), tx),
        shared_wallet_signer: signer,
    }
}

fn signer_meta(k: Pubkey) -> TransactionAccount {
    TransactionAccount { pubkey: k, is_signer: false, is_writable: true }
}

#[test]
fn prepare_refuses_below_threshold() {
    let mut acc = execute_accounts(key(21), false);
    acc.transaction.data.signers = vec![true, false, false];
    assert!(matches!(prepare_execution(&acc), Err(ErrorCode::NotEnoughSigners)));
    assert!(!acc.transaction.data.did_execute);
}

#[test]
fn approvals_up_to_threshold_make_transaction_executable() {
    let mut create = tx_accounts(1);
    create_transaction(&mut create, key(40), vec![meta(20, false, true)], vec![5]).unwrap();
    let mut approve = ApproveTransaction {
        shared_wallet: create.shared_wallet,
        transaction: create.transaction,
        owner: signer(key(3)),
    };
    assert_eq!(approve_transaction(&mut approve), Ok(()));
    let exec = ExecuteTransaction {
        shared_wallet: approve.shared_wallet,
        transaction: approve.transaction,
        shared_wallet_signer: key(21),
    };
    let plan = prepare_execution(&exec).unwrap();
    assert!(plan.program_id == key(40));
    assert_eq!(plan.data, vec![5]);
}

#[test]
fn prepare_marks_wallet_signer() {
    let acc = execute_accounts(key(21), false);
    let plan = prepare_execution(&acc).unwrap();
    assert!(plan.program_id == key(40));
    assert_eq!(plan.data, vec![5, 6]);
    assert_eq!(plan.accounts.len(), 3);
    assert!(!plan.accounts[0].is_signer && plan.accounts[0].is_writable);
    assert!(plan.accounts[1].is_signer && plan.accounts[1].is_writable);
    assert!(plan.accounts[2].is_signer && !plan.accounts[2].is_writable);
    assert_eq!(plan.signer_seeds, vec![vec![9u8; 32], vec![254u8]]);
}

#[test]
fn transaction_executes_at_most_once() {
    let mut acc = execute_accounts(key(21), false);
    finish_execution(&mut acc, false);
    assert!(!acc.transaction.data.did_execute);
    assert!(prepare_execution(&acc).is_ok());
    finish_execution(&mut acc, true);
    assert!(acc.transaction.data.did_execute);
    assert!(matches!(prepare_execution(&acc), Err(ErrorCode::AlreadyExecuted)));
}

#[test]
fn execute_constraints_use_derived_signer() {
    let program_id = anchor_lang::prelude::Pubkey::new_from_array([40u8; 32]);
    let wallet_key = [9u8; 32];
    let derived = anchor_lang::prelude::Pubkey::create_program_address(&[&wallet_key[..], &[254u8][..]], &program_id);
    let pid = Pubkey::new_from_array([40u8; 32]);
    match derived {
        Ok(pda) => {
            let acc = execute_accounts(Pubkey::new_from_array(pda.to_bytes()), false);
            assert_eq!(acc.check_constraints(&pid), Ok(()));
        }
        Err(_) => {
            let acc = execute_accounts(key(21), false);
            assert_eq!(acc.check_constraints(&pid), Err(ConstraintError::ConstraintSeeds));
        }
    }
    // The wallet's own key is not the derived signer address.
    let acc = execute_accounts(key(9), false);
    assert_eq!(acc.check_constraints(&pid), Err(ConstraintError::ConstraintSeeds));
    let mut bad = execute_accounts(key(21), false);
    bad.transaction.data.owner_sequence = 0;
    assert_eq!(bad.check_constraints(&pid), Err(ConstraintError::ConstraintRaw));
}

#[test]
fn signer_count_counts_true() {
    assert_eq!(signer_count(&vec![]), 0);
    assert_eq!(signer_count(&vec![true, false, true, true]), 3);
}

#[test]
fn wallet_account_checks() {
    let mut cw = create_accounts();
    assert_eq!(cw.check_constraints(), Err(ConstraintError::ConstraintZero));
    cw.shared_wallet.in_use = false;
    assert_eq!(cw.check_constraints(), Ok(()));
    cw.shared_wallet.is_signer = false;
    assert_eq!(cw.check_constraints(), Err(ConstraintError::ConstraintSigner));

    let mut ct = tx_accounts(1);
    // An executed transaction account cannot be reused for a new one.
    ct.transaction.data.did_execute = true;
    assert_eq!(ct.check_constraints(), Err(ConstraintError::ConstraintZero));
    ct.transaction.in_use = false;
    assert_eq!(ct.check_constraints(), Ok(()));
    ct.initiator.is_signer = false;
    assert_eq!(ct.check_constraints(), Err(ConstraintError::AccountNotSigner));

    let mut ap = approve_accounts(2);
    ap.owner.is_signer = false;
    assert_eq!(ap.check_constraints(), Err(ConstraintError::AccountNotSigner));
    let mut ap = approve_accounts(2);
    ap.transaction.is_writable = false;
    assert_eq!(ap.check_constraints(), Err(ConstraintError::ConstraintMut));
}

#[test]
fn three_distinct_approvals_meet_threshold_three() {
    let mut create = tx_accounts(1);
    create.shared_wallet.data.threshold_owners = 3;
    create_transaction(&mut create, key(40), vec![], vec![]).unwrap();
    let mut approve = ApproveTransaction {
        shared_wallet: create.shared_wallet,
        transaction: create.transaction,
        owner: signer(key(2)),
    };
    approve_transaction(&mut approve).unwrap();
    let below = ExecuteTransaction {
        shared_wallet: account(key(9), wallet(vec![key(1), key(2), key(3)], 3)),
        transaction: account(key(10), Transaction {
            signers: approve.transaction.data.signers.clone(),
            ..empty_tx()
        }),
        shared_wallet_signer: key(21),
    };
    assert!(matches!(prepare_execution(&below), Err(ErrorCode::NotEnoughSigners)));
    approve.owner = signer(key(3));
    approve_transaction(&mut approve).unwrap();
    assert_eq!(approve.transaction.data.signers, vec![true, true, true]);
    let exec = ExecuteTransaction {
        shared_wallet: approve.shared_wallet,
        transaction: approve.transaction,
        shared_wallet_signer: key(21),
    };
    assert!(prepare_execution(&exec).is_ok());
}
