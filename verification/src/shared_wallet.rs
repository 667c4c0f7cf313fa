//! A shared (multisig) wallet: owners propose transactions, approve them,
//! and a transaction is executed once through the wallet's signer address.
use vstd::prelude::*;

use crate::accounts::{create_program_address, two_seeds, ConstraintError, KeyedAccount, Pubkey, Signer};

verus! {

/// The errors of the shared wallet program.
#[derive(Clone, Copy, Debug, PartialEq, Eq, Structural)]
pub enum ErrorCode {
    InvalidOwner,
    InvalidOwnerslen,
    InvalidThreshold,
    UniqueOwners,
    AlreadyExecuted,
    NotEnoughSigners,
}

/// An account of a proposed instruction, with its signer and writable flags.
#[derive(Clone, Copy, Debug)]
pub struct TransactionAccount {
    pub pubkey: Pubkey,
    pub is_signer: bool,
    pub is_writable: bool,
}

/// The wallet: its owners, how many of them must approve, the bump seed of
/// its signer address, and a sequence number of its owner set.
pub struct SharedWallet {
    pub owners: Vec<Pubkey>,
    pub threshold_owners: u64,
    pub nonce: u8,
    pub owner_sequence: u32,
}

/// A proposed instruction and, per owner, whether that owner approved it.
pub struct Transaction {
    pub shared_wallet: Pubkey,
    pub program_id: Pubkey,
    pub accounts: Vec<TransactionAccount>,
    pub data: Vec<u8>,
    pub signers: Vec<bool>,
    pub did_execute: bool,
    pub owner_sequence: u32,
}

/// Accounts of `create_wallet`.
pub struct CreateWallet {
    pub shared_wallet: KeyedAccount<SharedWallet>,
}

/// Accounts of `create_transaction`.
pub struct CreateTransaction {
    pub shared_wallet: KeyedAccount<SharedWallet>,
    pub transaction: KeyedAccount<Transaction>,
    pub initiator: Signer,
}

/// Accounts of `approve_transaction`.
pub struct ApproveTransaction {
    pub shared_wallet: KeyedAccount<SharedWallet>,
    pub transaction: KeyedAccount<Transaction>,
    pub owner: Signer,
}

/// Accounts of `execute_transaction`.
pub struct ExecuteTransaction {
    pub shared_wallet: KeyedAccount<SharedWallet>,
    pub transaction: KeyedAccount<Transaction>,
    pub shared_wallet_signer: Pubkey,
}

/// What executing a transaction hands to the runtime: the instruction to
/// invoke and the seeds with which the wallet's signer address signs it.
pub struct ExecutionPlan {
    pub program_id: Pubkey,
    pub accounts: Vec<TransactionAccount>,
    pub data: Vec<u8>,
    pub signer_seeds: Vec<Vec<u8>>,
}

// ---------------------------------------------------------------- specs

/// Some key occurs twice in `owners`.
pub open spec fn has_duplicate(owners: Seq<Pubkey>) -> bool {
    exists|i: int, j: int| 0 <= i < j < owners.len() && owners[i]@ == owners[j]@
}

/// `key` is one of `owners`.
pub open spec fn is_owner(owners: Seq<Pubkey>, key: Pubkey) -> bool {
    exists|i: int| 0 <= i < owners.len() && owners[i]@ == key@
}

/// `i` is the first position of `key` in `owners`.
pub open spec fn first_index(owners: Seq<Pubkey>, key: Pubkey, i: int) -> bool {
    &&& 0 <= i < owners.len()
    &&& owners[i]@ == key@
    &&& forall|j: int| 0 <= j < i ==> owners[j]@ != key@
}

/// How many entries of `s` are `true`.
pub open spec fn count_true(s: Seq<bool>) -> nat
    decreases s.len(),
{
    if s.len() == 0 {
        0
    } else {
        count_true(s.drop_last()) + if s.last() {
            1nat
        } else {
            0nat
        }
    }
}

/// The positions of the owners that approved: the `true` entries.
pub open spec fn approved_positions(s: Seq<bool>) -> Set<int> {
    Set::new(|j: int| 0 <= j < s.len() && s[j])
}

/// The two transactions agree on everything but their approvals.
pub open spec fn same_but_signers(a: Transaction, b: Transaction) -> bool {
    &&& a.shared_wallet == b.shared_wallet
    &&& a.program_id == b.program_id
    &&& a.accounts == b.accounts
    &&& a.data == b.data
    &&& a.did_execute == b.did_execute
    &&& a.owner_sequence == b.owner_sequence
}

/// The two transactions agree on everything but whether they were executed.
pub open spec fn same_but_executed(a: Transaction, b: Transaction) -> bool {
    &&& a.shared_wallet == b.shared_wallet
    &&& a.program_id == b.program_id
    &&& a.accounts == b.accounts
    &&& a.data == b.data
    &&& a.signers == b.signers
    &&& a.owner_sequence == b.owner_sequence
}

/// An account of the instruction as it is invoked: the wallet's signer
/// address is marked as a signer, every other flag is kept.
pub open spec fn as_invoked(acc: TransactionAccount, signer: Pubkey) -> TransactionAccount {
    if acc.pubkey@ == signer@ {
        TransactionAccount { is_signer: true, ..acc }
    } else {
        acc
    }
}

/// The seeds of the wallet's signer address: the wallet's key and its bump.
pub open spec fn signer_seeds(wallet_key: Pubkey, nonce: u8) -> Seq<Seq<u8>> {
    seq![wallet_key@, seq![nonce]]
}

/// The address derived from `seeds` under `program_id` exists and is `key`.
pub open spec fn derived_address_is(seeds: Seq<Seq<u8>>, program_id: Seq<u8>, key: Seq<u8>) -> bool {
    crate::accounts::derived_address(seeds, program_id) == Some(key)
}

/// What `create_wallet` does with `owners`, `threshold` and `nonce`.
pub open spec fn create_wallet_outcome(
    pre: CreateWallet,
    owners: Seq<Pubkey>,
    threshold: u64,
    nonce: u8,
    r: Result<(), ErrorCode>,
    post: CreateWallet,
) -> bool {
    if has_duplicate(owners) {
        r == Err::<(), ErrorCode>(ErrorCode::UniqueOwners) && post == pre
    } else if !(0 < threshold && threshold <= owners.len()) {
        r == Err::<(), ErrorCode>(ErrorCode::InvalidThreshold) && post == pre
    } else if owners.len() == 0 {
        r == Err::<(), ErrorCode>(ErrorCode::InvalidOwnerslen) && post == pre
    } else {
        &&& r is Ok
        &&& post.shared_wallet.key == pre.shared_wallet.key
        &&& post.shared_wallet.data.owners@ == owners
        &&& post.shared_wallet.data.threshold_owners == threshold
        &&& post.shared_wallet.data.nonce == nonce
        &&& post.shared_wallet.data.owner_sequence == 0
    }
}

/// What `create_transaction` does with the proposed instruction.
pub open spec fn create_transaction_outcome(
    pre: CreateTransaction,
    pid: Pubkey,
    accs: Seq<TransactionAccount>,
    data: Seq<u8>,
    r: Result<(), ErrorCode>,
    post: CreateTransaction,
) -> bool {
    let owners = pre.shared_wallet.data.owners@;
    if !is_owner(owners, pre.initiator.key) {
        r == Err::<(), ErrorCode>(ErrorCode::InvalidOwner) && post == pre
    } else {
        let tx = post.transaction.data;
        &&& r is Ok
        &&& post.shared_wallet == pre.shared_wallet
        &&& post.initiator == pre.initiator
        &&& post.transaction.key == pre.transaction.key
        &&& tx.program_id == pid
        &&& tx.accounts@ == accs
        &&& tx.data@ == data
        &&& tx.signers@.len() == owners.len()
        &&& forall|j: int|
            0 <= j < owners.len() ==> (#[trigger] tx.signers@[j] <==> first_index(
                owners,
                pre.initiator.key,
                j,
            ))
        &&& tx.shared_wallet == pre.shared_wallet.key
        &&& !tx.did_execute
        &&& tx.owner_sequence == pre.shared_wallet.data.owner_sequence
    }
}

/// What `approve_transaction` does.
pub open spec fn approve_outcome(
    pre: ApproveTransaction,
    r: Result<(), ErrorCode>,
    post: ApproveTransaction,
) -> bool {
    let owners = pre.shared_wallet.data.owners@;
    if !is_owner(owners, pre.owner.key) {
        r == Err::<(), ErrorCode>(ErrorCode::InvalidOwner) && post == pre
    } else {
        &&& r is Ok
        &&& post.shared_wallet == pre.shared_wallet
        &&& post.owner == pre.owner
        &&& post.transaction.key == pre.transaction.key
        &&& same_but_signers(pre.transaction.data, post.transaction.data)
        &&& forall|i: int|
            first_index(owners, pre.owner.key, i) ==> post.transaction.data.signers@
                == pre.transaction.data.signers@.update(i, true)
    }
}

/// The approval of `approve_transaction` does not index past the approvals:
/// the owner's first position is a position of `signers`.
pub open spec fn approval_in_range(accounts: ApproveTransaction) -> bool {
    forall|i: int|
        first_index(accounts.shared_wallet.data.owners@, accounts.owner.key, i) ==> i
            < accounts.transaction.data.signers@.len()
}

/// What `prepare_execution` returns.
pub open spec fn prepare_outcome(accounts: ExecuteTransaction, r: Result<ExecutionPlan, ErrorCode>) -> bool {
    let tx = accounts.transaction.data;
    if tx.did_execute {
        r == Err::<ExecutionPlan, ErrorCode>(ErrorCode::AlreadyExecuted)
    } else if count_true(tx.signers@) < accounts.shared_wallet.data.threshold_owners {
        r == Err::<ExecutionPlan, ErrorCode>(ErrorCode::NotEnoughSigners)
    } else {
        &&& r is Ok
        &&& r->Ok_0.program_id == tx.program_id
        &&& r->Ok_0.data@ == tx.data@
        &&& r->Ok_0.accounts@.len() == tx.accounts@.len()
        &&& forall|i: int|
            0 <= i < tx.accounts@.len() ==> #[trigger] r->Ok_0.accounts@[i] == as_invoked(
                tx.accounts@[i],
                accounts.shared_wallet_signer,
            )
        &&& r->Ok_0.signer_seeds.deep_view() == signer_seeds(
            accounts.shared_wallet.key,
            accounts.shared_wallet.data.nonce,
        )
    }
}

/// What `finish_execution` does once the runtime reported on the invocation.
pub open spec fn finish_outcome(pre: ExecuteTransaction, invoked: bool, post: ExecuteTransaction) -> bool {
    &&& post.shared_wallet == pre.shared_wallet
    &&& post.shared_wallet_signer == pre.shared_wallet_signer
    &&& post.transaction.key == pre.transaction.key
    &&& same_but_executed(pre.transaction.data, post.transaction.data)
    &&& post.transaction.data.did_execute == (pre.transaction.data.did_execute || invoked)
}

// ---------------------------------------------------------------- helpers

/// The first position of `key` in `owners`, if any.
fn position(owners: &Vec<Pubkey>, key: &Pubkey) -> (r: Option<usize>)
    ensures
        r matches Some(i) ==> first_index(owners@, *key, i as int),
        r is None <==> !is_owner(owners@, *key),
{
    let mut i: usize = 0;
    while i < owners.len()
        invariant
            i <= owners.len(),
            forall|j: int| 0 <= j < i ==> owners@[j]@ != key@,
        decreases owners.len() - i,
    {
        if owners[i] == *key {
            return Some(i);
        }
        i = i + 1;
    }
    None
}

/// Refuses an owner list in which some key occurs twice.
pub fn check_unique_owners(owners: &[Pubkey]) -> (r: Result<(), ErrorCode>)
    ensures
        r is Ok <==> !has_duplicate(owners@),
        r is Err ==> r == Err::<(), ErrorCode>(ErrorCode::UniqueOwners),
{
    let n = owners.len();
    let mut i: usize = 0;
    while i < n
        invariant
            n == owners@.len(),
            i <= n,
            forall|a: int, b: int| 0 <= a < i && a < b < n ==> owners@[a]@ != owners@[b]@,
        decreases n - i,
    {
        let mut j: usize = i + 1;
        while j < n
            invariant
                n == owners@.len(),
                i < n,
                i + 1 <= j <= n,
                forall|a: int, b: int| 0 <= a < i && a < b < n ==> owners@[a]@ != owners@[b]@,
                forall|b: int| i < b < j ==> owners@[i as int]@ != owners@[b]@,
            decreases n - j,
        {
            if owners[j] == owners[i] {
                return Err(ErrorCode::UniqueOwners);
            }
            j = j + 1;
        }
        i = i + 1;
    }
    Ok(())
}

/// How many owners approved.
pub fn signer_count(signers: &Vec<bool>) -> (r: usize)
    ensures
        r == count_true(signers@),
        r == approved_positions(signers@).len(),
        r <= signers@.len(),
{
    let mut count: usize = 0;
    let mut i: usize = 0;
    while i < signers.len()
        invariant
            i <= signers.len(),
            count == count_true(signers@.take(i as int)),
            count <= i,
        decreases signers.len() - i,
    {
        assert(signers@.take(i + 1).drop_last() =~= signers@.take(i as int));
        if signers[i] {
            count = count + 1;
        }
        i = i + 1;
    }
    assert(signers@.take(signers.len() as int) =~= signers@);
    proof {
        lemma_count_is_approvals(signers@);
    }
    count
}

/// The seeds of the wallet's signer address, as vectors.
fn wallet_signer_seeds(wallet_key: &Pubkey, nonce: u8) -> (seeds: Vec<Vec<u8>>)
    ensures
        seeds.deep_view() == signer_seeds(*wallet_key, nonce),
{
    let mut bump: Vec<u8> = Vec::new();
    bump.push(nonce);
    assert(bump@ =~= seq![nonce]);
    two_seeds(wallet_key.to_vec(), bump)
}

// ---------------------------------------------------------------- handlers

/// Sets up a wallet with its owners, approval threshold and signer bump;
/// refused for a repeated owner, for a threshold that is not between one and
/// the number of owners, and for an empty owner list.
pub fn create_wallet(accounts: &mut CreateWallet, owners: Vec<Pubkey>, threshold: u64, nonce: u8) -> (r: Result<(), ErrorCode>)
    ensures
        create_wallet_outcome(*old(accounts), owners@, threshold, nonce, r, *final(accounts)),
{
    let unique = check_unique_owners(owners.as_slice());
    if unique.is_err() {
        return Err(ErrorCode::UniqueOwners);
    }
    if !(threshold > 0 && threshold <= owners.len() as u64) {
        return Err(ErrorCode::InvalidThreshold);
    }
    if owners.is_empty() {
        return Err(ErrorCode::InvalidOwnerslen);
    }
    let wallet = &mut accounts.shared_wallet.data;
    wallet.owners = owners;
    wallet.threshold_owners = threshold;
    wallet.nonce = nonce;
    wallet.owner_sequence = 0;
    Ok(())
}

/// Proposes an instruction; the initiating owner's approval is recorded.
pub fn create_transaction(
    accounts: &mut CreateTransaction,
    pid: Pubkey,
    accs: Vec<TransactionAccount>,
    data: Vec<u8>,
) -> (r: Result<(), ErrorCode>)
    ensures
        create_transaction_outcome(*old(accounts), pid, accs@, data@, r, *final(accounts)),
{
    let owner_index = match position(&accounts.shared_wallet.data.owners, &accounts.initiator.key) {
        Some(i) => i,
        None => {
            return Err(ErrorCode::InvalidOwner);
        },
    };
    let n = accounts.shared_wallet.data.owners.len();
    let mut signers: Vec<bool> = Vec::new();
    let mut i: usize = 0;
    while i < n
        invariant
            i <= n,
            signers@.len() == i,
            forall|j: int| 0 <= j < i ==> !#[trigger] signers@[j],
        decreases n - i,
    {
        signers.push(false);
        i = i + 1;
    }
    signers.set(owner_index, true);
    let key = accounts.shared_wallet.key;
    let sequence = accounts.shared_wallet.data.owner_sequence;
    let tx = &mut accounts.transaction.data;
    tx.program_id = pid;
    tx.accounts = accs;
    tx.data = data;
    tx.signers = signers;
    tx.shared_wallet = key;
    tx.did_execute = false;
    tx.owner_sequence = sequence;
    proof {
        let owners = old(accounts).shared_wallet.data.owners@;
        assert forall|j: int| 0 <= j < owners.len() implies (#[trigger] signers@[j]
            <==> first_index(owners, old(accounts).initiator.key, j)) by {
            if j != owner_index && first_index(owners, old(accounts).initiator.key, j) {
                if j < owner_index {
                } else {
                    assert(owners[owner_index as int]@ == old(accounts).initiator.key@);
                }
            }
        }
    }
    Ok(())
}

/// Records the approval of the signing owner.
pub fn approve_transaction(accounts: &mut ApproveTransaction) -> (r: Result<(), ErrorCode>)
    requires
        approval_in_range(*old(accounts)),
    ensures
        approve_outcome(*old(accounts), r, *final(accounts)),
{
    let owner_index = match position(&accounts.shared_wallet.data.owners, &accounts.owner.key) {
        Some(i) => i,
        None => {
            return Err(ErrorCode::InvalidOwner);
        },
    };
    accounts.transaction.data.signers.set(owner_index, true);
    proof {
        let owners = old(accounts).shared_wallet.data.owners@;
        assert forall|i: int| first_index(owners, old(accounts).owner.key, i) implies i
            == owner_index by {
            if i < owner_index {
                assert(owners[i]@ == old(accounts).owner.key@);
            } else if i > owner_index {
                assert(owners[owner_index as int]@ == old(accounts).owner.key@);
            }
        }
    }
    Ok(())
}

/// The decision half of executing a transaction: refuses one that was
/// executed already or that fewer owners approved than the wallet's
/// threshold, and otherwise gives the instruction to invoke, with the
/// wallet's signer address marked as a signer, and the signer seeds.
pub fn prepare_execution(accounts: &ExecuteTransaction) -> (r: Result<ExecutionPlan, ErrorCode>)
    ensures
        prepare_outcome(*accounts, r),
        !accounts.transaction.data.did_execute && approved_positions(
            accounts.transaction.data.signers@,
        ).len() < accounts.shared_wallet.data.threshold_owners ==> r == Err::<ExecutionPlan, ErrorCode>(
            ErrorCode::NotEnoughSigners,
        ),
        r is Ok ==> !accounts.transaction.data.did_execute && approved_positions(
            accounts.transaction.data.signers@,
        ).len() >= accounts.shared_wallet.data.threshold_owners,
        r is Ok ==> forall|i: int|
            0 <= i < accounts.transaction.data.accounts@.len() ==> {
                let before = accounts.transaction.data.accounts@[i];
                let after = #[trigger] r->Ok_0.accounts@[i];
                &&& after.pubkey == before.pubkey
                &&& after.is_writable == before.is_writable
                &&& after.is_signer == (before.is_signer || before.pubkey@
                    == accounts.shared_wallet_signer@)
            },
{
    proof {
        lemma_count_is_approvals(accounts.transaction.data.signers@);
    }
    let tx = &accounts.transaction.data;
    if tx.did_execute {
        return Err(ErrorCode::AlreadyExecuted);
    }
    // Checking if we have enough signers.
    let sig_count = signer_count(&tx.signers) as u64;
    if sig_count < accounts.shared_wallet.data.threshold_owners {
        return Err(ErrorCode::NotEnoughSigners);
    }
    let signer = accounts.shared_wallet_signer;
    let mut invoked_accounts: Vec<TransactionAccount> = Vec::new();
    let mut i: usize = 0;
    while i < tx.accounts.len()
        invariant
            i <= tx.accounts@.len(),
            invoked_accounts@.len() == i,
            forall|j: int|
                0 <= j < i ==> #[trigger] invoked_accounts@[j] == as_invoked(tx.accounts@[j], signer),
        decreases tx.accounts.len() - i,
    {
        let mut acc = tx.accounts[i];
        if acc.pubkey == signer {
            acc.is_signer = true;
        }
        invoked_accounts.push(acc);
        i = i + 1;
    }
    let mut data: Vec<u8> = Vec::new();
    let mut k: usize = 0;
    while k < tx.data.len()
        invariant
            k <= tx.data@.len(),
            data@ =~= tx.data@.take(k as int),
        decreases tx.data.len() - k,
    {
        data.push(tx.data[k]);
        k = k + 1;
    }
    assert(data@ =~= tx.data@);
    let seeds = wallet_signer_seeds(&accounts.shared_wallet.key, accounts.shared_wallet.data.nonce);
    Ok(ExecutionPlan { program_id: tx.program_id, accounts: invoked_accounts, data, signer_seeds: seeds })
}

/// The second half of executing a transaction: once the runtime invoked the
/// instruction successfully, the transaction is burnt, so that it is
/// executed at most once; a failed invocation leaves it as it was.
pub fn finish_execution(accounts: &mut ExecuteTransaction, invoked: bool)
    ensures
        finish_outcome(*old(accounts), invoked, *final(accounts)),
{
    if invoked {
        accounts.transaction.data.did_execute = true;
    }
}

// ---------------------------------------------------------------- constraints

/// The account checks of `create_wallet`: the wallet account is fresh and
/// signed.
pub open spec fn create_wallet_constraints(a: CreateWallet) -> Result<(), ConstraintError> {
    if a.shared_wallet.in_use {
        Err(ConstraintError::ConstraintZero)
    } else if !a.shared_wallet.is_signer {
        Err(ConstraintError::ConstraintSigner)
    } else {
        Ok(())
    }
}

/// The account checks of `create_transaction`: the wallet holds data, the
/// initiator signed, and the transaction account is fresh and signed.
pub open spec fn create_transaction_constraints(a: CreateTransaction) -> Result<(), ConstraintError> {
    if !a.shared_wallet.in_use {
        Err(ConstraintError::AccountNotInitialized)
    } else if !a.initiator.is_signer {
        Err(ConstraintError::AccountNotSigner)
    } else if a.transaction.in_use {
        Err(ConstraintError::ConstraintZero)
    } else if !a.transaction.is_signer {
        Err(ConstraintError::ConstraintSigner)
    } else {
        Ok(())
    }
}

/// The checks that `approve_transaction` and `execute_transaction` share:
/// the wallet and the transaction hold data, the wallet and the transaction
/// share their owner sequence, the transaction is writable and belongs to
/// the wallet.
pub open spec fn wallet_and_transaction_checks(
    wallet: KeyedAccount<SharedWallet>,
    tx: KeyedAccount<Transaction>,
    signer_ok: bool,
) -> Result<(), ConstraintError> {
    if !wallet.in_use || !tx.in_use {
        Err(ConstraintError::AccountNotInitialized)
    } else if !signer_ok {
        Err(ConstraintError::AccountNotSigner)
    } else if wallet.data.owner_sequence != tx.data.owner_sequence {
        Err(ConstraintError::ConstraintRaw)
    } else if !tx.is_writable {
        Err(ConstraintError::ConstraintMut)
    } else if tx.data.shared_wallet@ != wallet.key@ {
        Err(ConstraintError::ConstraintHasOne)
    } else {
        Ok(())
    }
}

/// The account checks of `approve_transaction`: those shared with
/// `execute_transaction`, with the owner a signer.
pub open spec fn approve_constraints(a: ApproveTransaction) -> Result<(), ConstraintError> {
    wallet_and_transaction_checks(a.shared_wallet, a.transaction, a.owner.is_signer)
}

/// The account checks of `execute_transaction`: those shared with
/// `approve_transaction`, and the wallet's signer address is the one derived
/// from the wallet's key and bump seed under `program_id`. The signer
/// address is a program address: it signs through the invocation, not the
/// transaction, and is not required to sign the transaction.
pub open spec fn execute_constraints(a: ExecuteTransaction, program_id: Pubkey) -> Result<(), ConstraintError> {
    let shared = wallet_and_transaction_checks(a.shared_wallet, a.transaction, true);
    if shared is Err {
        shared
    } else if derived_address_is(
        signer_seeds(a.shared_wallet.key, a.shared_wallet.data.nonce),
        program_id@,
        a.shared_wallet_signer@,
    ) {
        Ok(())
    } else {
        Err(ConstraintError::ConstraintSeeds)
    }
}

/// Checks the wallet and transaction accounts as `wallet_and_transaction_checks` says.
fn check_wallet_and_transaction(
    wallet: &KeyedAccount<SharedWallet>,
    tx: &KeyedAccount<Transaction>,
    signer_ok: bool,
) -> (r: Result<(), ConstraintError>)
    ensures
        r == wallet_and_transaction_checks(*wallet, *tx, signer_ok),
{
    if !wallet.in_use || !tx.in_use {
        return Err(ConstraintError::AccountNotInitialized);
    }
    if !signer_ok {
        return Err(ConstraintError::AccountNotSigner);
    }
    if wallet.data.owner_sequence != tx.data.owner_sequence {
        return Err(ConstraintError::ConstraintRaw);
    }
    if !tx.is_writable {
        return Err(ConstraintError::ConstraintMut);
    }
    if !(tx.data.shared_wallet == wallet.key) {
        return Err(ConstraintError::ConstraintHasOne);
    }
    Ok(())
}

impl CreateWallet {
    /// The account checks of `create_wallet`.
    pub fn check_constraints(&self) -> (r: Result<(), ConstraintError>)
        ensures
            r == create_wallet_constraints(*self),
            r is Ok <==> (!self.shared_wallet.in_use && self.shared_wallet.is_signer),
    {
        if self.shared_wallet.in_use {
            Err(ConstraintError::ConstraintZero)
        } else if !self.shared_wallet.is_signer {
            Err(ConstraintError::ConstraintSigner)
        } else {
            Ok(())
        }
    }
}

impl CreateTransaction {
    /// The account checks of `create_transaction`.
    pub fn check_constraints(&self) -> (r: Result<(), ConstraintError>)
        ensures
            r == create_transaction_constraints(*self),
            r is Ok <==> (self.shared_wallet.in_use && self.initiator.is_signer && !self.transaction.in_use
                && self.transaction.is_signer),
    {
        if !self.shared_wallet.in_use {
            Err(ConstraintError::AccountNotInitialized)
        } else if !self.initiator.is_signer {
            Err(ConstraintError::AccountNotSigner)
        } else if self.transaction.in_use {
            Err(ConstraintError::ConstraintZero)
        } else if !self.transaction.is_signer {
            Err(ConstraintError::ConstraintSigner)
        } else {
            Ok(())
        }
    }
}

impl ApproveTransaction {
    /// The account checks of `approve_transaction`.
    pub fn check_constraints(&self) -> (r: Result<(), ConstraintError>)
        ensures
            r == approve_constraints(*self),
            r is Ok <==> (self.shared_wallet.in_use && self.transaction.in_use && self.owner.is_signer
                && self.shared_wallet.data.owner_sequence == self.transaction.data.owner_sequence
                && self.transaction.is_writable && self.transaction.data.shared_wallet@
                == self.shared_wallet.key@),
    {
        check_wallet_and_transaction(&self.shared_wallet, &self.transaction, self.owner.is_signer)
    }
}

impl ExecuteTransaction {
    /// The account checks of `execute_transaction`.
    pub fn check_constraints(&self, program_id: &Pubkey) -> (r: Result<(), ConstraintError>)
        ensures
            r == execute_constraints(*self, *program_id),
            r is Ok <==> (self.shared_wallet.in_use && self.transaction.in_use
                && self.shared_wallet.data.owner_sequence == self.transaction.data.owner_sequence
                && self.transaction.is_writable && self.transaction.data.shared_wallet@
                == self.shared_wallet.key@ && crate::accounts::derived_address(
                seq![self.shared_wallet.key@, seq![self.shared_wallet.data.nonce]],
                program_id@,
            ) == Some(self.shared_wallet_signer@)),
    {
        let shared = check_wallet_and_transaction(&self.shared_wallet, &self.transaction, true);
        if shared.is_err() {
            return shared;
        }
        let seeds = wallet_signer_seeds(&self.shared_wallet.key, self.shared_wallet.data.nonce);
        match create_program_address(&seeds, program_id) {
            Some(pda) => {
                if pda == self.shared_wallet_signer {
                    Ok(())
                } else {
                    Err(ConstraintError::ConstraintSeeds)
                }
            },
            None => Err(ConstraintError::ConstraintSeeds),
        }
    }
}

// ---------------------------------------------------------------- laws

/// A key that is among the owners has a first position among them.
pub proof fn lemma_first_index_exists(owners: Seq<Pubkey>, key: Pubkey)
    requires
        is_owner(owners, key),
    ensures
        exists|i: int| first_index(owners, key, i),
    decreases owners.len(),
{
    if owners.last()@ == key@ && !is_owner(owners.drop_last(), key) {
        let i = owners.len() - 1;
        assert forall|j: int| 0 <= j < i implies owners[j]@ != key@ by {
            if owners[j]@ == key@ {
                assert(owners.drop_last()[j]@ == key@);
            }
        }
        assert(first_index(owners, key, i));
    } else {
        let w = choose|w: int| 0 <= w < owners.len() && owners[w]@ == key@;
        if w == owners.len() - 1 {
            assert(owners.last()@ == key@);
        } else {
            assert(owners.drop_last()[w]@ == key@);
        }
        lemma_first_index_exists(owners.drop_last(), key);
        let i = choose|i: int| first_index(owners.drop_last(), key, i);
        assert forall|j: int| 0 <= j < i implies owners[j]@ != key@ by {
            assert(owners.drop_last()[j]@ != key@);
        }
        assert(owners.drop_last()[i]@ == key@);
        assert(first_index(owners, key, i));
    }
}

/// A key has at most one first position among the owners.
pub proof fn lemma_first_index_unique(owners: Seq<Pubkey>, key: Pubkey, i: int, j: int)
    requires
        first_index(owners, key, i),
        first_index(owners, key, j),
    ensures
        i == j,
{
    if i < j {
        assert(owners[i]@ == key@);
    } else if j < i {
        assert(owners[j]@ == key@);
    }
}

/// A sequence with no `true` entry counts none.
pub proof fn lemma_count_none(s: Seq<bool>)
    requires
        forall|j: int| 0 <= j < s.len() ==> !s[j],
    ensures
        count_true(s) == 0,
    decreases s.len(),
{
    if s.len() > 0 {
        lemma_count_none(s.drop_last());
    }
}

/// A sequence whose only `true` entry is at `i` counts one.
pub proof fn lemma_count_single(s: Seq<bool>, i: int)
    requires
        0 <= i < s.len(),
        forall|j: int| 0 <= j < s.len() ==> (s[j] <==> j == i),
    ensures
        count_true(s) == 1,
    decreases s.len(),
{
    if i == s.len() - 1 {
        lemma_count_none(s.drop_last());
    } else {
        lemma_count_single(s.drop_last(), i);
    }
}

/// A wallet with distinct owners and a threshold between one and the number
/// of owners is created, holding exactly those owners, that threshold and
/// that bump seed.
pub proof fn lemma_valid_wallet_is_created(
    pre: CreateWallet,
    owners: Seq<Pubkey>,
    threshold: u64,
    nonce: u8,
    r: Result<(), ErrorCode>,
    post: CreateWallet,
)
    requires
        !has_duplicate(owners),
        0 < threshold <= owners.len(),
        create_wallet_outcome(pre, owners, threshold, nonce, r, post),
    ensures
        r is Ok,
        post.shared_wallet.data.owners@ == owners,
        post.shared_wallet.data.threshold_owners == threshold,
        post.shared_wallet.data.nonce == nonce,
        post.shared_wallet.data.owner_sequence == 0,
{
}

/// A new transaction carries exactly one approval: its initiator's.
pub proof fn lemma_new_transaction_has_one_approval(
    pre: CreateTransaction,
    pid: Pubkey,
    accs: Seq<TransactionAccount>,
    data: Seq<u8>,
    r: Result<(), ErrorCode>,
    post: CreateTransaction,
)
    requires
        create_transaction_outcome(pre, pid, accs, data, r, post),
        r is Ok,
    ensures
        count_true(post.transaction.data.signers@) == 1,
{
    let owners = pre.shared_wallet.data.owners@;
    lemma_first_index_exists(owners, pre.initiator.key);
    let i = choose|i: int| first_index(owners, pre.initiator.key, i);
    let s = post.transaction.data.signers@;
    assert forall|j: int| 0 <= j < s.len() implies (s[j] <==> j == i) by {
        if s[j] {
            lemma_first_index_unique(owners, pre.initiator.key, i, j);
        }
    }
    lemma_count_single(s, i);
}

/// Approving twice is approving once: the second approval of the same owner
/// succeeds and changes nothing.
pub proof fn lemma_approve_idempotent(
    a0: ApproveTransaction,
    r1: Result<(), ErrorCode>,
    a1: ApproveTransaction,
    r2: Result<(), ErrorCode>,
    a2: ApproveTransaction,
)
    requires
        approval_in_range(a0),
        approve_outcome(a0, r1, a1),
        r1 is Ok,
        approve_outcome(a1, r2, a2),
    ensures
        r2 is Ok,
        a2.transaction.data.signers@ == a1.transaction.data.signers@,
        same_but_signers(a1.transaction.data, a2.transaction.data),
{
    let owners = a0.shared_wallet.data.owners@;
    lemma_first_index_exists(owners, a0.owner.key);
    let i = choose|i: int| first_index(owners, a0.owner.key, i);
    assert(a1.transaction.data.signers@ == a0.transaction.data.signers@.update(i, true));
    assert(a2.transaction.data.signers@ == a1.transaction.data.signers@.update(i, true));
    assert(a2.transaction.data.signers@ =~= a1.transaction.data.signers@);
}

/// An approval is never taken back: whatever `approve_transaction` returns,
/// every owner that had approved still has, and no approval slot is added
/// or removed.
pub proof fn lemma_approvals_only_grow(pre: ApproveTransaction, r: Result<(), ErrorCode>, post: ApproveTransaction)
    requires
        approve_outcome(pre, r, post),
        approval_in_range(pre),
    ensures
        post.transaction.data.signers@.len() == pre.transaction.data.signers@.len(),
        forall|j: int|
            0 <= j < pre.transaction.data.signers@.len() && #[trigger] pre.transaction.data.signers@[j]
                ==> post.transaction.data.signers@[j],
        count_true(post.transaction.data.signers@) >= count_true(pre.transaction.data.signers@),
{
    if r is Ok {
        let owners = pre.shared_wallet.data.owners@;
        lemma_first_index_exists(owners, pre.owner.key);
        let i = choose|i: int| first_index(owners, pre.owner.key, i);
        lemma_count_update_true(pre.transaction.data.signers@, i);
    }
}

/// Setting an entry to `true` does not lower the count.
pub proof fn lemma_count_update_true(s: Seq<bool>, i: int)
    requires
        0 <= i < s.len(),
    ensures
        count_true(s.update(i, true)) >= count_true(s),
    decreases s.len(),
{
    let t = s.update(i, true);
    if i == s.len() - 1 {
        assert(t.drop_last() =~= s.drop_last());
    } else {
        assert(t.drop_last() =~= s.drop_last().update(i, true));
        lemma_count_update_true(s.drop_last(), i);
    }
}

/// A transaction is executed at most once: after an invocation that the
/// runtime carried out, preparing the transaction again is refused.
pub proof fn lemma_execute_at_most_once(
    a0: ExecuteTransaction,
    r1: Result<ExecutionPlan, ErrorCode>,
    a1: ExecuteTransaction,
    r2: Result<ExecutionPlan, ErrorCode>,
)
    requires
        prepare_outcome(a0, r1),
        finish_outcome(a0, true, a1),
        prepare_outcome(a1, r2),
    ensures
        r2 == Err::<ExecutionPlan, ErrorCode>(ErrorCode::AlreadyExecuted),
{
}

/// A failed invocation leaves the transaction executable: preparing it again
/// gives the same instruction.
pub proof fn lemma_failed_invocation_can_be_retried(
    a0: ExecuteTransaction,
    r1: Result<ExecutionPlan, ErrorCode>,
    a1: ExecuteTransaction,
    r2: Result<ExecutionPlan, ErrorCode>,
)
    requires
        prepare_outcome(a0, r1),
        r1 is Ok,
        finish_outcome(a0, false, a1),
        prepare_outcome(a1, r2),
    ensures
        r2 is Ok,
        r2->Ok_0.program_id == r1->Ok_0.program_id,
        r2->Ok_0.accounts@ == r1->Ok_0.accounts@,
        r2->Ok_0.data@ == r1->Ok_0.data@,
        r2->Ok_0.signer_seeds.deep_view() == r1->Ok_0.signer_seeds.deep_view(),
{
    assert(r2->Ok_0.accounts@ =~= r1->Ok_0.accounts@);
}

/// A sequence that is `true` at every position of `marked` counts at least
/// as many `true` entries as `marked` has positions.
pub proof fn lemma_count_at_least(s: Seq<bool>, marked: Set<int>)
    requires
        marked.finite(),
        forall|j: int| #[trigger] marked.contains(j) ==> 0 <= j < s.len() && s[j],
    ensures
        count_true(s) >= marked.len(),
    decreases s.len(),
{
    if s.len() == 0 {
        if marked.len() > 0 {
            let j = marked.choose();
            assert(marked.contains(j));
        }
    } else {
        let last = s.len() - 1;
        let rest = marked.remove(last);
        assert forall|j: int| #[trigger] rest.contains(j) implies 0 <= j < s.drop_last().len()
            && s.drop_last()[j] by {
            assert(marked.contains(j));
        }
        lemma_count_at_least(s.drop_last(), rest);
    }
}

/// Owners that are all distinct stand each at its own first position.
pub proof fn lemma_distinct_owner_position(owners: Seq<Pubkey>, k: int)
    requires
        !has_duplicate(owners),
        0 <= k < owners.len(),
    ensures
        first_index(owners, owners[k], k),
{
    assert forall|j: int| 0 <= j < k implies owners[j]@ != owners[k]@ by {
        if owners[j]@ == owners[k]@ {
            assert(0 <= j < k < owners.len() && owners[j]@ == owners[k]@);
        }
    }
}

/// A transaction that at least as many owners approved as the wallet's
/// threshold, and that was not executed, is prepared for execution.
pub proof fn lemma_enough_approvals_execute(
    accounts: ExecuteTransaction,
    approved: Set<int>,
    r: Result<ExecutionPlan, ErrorCode>,
)
    requires
        prepare_outcome(accounts, r),
        !accounts.transaction.data.did_execute,
        approved.finite(),
        approved.len() >= accounts.shared_wallet.data.threshold_owners,
        forall|j: int| #[trigger]
            approved.contains(j) ==> 0 <= j < accounts.transaction.data.signers@.len()
                && accounts.transaction.data.signers@[j],
    ensures
        r is Ok,
{
    lemma_count_at_least(accounts.transaction.data.signers@, approved);
}

/// A call of `approve_transaction` on `a`, within its requirement, that
/// succeeded and left `b`.
#[verifier::opaque]
pub open spec fn approval_step(a: ApproveTransaction, r: Result<(), ErrorCode>, b: ApproveTransaction) -> bool {
    &&& approval_in_range(a)
    &&& approve_outcome(a, r, b)
    &&& r is Ok
}

/// Successive approvals of one transaction: each step is a call of
/// `approve_transaction` (accounts before, result, accounts after) that
/// succeeded within its requirement; the first starts from `wallet` and
/// `tx`, and each next one from the wallet and transaction that the one
/// before left. The approving owner may differ from step to step.
pub open spec fn approval_chain(
    wallet: KeyedAccount<SharedWallet>,
    tx: KeyedAccount<Transaction>,
    steps: Seq<(ApproveTransaction, Result<(), ErrorCode>, ApproveTransaction)>,
) -> bool {
    &&& forall|k: int| 0 <= k < steps.len() ==> approval_step(#[trigger] steps[k].0, steps[k].1, steps[k].2)
    &&& steps.len() > 0 ==> steps[0].0.shared_wallet == wallet && steps[0].0.transaction == tx
    &&& forall|k: int|
        0 <= k < steps.len() - 1 ==> steps[k + 1].0.shared_wallet == (#[trigger] steps[k]).2.shared_wallet
            && steps[k + 1].0.transaction == steps[k].2.transaction
}

/// The transaction that successive approvals leave.
pub open spec fn chain_end(
    tx: KeyedAccount<Transaction>,
    steps: Seq<(ApproveTransaction, Result<(), ErrorCode>, ApproveTransaction)>,
) -> KeyedAccount<Transaction> {
    if steps.len() == 0 {
        tx
    } else {
        steps.last().2.transaction
    }
}

/// One approval keeps the wallet and everything of the transaction but its
/// approvals, keeps every earlier approval, and approves the owner's
/// position.
pub proof fn lemma_approve_step(a: ApproveTransaction, r: Result<(), ErrorCode>, b: ApproveTransaction)
    requires
        approval_step(a, r, b),
    ensures
        b.shared_wallet == a.shared_wallet,
        b.transaction.key == a.transaction.key,
        same_but_signers(a.transaction.data, b.transaction.data),
        b.transaction.data.signers@.len() == a.transaction.data.signers@.len(),
        forall|j: int|
            0 <= j < a.transaction.data.signers@.len() && #[trigger] a.transaction.data.signers@[j]
                ==> b.transaction.data.signers@[j],
        forall|i: int|
            #[trigger] first_index(a.shared_wallet.data.owners@, a.owner.key, i) ==> i
                < b.transaction.data.signers@.len() && b.transaction.data.signers@[i],
{
    reveal(approval_step);
    let owners = a.shared_wallet.data.owners@;
    lemma_first_index_exists(owners, a.owner.key);
    let p = choose|p: int| first_index(owners, a.owner.key, p);
    assert(b.transaction.data.signers@ == a.transaction.data.signers@.update(p, true));
    assert forall|i: int| #[trigger] first_index(owners, a.owner.key, i) implies i
        < b.transaction.data.signers@.len() && b.transaction.data.signers@[i] by {
        lemma_first_index_unique(owners, a.owner.key, p, i);
    }
}

/// After successive approvals the wallet and everything of the transaction
/// but its approvals are as they were, every earlier approval stands, and
/// the position of every approving owner is approved.
pub proof fn lemma_approval_chain(
    wallet: KeyedAccount<SharedWallet>,
    tx: KeyedAccount<Transaction>,
    steps: Seq<(ApproveTransaction, Result<(), ErrorCode>, ApproveTransaction)>,
)
    requires
        approval_chain(wallet, tx, steps),
    ensures
        forall|k: int|
            0 <= k < steps.len() ==> (#[trigger] steps[k]).0.shared_wallet == wallet
                && steps[k].2.shared_wallet == wallet,
        chain_end(tx, steps).key == tx.key,
        same_but_signers(tx.data, chain_end(tx, steps).data),
        chain_end(tx, steps).data.signers@.len() == tx.data.signers@.len(),
        forall|j: int|
            0 <= j < tx.data.signers@.len() && #[trigger] tx.data.signers@[j] ==> chain_end(
                tx,
                steps,
            ).data.signers@[j],
        forall|k: int, i: int|
            0 <= k < steps.len() && #[trigger] first_index(wallet.data.owners@, steps[k].0.owner.key, i)
                ==> i < chain_end(tx, steps).data.signers@.len() && chain_end(tx, steps).data.signers@[i],
    decreases steps.len(),
{
    if steps.len() > 0 {
        let n = steps.len() - 1;
        let prefix = steps.drop_last();
        assert forall|k: int| 0 <= k < prefix.len() implies approval_step(
            #[trigger] prefix[k].0,
            prefix[k].1,
            prefix[k].2,
        ) by {
            assert(prefix[k] == steps[k]);
        }
        assert forall|k: int| 0 <= k < prefix.len() - 1 implies prefix[k + 1].0.shared_wallet
            == (#[trigger] prefix[k]).2.shared_wallet && prefix[k + 1].0.transaction == prefix[k].2.transaction by {
            assert(prefix[k] == steps[k]);
            assert(prefix[k + 1] == steps[k + 1]);
        }
        lemma_approval_chain(wallet, tx, prefix);
        let before = chain_end(tx, prefix);
        if n > 0 {
            assert(prefix[n - 1] == steps[n - 1]);
            assert(steps[n].0.shared_wallet == steps[n - 1].2.shared_wallet);
            assert(steps[n].0.transaction == steps[n - 1].2.transaction);
        }
        assert(steps[n].0.transaction == before);
        assert(steps[n].0.shared_wallet == wallet);
        assert(approval_step(steps[n].0, steps[n].1, steps[n].2));
        lemma_approve_step(steps[n].0, steps[n].1, steps[n].2);
        assert forall|k: int|
            0 <= k < steps.len() implies (#[trigger] steps[k]).0.shared_wallet == wallet
                && steps[k].2.shared_wallet == wallet by {
            if k < n {
                assert(prefix[k] == steps[k]);
            }
        }
        assert forall|k: int, i: int|
            0 <= k < steps.len() && #[trigger] first_index(wallet.data.owners@, steps[k].0.owner.key, i)
                implies i < chain_end(tx, steps).data.signers@.len() && chain_end(
                tx,
                steps,
            ).data.signers@[i] by {
            if k < n {
                assert(prefix[k] == steps[k]);
                assert(before.data.signers@[i]);
            } else {
                assert(first_index(steps[n].0.shared_wallet.data.owners@, steps[n].0.owner.key, i));
            }
        }
    }
}

/// The positions of the owners that approved a transaction: its initiator
/// and the owners of the first `n` approvals.
pub open spec fn approvers(
    owners: Seq<Pubkey>,
    initiator: Pubkey,
    steps: Seq<(ApproveTransaction, Result<(), ErrorCode>, ApproveTransaction)>,
    n: int,
) -> Set<int> {
    Set::new(
        |i: int|
            0 <= i < owners.len() && (owners[i]@ == initiator@ || exists|k: int|
                0 <= k < n && owners[i]@ == (#[trigger] steps[k]).0.owner.key@),
    )
}

/// Enough approving positions make a transaction executable: when the
/// owners are distinct and the initiator of a new transaction together with
/// the owners that approved it afterwards stand at least at as many
/// positions as the threshold, the transaction is prepared for execution.
pub proof fn lemma_approvals_reach_threshold(
    c0: CreateTransaction,
    pid: Pubkey,
    accs: Seq<TransactionAccount>,
    data: Seq<u8>,
    r0: Result<(), ErrorCode>,
    c1: CreateTransaction,
    steps: Seq<(ApproveTransaction, Result<(), ErrorCode>, ApproveTransaction)>,
    e: ExecuteTransaction,
    r: Result<ExecutionPlan, ErrorCode>,
)
    requires
        !has_duplicate(c0.shared_wallet.data.owners@),
        create_transaction_outcome(c0, pid, accs, data, r0, c1),
        r0 is Ok,
        approval_chain(c1.shared_wallet, c1.transaction, steps),
        e.shared_wallet == c1.shared_wallet,
        e.transaction == chain_end(c1.transaction, steps),
        approvers(c1.shared_wallet.data.owners@, c1.initiator.key, steps, steps.len() as int).len()
            >= c1.shared_wallet.data.threshold_owners,
        prepare_outcome(e, r),
    ensures
        r is Ok,
{
    let owners = c1.shared_wallet.data.owners@;
    let approved = approvers(owners, c1.initiator.key, steps, steps.len() as int);
    lemma_approval_chain(c1.shared_wallet, c1.transaction, steps);
    vstd::set_lib::lemma_int_range(0, owners.len() as int);
    assert(approved.subset_of(vstd::set_lib::set_int_range(0, owners.len() as int)));
    vstd::set_lib::lemma_len_subset(approved, vstd::set_lib::set_int_range(0, owners.len() as int));
    let last = chain_end(c1.transaction, steps).data.signers@;
    assert forall|j: int| #[trigger] approved.contains(j) implies 0 <= j < last.len() && last[j] by {
        lemma_distinct_owner_position(owners, j);
        if owners[j]@ == c1.initiator.key@ {
            assert(first_index(owners, c1.initiator.key, j));
            assert(c1.transaction.data.signers@[j]);
        } else {
            let k = choose|k: int| 0 <= k < steps.len() && owners[j]@ == (#[trigger] steps[k]).0.owner.key@;
            assert(first_index(owners, steps[k].0.owner.key, j));
        }
    }
    lemma_enough_approvals_execute(e, approved, r);
}

/// With distinct owners, an owning initiator and `n` approving owners that
/// are owners, distinct from each other and from the initiator, the
/// approving positions number at least `n + 1`.
pub proof fn lemma_approver_count(
    owners: Seq<Pubkey>,
    initiator: Pubkey,
    steps: Seq<(ApproveTransaction, Result<(), ErrorCode>, ApproveTransaction)>,
    n: int,
)
    requires
        !has_duplicate(owners),
        is_owner(owners, initiator),
        0 <= n <= steps.len(),
        forall|k: int| 0 <= k < n ==> is_owner(owners, (#[trigger] steps[k]).0.owner.key),
        forall|k: int| 0 <= k < n ==> (#[trigger] steps[k]).0.owner.key@ != initiator@,
        forall|k1: int, k2: int|
            0 <= k1 < k2 < n ==> (#[trigger] steps[k1]).0.owner.key@ != (#[trigger] steps[k2]).0.owner.key@,
    ensures
        approvers(owners, initiator, steps, n).finite(),
        approvers(owners, initiator, steps, n).len() >= n + 1,
    decreases n,
{
    let range = vstd::set_lib::set_int_range(0, owners.len() as int);
    vstd::set_lib::lemma_int_range(0, owners.len() as int);
    let cur = approvers(owners, initiator, steps, n);
    assert(cur.subset_of(range));
    vstd::set_lib::lemma_len_subset(cur, range);
    if n == 0 {
        let w = choose|w: int| 0 <= w < owners.len() && owners[w]@ == initiator@;
        assert(cur.contains(w));
        assert(cur.remove(w).len() + 1 == cur.len());
    } else {
        let prev = approvers(owners, initiator, steps, n - 1);
        lemma_approver_count(owners, initiator, steps, n - 1);
        let key = steps[n - 1].0.owner.key;
        let w = choose|w: int| 0 <= w < owners.len() && owners[w]@ == key@;
        assert(cur =~= prev.insert(w)) by {
            assert forall|i: int| cur.contains(i) implies #[trigger] prev.insert(w).contains(i) by {
                if i != w && owners[i]@ != initiator@ {
                    let k = choose|k: int| 0 <= k < n && owners[i]@ == (#[trigger] steps[k]).0.owner.key@;
                    if k == n - 1 {
                        if i < w {
                            assert(owners[i]@ == owners[w]@);
                        } else {
                            assert(owners[w]@ == owners[i]@);
                        }
                    }
                }
            }
            assert forall|i: int| prev.insert(w).contains(i) implies #[trigger] cur.contains(i) by {
                if prev.contains(i) && owners[i]@ != initiator@ {
                    let k = choose|k: int| 0 <= k < n - 1 && owners[i]@ == (#[trigger] steps[k]).0.owner.key@;
                    assert(0 <= k < n && owners[i]@ == steps[k].0.owner.key@);
                }
            }
        }
        assert(!prev.contains(w)) by {
            if prev.contains(w) {
                if owners[w]@ == initiator@ {
                } else {
                    let k = choose|k: int| 0 <= k < n - 1 && owners[w]@ == (#[trigger] steps[k]).0.owner.key@;
                    assert(steps[k].0.owner.key@ != steps[n - 1].0.owner.key@);
                }
            }
        }
    }
}

/// Enough distinct owners' approvals make a transaction executable, for any
/// threshold: when the owners are distinct and, after an owner created a
/// transaction, owners distinct from each other and from the initiator
/// approved it at least threshold - 1 times, the transaction is prepared for
/// execution.
pub proof fn lemma_initiator_and_distinct_approvers_suffice(
    c0: CreateTransaction,
    pid: Pubkey,
    accs: Seq<TransactionAccount>,
    data: Seq<u8>,
    r0: Result<(), ErrorCode>,
    c1: CreateTransaction,
    steps: Seq<(ApproveTransaction, Result<(), ErrorCode>, ApproveTransaction)>,
    e: ExecuteTransaction,
    r: Result<ExecutionPlan, ErrorCode>,
)
    requires
        !has_duplicate(c0.shared_wallet.data.owners@),
        create_transaction_outcome(c0, pid, accs, data, r0, c1),
        r0 is Ok,
        approval_chain(c1.shared_wallet, c1.transaction, steps),
        forall|k: int| 0 <= k < steps.len() ==> (#[trigger] steps[k]).0.owner.key@ != c1.initiator.key@,
        forall|k1: int, k2: int|
            0 <= k1 < k2 < steps.len() ==> (#[trigger] steps[k1]).0.owner.key@
                != (#[trigger] steps[k2]).0.owner.key@,
        steps.len() + 1 >= c1.shared_wallet.data.threshold_owners,
        e.shared_wallet == c1.shared_wallet,
        e.transaction == chain_end(c1.transaction, steps),
        prepare_outcome(e, r),
    ensures
        r is Ok,
{
    let owners = c1.shared_wallet.data.owners@;
    lemma_approval_chain(c1.shared_wallet, c1.transaction, steps);
    assert forall|k: int| 0 <= k < steps.len() implies is_owner(owners, (#[trigger] steps[k]).0.owner.key) by {
        assert(approval_step(steps[k].0, steps[k].1, steps[k].2));
        reveal(approval_step);
    }
    lemma_approver_count(owners, c1.initiator.key, steps, steps.len() as int);
    lemma_approvals_reach_threshold(c0, pid, accs, data, r0, c1, steps, e, r);
}

/// A transaction account is used for one transaction only: accounts that
/// pass the checks of `create_transaction` hold a fresh transaction account
/// and a signing owner, and a transaction that was executed, or holds any
/// data, is never overwritten by a new one.
pub proof fn lemma_transaction_account_used_once(a: CreateTransaction)
    requires
        create_transaction_constraints(a) is Ok,
    ensures
        !a.transaction.in_use,
        a.initiator.is_signer,
        a.transaction.is_signer,
{
}

/// The approval count is the number of approved positions: `count_true`
/// counts each `true` entry once and nothing else.
pub proof fn lemma_count_is_approvals(s: Seq<bool>)
    ensures
        approved_positions(s).finite(),
        count_true(s) == approved_positions(s).len(),
        count_true(s) <= s.len(),
    decreases s.len(),
{
    vstd::set_lib::lemma_int_range(0, s.len() as int);
    assert(approved_positions(s).subset_of(vstd::set_lib::set_int_range(0, s.len() as int)));
    vstd::set_lib::lemma_len_subset(approved_positions(s), vstd::set_lib::set_int_range(0, s.len() as int));
    if s.len() > 0 {
        let last = s.len() - 1;
        let rest = s.drop_last();
        lemma_count_is_approvals(rest);
        if s[last] {
            assert(approved_positions(s) =~= approved_positions(rest).insert(last));
            assert(!approved_positions(rest).contains(last));
        } else {
            assert(approved_positions(s) =~= approved_positions(rest));
        }
    } else {
        assert(approved_positions(s) =~= Set::empty());
    }
}

/// Clearing one approval lowers the count by exactly one.
pub proof fn lemma_count_clear_one(s: Seq<bool>, i: int)
    requires
        0 <= i < s.len(),
        s[i],
    ensures
        count_true(s.update(i, false)) + 1 == count_true(s),
{
    lemma_count_is_approvals(s);
    lemma_count_is_approvals(s.update(i, false));
    assert(approved_positions(s.update(i, false)) =~= approved_positions(s).remove(i));
}

/// A transaction that fewer distinct owners approved than the threshold is
/// not executed: preparing it is refused with `NotEnoughSigners` (or
/// `AlreadyExecuted`), and a prepared transaction has at least the
/// threshold of approved positions.
pub proof fn lemma_under_approved_refused(a: ExecuteTransaction, r: Result<ExecutionPlan, ErrorCode>)
    requires
        prepare_outcome(a, r),
    ensures
        !a.transaction.data.did_execute && approved_positions(a.transaction.data.signers@).len()
            < a.shared_wallet.data.threshold_owners ==> r == Err::<ExecutionPlan, ErrorCode>(
            ErrorCode::NotEnoughSigners,
        ),
        r is Ok ==> approved_positions(a.transaction.data.signers@).len()
            >= a.shared_wallet.data.threshold_owners,
{
    lemma_count_is_approvals(a.transaction.data.signers@);
}

/// An account of the invoked instruction keeps its key and writable flag,
/// and is a signer exactly when it was one or it is the wallet's signer
/// address, whether or not it is writable.
pub proof fn lemma_as_invoked_marks_signer(acc: TransactionAccount, signer: Pubkey)
    ensures
        as_invoked(acc, signer).pubkey == acc.pubkey,
        as_invoked(acc, signer).is_writable == acc.is_writable,
        as_invoked(acc, signer).is_signer == (acc.is_signer || acc.pubkey@ == signer@),
{
}

/// In a prepared instruction every account at the wallet's signer address
/// is a signer, read-only or writable, and every other account keeps its
/// flags.
pub proof fn lemma_prepared_accounts(a: ExecuteTransaction, r: Result<ExecutionPlan, ErrorCode>, i: int)
    requires
        prepare_outcome(a, r),
        r is Ok,
        0 <= i < a.transaction.data.accounts@.len(),
    ensures
        r->Ok_0.accounts@[i].pubkey == a.transaction.data.accounts@[i].pubkey,
        r->Ok_0.accounts@[i].is_writable == a.transaction.data.accounts@[i].is_writable,
        a.transaction.data.accounts@[i].pubkey@ == a.shared_wallet_signer@ ==> r->Ok_0.accounts@[i].is_signer,
        a.transaction.data.accounts@[i].pubkey@ != a.shared_wallet_signer@ ==> r->Ok_0.accounts@[i].is_signer
            == a.transaction.data.accounts@[i].is_signer,
{
    lemma_as_invoked_marks_signer(a.transaction.data.accounts@[i], a.shared_wallet_signer);
}

/// Accounts that pass the checks of `approve_transaction` or
/// `execute_transaction` hold a wallet and a writable transaction with data,
/// of the same owner sequence, the transaction belonging to the wallet.
pub proof fn lemma_wallet_checks_passed(
    wallet: KeyedAccount<SharedWallet>,
    tx: KeyedAccount<Transaction>,
    signer_ok: bool,
)
    requires
        wallet_and_transaction_checks(wallet, tx, signer_ok) is Ok,
    ensures
        wallet.in_use,
        tx.in_use,
        signer_ok,
        tx.is_writable,
        wallet.data.owner_sequence == tx.data.owner_sequence,
        tx.data.shared_wallet@ == wallet.key@,
{
}

/// Accounts that pass the checks of `create_wallet` hold a fresh, signed
/// wallet account.
pub proof fn lemma_create_wallet_checks_passed(a: CreateWallet)
    requires
        create_wallet_constraints(a) is Ok,
    ensures
        !a.shared_wallet.in_use,
        a.shared_wallet.is_signer,
{
}

/// The wallet's signer address is derived from exactly two seeds: the
/// wallet's key and its one-byte bump.
pub proof fn lemma_signer_seeds_are_key_and_bump(wallet_key: Pubkey, nonce: u8)
    ensures
        signer_seeds(wallet_key, nonce).len() == 2,
        signer_seeds(wallet_key, nonce)[0] == wallet_key@,
        signer_seeds(wallet_key, nonce)[1] == seq![nonce],
{
}

} // verus!
