//! Keys, keyed accounts, program-derived addresses and the account
//! constraint errors shared by all programs of the crate.
use vstd::prelude::*;

verus! {

/// A 32-byte account address.
#[derive(Clone, Copy, Debug)]
pub struct Pubkey {
    pub bytes: [u8; 32],
}

impl View for Pubkey {
    type V = Seq<u8>;

    open spec fn view(&self) -> Seq<u8> {
        self.bytes@
    }
}

impl PartialEq for Pubkey {
    fn eq(&self, other: &Self) -> (r: bool) {
        let mut i: usize = 0;
        while i < 32
            invariant
                i <= 32,
                forall|j: int| 0 <= j < i ==> self.bytes@[j] == other.bytes@[j],
            decreases 32 - i,
        {
            if self.bytes[i] != other.bytes[i] {
                return false;
            }
            i = i + 1;
        }
        assert(self.bytes@ =~= other.bytes@);
        true
    }
}

impl vstd::std_specs::cmp::PartialEqSpecImpl for Pubkey {
    open spec fn obeys_eq_spec() -> bool {
        true
    }

    open spec fn eq_spec(&self, other: &Self) -> bool {
        self@ == other@
    }
}

impl Eq for Pubkey {}

impl Pubkey {
    /// The key made of the given bytes.
    pub fn new_from_array(bytes: [u8; 32]) -> (k: Pubkey)
        ensures
            k@ == bytes@,
    {
        Pubkey { bytes }
    }

    /// The key's bytes, as a vector (the seed form of a key).
    pub fn to_vec(&self) -> (v: Vec<u8>)
        ensures
            v@ == self@,
    {
        let mut v: Vec<u8> = Vec::new();
        let mut i: usize = 0;
        while i < 32
            invariant
                i <= 32,
                v@ =~= self@.take(i as int),
            decreases 32 - i,
        {
            v.push(self.bytes[i]);
            i = i + 1;
        }
        v
    }
}

/// Seeds made of two byte strings, as vectors.
pub(crate) fn two_seeds(first: Vec<u8>, second: Vec<u8>) -> (seeds: Vec<Vec<u8>>)
    ensures
        seeds.deep_view() == seq![first@, second@],
{
    let ghost f = first@;
    let ghost g = second@;
    let mut seeds: Vec<Vec<u8>> = Vec::new();
    seeds.push(first);
    seeds.push(second);
    assert(seeds@[0].deep_view() =~= f);
    assert(seeds@[1].deep_view() =~= g);
    assert(seeds.deep_view() =~= seq![f, g]);
    seeds
}

/// An account as a program sees it: its address, whether the transaction
/// signed for it and may write it, whether it already holds a program's data
/// (a set discriminator), and its deserialized data.
pub struct KeyedAccount<T> {
    pub key: Pubkey,
    pub is_signer: bool,
    pub is_writable: bool,
    pub in_use: bool,
    pub data: T,
}

/// An account that only has to sign: its address and its flags.
#[derive(Clone, Copy, Debug)]
pub struct Signer {
    pub key: Pubkey,
    pub is_signer: bool,
    pub is_writable: bool,
}

/// The errors with which an instruction's accounts are refused before its
/// handler runs. Accounts are read in their declared order (a signer that
/// did not sign, a program account that holds no data), then accounts to be
/// created are created (one that holds data already is in use), then each
/// remaining account's constraints are checked in their declared order:
/// fresh, writable, signed, `has_one`, `constraint = ..`, seeds.
#[derive(Clone, Copy, Debug, PartialEq, Eq, Structural)]
pub enum ConstraintError {
    /// A signer account did not sign.
    AccountNotSigner,
    /// A program account holds no data yet.
    AccountNotInitialized,
    /// An account to be created already holds data.
    AccountAlreadyInUse,
    /// An account that must be fresh already holds data.
    ConstraintZero,
    /// An account the instruction writes is not writable.
    ConstraintMut,
    /// An account marked `signer` did not sign.
    ConstraintSigner,
    /// A `has_one` field of an account does not hold the named account's key.
    ConstraintHasOne,
    /// A `constraint = ..` expression is false.
    ConstraintRaw,
    /// An account is not at the address derived from its seeds.
    ConstraintSeeds,
}

/// The error a handler raises for instruction data it cannot accept.
#[derive(Clone, Copy, Debug, PartialEq, Eq, Structural)]
pub enum ProgramError {
    InvalidInstructionData,
}

/// The address that `Pubkey::create_program_address` derives from `seeds`
/// (the bump seed among them) and a program id; `None` where it refuses them.
pub uninterp spec fn derived_address(seeds: Seq<Seq<u8>>, program_id: Seq<u8>) -> Option<Seq<u8>>;

/// The canonical program address and bump seed that
/// `Pubkey::try_find_program_address` finds for `seeds` and a program id;
/// `None` where it finds none.
pub uninterp spec fn canonical_address(seeds: Seq<Seq<u8>>, program_id: Seq<u8>) -> Option<(Seq<u8>, u8)>;

/// Calls anchor_lang's `Pubkey::create_program_address` (solana-address).
/// Trusted: the result, as `Option` of the key's bytes, is `derived_address`
/// of the seeds and the program id; every error becomes `None`.
#[verifier::external_body]
pub(crate) fn create_program_address(seeds: &Vec<Vec<u8>>, program_id: &Pubkey) -> (r: Option<Pubkey>)
    ensures
        r is Some <==> derived_address(seeds.deep_view(), program_id@) is Some,
        r matches Some(k) ==> derived_address(seeds.deep_view(), program_id@) == Some(k@),
{
    let refs: Vec<&[u8]> = seeds.iter().map(|s| s.as_slice()).collect();
    let id = anchor_lang::prelude::Pubkey::new_from_array(program_id.bytes);
    match anchor_lang::prelude::Pubkey::create_program_address(&refs, &id) {
        Ok(k) => Some(Pubkey { bytes: k.to_bytes() }),
        Err(_) => None,
    }
}

/// Calls anchor_lang's `Pubkey::try_find_program_address` (solana-address).
/// Trusted: the result, as `Option` of the key's bytes and the bump seed, is
/// `canonical_address` of the seeds and the program id.
#[verifier::external_body]
pub(crate) fn find_program_address(seeds: &Vec<Vec<u8>>, program_id: &Pubkey) -> (r: Option<(Pubkey, u8)>)
    ensures
        r is Some <==> canonical_address(seeds.deep_view(), program_id@) is Some,
        r matches Some((k, b)) ==> canonical_address(seeds.deep_view(), program_id@) == Some((k@, b)),
{
    let refs: Vec<&[u8]> = seeds.iter().map(|s| s.as_slice()).collect();
    let id = anchor_lang::prelude::Pubkey::new_from_array(program_id.bytes);
    match anchor_lang::prelude::Pubkey::try_find_program_address(&refs, &id) {
        Some((k, b)) => Some((Pubkey { bytes: k.to_bytes() }, b)),
        None => None,
    }
}

} // verus!
