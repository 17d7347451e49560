//! Address derivations computed by `solana_sdk`. Each is a deterministic
//! function of its arguments (SHA-256 and ed25519 arithmetic), so its result
//! is given a name here rather than written out.
use crate::pubkey::Pubkey;
use solana_sdk::signer::Signer;
use vstd::prelude::*;
use vstd::string::StringSliceAdditionalSpecFns;

verus! {

/// Longest seed, in bytes, that an address derivation accepts.
pub const MAX_SEED_LEN: usize = 32;

/// Most seeds that an address derivation accepts.
pub const MAX_SEEDS: usize = 16;

/// The seeds of a derivation, each by its bytes.
pub open spec fn seeds_view(seeds: &[&[u8]]) -> Seq<Seq<u8>> {
    seeds@.map_values(|s: &[u8]| s@)
}

/// Address found by `Pubkey::try_find_program_address` for the given seeds
/// and program id (bump seed dropped), or `None` when no bump seed works.
pub uninterp spec fn program_address(seeds: Seq<Seq<u8>>, program_id: Seq<u8>) -> Option<Seq<u8>>;

/// Public key of the ed25519 keypair whose secret key is `secret`.
pub uninterp spec fn keypair_pubkey(secret: Seq<u8>) -> Seq<u8>;

/// Address `Pubkey::create_with_seed(base, seed, owner)` computes when it
/// succeeds.
pub uninterp spec fn address_with_seed(base: Seq<u8>, seed: Seq<u8>, owner: Seq<u8>) -> Seq<u8>;

/// Address `Pubkey::create_program_address(seeds, program_id)` computes, or
/// `None` where it fails.
pub uninterp spec fn created_program_address(seeds: Seq<Seq<u8>>, program_id: Seq<u8>) -> Option<Seq<u8>>;

/// The address that a derivation result stands for, by its bytes.
pub open spec fn key_opt_view(k: Option<Pubkey>) -> Option<Seq<u8>> {
    match k {
        Some(p) => Some(p@),
        None => None,
    }
}

/// Calls `Pubkey::try_find_program_address` of `solana_sdk`: the result is
/// the named function of the seeds and the program id; its source returns
/// `None` when there are 16 seeds or more (no room for the bump seed) or a
/// seed is longer than 32 bytes.
#[verifier::external_body]
pub(crate) fn try_find_program_address(seeds: &[&[u8]], program_id: &Pubkey) -> (r: Option<Pubkey>)
    ensures
        key_opt_view(r) == program_address(seeds_view(seeds), program_id@),
        seeds@.len() >= MAX_SEEDS ==> r is None,
        (exists|i: int| 0 <= i < seeds@.len() && seeds@[i]@.len() > MAX_SEED_LEN) ==> r is None,
{
    let id = solana_sdk::pubkey::Pubkey::new_from_array(program_id.bytes);
    match solana_sdk::pubkey::Pubkey::try_find_program_address(seeds, &id) {
        Some((address, _bump)) => Some(Pubkey { bytes: address.to_bytes() }),
        None => None,
    }
}

/// Calls `Keypair::new()` of `solana_sdk`, which draws a fresh ed25519
/// secret key from the operating system's random source, and hands out its
/// 32 secret bytes. Nothing is promised of them: they are random.
#[verifier::external_body]
fn new_keypair_secret() -> (r: [u8; 32]) {
    *solana_sdk::signer::keypair::Keypair::new().secret_bytes()
}

/// Calls `Pubkey::new_unique()` of `solana_sdk`, which hands out a fresh
/// address from a process-wide counter; nothing is promised of it.
#[verifier::external_body]
pub(crate) fn new_unique_pubkey() -> (r: Pubkey) {
    Pubkey { bytes: solana_sdk::pubkey::Pubkey::new_unique().to_bytes() }
}

/// A signing keypair, held by its 32-byte secret key.
#[derive(Clone, Copy, Debug)]
pub struct Keypair {
    pub secret: [u8; 32],
}

impl Keypair {
    /// A fresh keypair with a random secret key.
    pub fn new() -> (r: Keypair) {
        Keypair { secret: new_keypair_secret() }
    }

    /// The keypair's public key.
    pub fn pubkey(&self) -> (r: Pubkey)
        ensures
            r@ == keypair_pubkey(self.secret@),
    {
        pubkey_of_secret(self.secret)
    }
}

/// Calls `Keypair::new_from_array(secret).pubkey()` of `solana_sdk`: the
/// public key is the named function of the secret key.
#[verifier::external_body]
pub(crate) fn pubkey_of_secret(secret: [u8; 32]) -> (r: Pubkey)
    ensures
        r@ == keypair_pubkey(secret@),
{
    let keypair = solana_sdk::signer::keypair::Keypair::new_from_array(secret);
    Pubkey { bytes: keypair.pubkey().to_bytes() }
}

/// What `Pubkey::create_with_seed` returns: `MaxSeedLengthExceeded` for a
/// seed longer than 32 bytes, else `IllegalOwner` for an owner that ends
/// with the marker `ProgramDerivedAddress`, else the named address.
pub open spec fn seeded_address(base: Seq<u8>, seed: Seq<u8>, owner: Seq<u8>) -> Result<Seq<u8>, SeedError> {
    if seed.len() > MAX_SEED_LEN {
        Err(SeedError::MaxSeedLengthExceeded)
    } else if ends_with_pda_marker(owner) {
        Err(SeedError::IllegalOwner)
    } else {
        Ok(address_with_seed(base, seed, owner))
    }
}

/// A derivation result by the address's bytes.
pub open spec fn key_result_view(r: Result<Pubkey, SeedError>) -> Result<Seq<u8>, SeedError> {
    match r {
        Ok(k) => Ok(k@),
        Err(e) => Err(e),
    }
}

/// Why `Pubkey::create_with_seed` refused to derive an address.
#[derive(Clone, Copy, Debug, PartialEq, Eq, Structural)]
pub enum SeedError {
    MaxSeedLengthExceeded,
    IllegalOwner,
}

/// Calls `Pubkey::create_with_seed` of `solana_sdk`. Its source fails with
/// `MaxSeedLengthExceeded` when the seed is longer than 32 bytes, else with
/// `IllegalOwner` when the owner ends with the marker
/// `ProgramDerivedAddress`, and otherwise returns the named address; it
/// returns no other error, so every error but the first is `IllegalOwner`.
#[verifier::external_body]
pub(crate) fn create_with_seed(base: &Pubkey, seed: &str, owner: &Pubkey) -> (r: Result<Pubkey, SeedError>)
    ensures
        key_result_view(r) == seeded_address(base@, seed.spec_bytes(), owner@),
        r matches Ok(k) ==> k@ == address_with_seed(base@, seed.spec_bytes(), owner@),
{
    let b = solana_sdk::pubkey::Pubkey::new_from_array(base.bytes);
    let o = solana_sdk::pubkey::Pubkey::new_from_array(owner.bytes);
    match solana_sdk::pubkey::Pubkey::create_with_seed(&b, seed, &o) {
        Ok(address) => Ok(Pubkey { bytes: address.to_bytes() }),
        Err(solana_sdk::pubkey::PubkeyError::MaxSeedLengthExceeded) => Err(SeedError::MaxSeedLengthExceeded),
        Err(_) => Err(SeedError::IllegalOwner),
    }
}

/// Calls `Pubkey::create_program_address` of `solana_sdk`: the result is
/// the named function of the seeds and the program id; its source fails when
/// there are more than 16 seeds or a seed is longer than 32 bytes.
#[verifier::external_body]
pub(crate) fn create_program_address(seeds: &[&[u8]], program_id: &Pubkey) -> (r: Option<Pubkey>)
    ensures
        key_opt_view(r) == created_program_address(seeds_view(seeds), program_id@),
        seeds@.len() > MAX_SEEDS ==> r is None,
        (exists|i: int| 0 <= i < seeds@.len() && seeds@[i]@.len() > MAX_SEED_LEN) ==> r is None,
{
    let id = solana_sdk::pubkey::Pubkey::new_from_array(program_id.bytes);
    match solana_sdk::pubkey::Pubkey::create_program_address(seeds, &id) {
        Ok(address) => Some(Pubkey { bytes: address.to_bytes() }),
        Err(_) => None,
    }
}

/// Address that base58 text decodes to, or `None` where it is no address.
pub uninterp spec fn parsed_pubkey(text: Seq<char>) -> Option<Seq<u8>>;

/// Calls `Pubkey::from_str` of `solana_sdk`, which decodes base58 text of
/// a 32-byte address: the result is the named function of the text; its
/// source refuses text longer than 44 bytes.
#[verifier::external_body]
pub(crate) fn pubkey_from_str(text: &str) -> (r: Option<Pubkey>)
    ensures
        key_opt_view(r) == parsed_pubkey(text@),
        text.spec_bytes().len() > 44 ==> r is None,
{
    match <solana_sdk::pubkey::Pubkey as std::str::FromStr>::from_str(text) {
        Ok(address) => Some(Pubkey { bytes: address.to_bytes() }),
        Err(_) => None,
    }
}

/// The 21 bytes of `ProgramDerivedAddress`, which no owner of an address
/// derived with a seed may end with.
pub open spec fn pda_marker() -> Seq<u8> {
    seq![80u8, 114, 111, 103, 114, 97, 109, 68, 101, 114, 105, 118, 101, 100, 65, 100, 100, 114, 101, 115, 115]
}

/// Whether the address ends with the marker `ProgramDerivedAddress`.
pub open spec fn ends_with_pda_marker(owner: Seq<u8>) -> bool {
    owner.len() >= 21 && owner.subrange(owner.len() - 21, owner.len() as int) == pda_marker()
}

} // verus!
