//! Random choices made by the fuzzer, drawn from a seeded generator of the
//! `rand` crate. Nothing is known of a drawn value beyond its range.
use rand::rngs::StdRng;
use rand::Rng;
use rand::RngCore;
use vstd::prelude::*;

verus! {

#[verifier::external_type_specification]
#[verifier::external_body]
pub struct ExStdRng(StdRng);

/// Calls `Rng::gen_range(0..upper)` of `rand`, which panics on an empty
/// range and otherwise returns a value of the range; which value is left open.
#[verifier::external_body]
pub(crate) fn random_below(rng: &mut StdRng, upper: usize) -> (r: usize)
    requires
        upper > 0,
    ensures
        r < upper,
{
    rng.gen_range(0..upper)
}

/// Calls `RngCore::fill_bytes` of `rand` on a 32-byte buffer; the bytes
/// drawn are left open.
#[verifier::external_body]
pub(crate) fn random_bytes_32(rng: &mut StdRng) -> (r: [u8; 32]) {
    let mut out = [0u8; 32];
    rng.fill_bytes(&mut out);
    out
}

} // verus!
