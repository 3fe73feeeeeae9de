use vstd::prelude::*;

use crate::abi::sel_word;
use vstd::string::StringSliceAdditionalSpecFns;

verus! {

/// The Keccak-256 digest of a byte string, as the outside hash primitive
/// computes it. The digest is named, not defined: the hash is opaque to
/// this library.
pub uninterp spec fn keccak_of(input: Seq<u8>) -> Seq<u8>;

/// Relies on ethers_core::utils::keccak256: the 32-byte digest depends on
/// the input bytes alone.
#[verifier::external_body]
fn keccak256_digest(input: &[u8]) -> (r: Vec<u8>)
    ensures
        r@ == keccak_of(input@),
        r@.len() == 32,
{
    ethers_core::utils::keccak256(input).to_vec()
}

/// The four-byte function selector of a signature's bytes: the first four
/// bytes of its Keccak-256 digest, read big-endian.
pub open spec fn selector_of(bs: Seq<u8>) -> u32 {
    sel_word(keccak_of(bs)[0], keccak_of(bs)[1], keccak_of(bs)[2], keccak_of(bs)[3])
}

/// A streaming Keccak-256 hasher: input is absorbed into a buffer, and the
/// digest of everything absorbed is computed when the hash is finalized.
pub struct Keccak {
    /// Everything absorbed so far.
    pub absorbed: Vec<u8>,
}

/// Start a fresh hash computation.
pub fn init() -> (r: Keccak)
    ensures
        r.absorbed@ == Seq::<u8>::empty(),
{
    Keccak { absorbed: Vec::new() }
}

/// Absorb more input bytes.
pub fn update(state: &mut Keccak, data: &[u8])
    ensures
        final (state).absorbed@ == old(state).absorbed@ + data@,
{
    state.absorbed.extend_from_slice(data);
}

/// The digest of everything absorbed so far.
pub fn finalize(state: &Keccak) -> (r: Vec<u8>)
    ensures
        r@ == keccak_of(state.absorbed@),
        r@.len() == 32,
{
    keccak256_digest(state.absorbed.as_slice())
}

/// The digest of `input` in one call.
pub fn data(input: &[u8]) -> (r: Vec<u8>)
    ensures
        r@ == keccak_of(input@),
        r@.len() == 32,
{
    keccak256_digest(input)
}

/// The function selector of a signature string: the first four bytes of
/// the Keccak-256 digest of its bytes, as a big-endian value.
pub fn funsel(decl: &str) -> (r: u32)
    ensures
        r == selector_of(decl.spec_bytes()),
{
    let b = decl.as_bytes();
    let h = keccak256_digest(b);
    crate::abi::funsel(h[0], h[1], h[2], h[3])
}

/// Law: the function selector is deterministic. Equal signature bytes give
/// equal selectors, on every call and in every process: the selector is a
/// pure function of the signature.
pub proof fn lemma_selector_deterministic(s1: Seq<u8>, s2: Seq<u8>)
    requires
        s1 == s2,
    ensures
        selector_of(s1) == selector_of(s2),
{
}

} // verus!
