//! Digital Signature Algorithm (DSA) helper functions.
//!
//! These helpers encode public keys, signatures, messages, and advice inputs for the MASM
//! verification procedures exposed by the core library. Field elements are handed out as their
//! canonical `u64` values (each below the Goldilocks prime `p`).
//!
//! - [`ecdsa_k256_keccak`]: ECDSA over secp256k1 with Keccak256 hashing
//! - [`falcon512_poseidon2`]: Falcon-512 with Poseidon2 hashing

pub mod ecdsa_k256_keccak;
pub mod falcon512_poseidon2;

use vstd::prelude::*;

verus! {

#[verifier::external_type_specification]
#[verifier::external_body]
pub struct ExWord(miden_crypto::Word);

#[verifier::external_type_specification]
#[verifier::external_body]
pub struct ExFelt(miden_crypto::Felt);

/// The Goldilocks prime `p = 2^64 - 2^32 + 1`, the modulus of Miden field elements.
pub open spec fn felt_modulus() -> nat {
    0xffff_ffff_0000_0001
}

/// The canonical values of the four elements of a `Word`, in element order, as
/// `<[u64; 4]>::from(Word)` gives them.
pub uninterp spec fn word_felts(w: miden_crypto::Word) -> Seq<u64>;

/// The canonical values (`Felt::as_canonical_u64`, each in `0..p`) of the four elements of a
/// `Word`, in element order.
#[verifier::external_body]
pub(crate) fn word_values(w: &miden_crypto::Word) -> (r: [u64; 4])
    ensures
        r@ == word_felts(*w),
        forall|i: int| 0 <= i < 4 ==> r[i] < felt_modulus(),
{
    <[u64; 4]>::from(*w)
}

} // verus!
