//! Falcon-512 with Poseidon2 hashing signature helpers.
//!
//! Functions in this module generate data for the
//! `miden::core::crypto::dsa::falcon512_poseidon2::verify` MASM procedure.

use miden_crypto::dsa::falcon512_poseidon2::{Polynomial, PublicKey, SecretKey, Signature};
use miden_crypto::hash::poseidon2::Poseidon2;
use miden_crypto::{Felt, SequentialCommit, Word};
use vstd::prelude::*;

use crate::dsa::felt_modulus;

verus! {

#[verifier::external_type_specification]
#[verifier::external_body]
pub struct ExPublicKey(PublicKey);

#[verifier::external_type_specification]
#[verifier::external_body]
pub struct ExSecretKey(SecretKey);

#[verifier::external_type_specification]
#[verifier::external_body]
pub struct ExSignature(Signature);

// OUTSIDE CALLS
// ================================================================================================

/// The Poseidon2 digest of a sequence of field elements (given by their values), as
/// `miden_crypto::hash::poseidon2::Poseidon2::hash_elements` computes it, element values in order.
pub uninterp spec fn poseidon2_digest(elements: Seq<u64>) -> Seq<u64>;

/// `Poseidon2::hash_elements` over the field elements with the given values; the digest word is
/// returned as the canonical values of its four elements.
#[verifier::external_body]
fn poseidon2_hash(elements: &Vec<u64>) -> (r: [u64; 4])
    ensures
        r@ == poseidon2_digest(elements@),
{
    let felts: Vec<Felt> = elements.iter().map(|&v| Felt::new_unchecked(v)).collect();
    <[u64; 4]>::from(Poseidon2::hash_elements(&felts))
}

/// The coefficients of the expanded public-key polynomial, as `PublicKey::to_elements` gives
/// them, as canonical values.
pub uninterp spec fn falcon_public_key_felts(pk: PublicKey) -> Seq<u64>;

/// The coefficients of a signature's polynomial `s2`, as `Polynomial::to_elements` of
/// `Signature::sig_poly` gives them, as canonical values.
pub uninterp spec fn falcon_signature_poly_felts(sig: Signature) -> Seq<u64>;

/// The coefficients of the product of a public key and a signature's polynomial `s2`, as
/// `Polynomial::mul_modulo_p` gives them.
pub uninterp spec fn falcon_key_times_signature(pk: PublicKey, sig: Signature) -> Seq<u64>;

/// The eight nonce elements of a signature, as `Nonce::to_elements` of `Signature::nonce` gives
/// them, as canonical values.
pub uninterp spec fn falcon_nonce_felts(sig: Signature) -> Seq<u64>;

/// The public key a signature carries, as `Signature::public_key` gives it.
pub uninterp spec fn falcon_signature_key(sig: Signature) -> PublicKey;

/// The (deterministic) signature of a message, as `SecretKey::sign` gives it.
pub uninterp spec fn falcon_signature(sk: SecretKey, msg: Word) -> Signature;

/// `PublicKey::to_elements` (`SequentialCommit`): the coefficients of the expanded public-key
/// polynomial, as canonical values.
#[verifier::external_body]
fn public_key_elements(pk: &PublicKey) -> (r: Vec<u64>)
    ensures
        r@ == falcon_public_key_felts(*pk),
{
    pk.to_elements().iter().map(|e| e.as_canonical_u64()).collect()
}

/// `Polynomial::to_elements` of `Signature::sig_poly`: the coefficients of the signature
/// polynomial `s2`, as canonical values.
#[verifier::external_body]
fn signature_poly_elements(sig: &Signature) -> (r: Vec<u64>)
    ensures
        r@ == falcon_signature_poly_felts(*sig),
{
    sig.sig_poly().to_elements().iter().map(|e| e.as_canonical_u64()).collect()
}

/// `Polynomial::mul_modulo_p` of the public key and the signature polynomial `s2`: their product
/// in the ring of polynomials over the Miden field (not reduced modulo `φ`), whose 1024
/// coefficients the source documents to lie below the Miden prime.
#[verifier::external_body]
fn public_key_times_signature_poly(pk: &PublicKey, sig: &Signature) -> (r: Vec<u64>)
    ensures
        r@ == falcon_key_times_signature(*pk, *sig),
        r.len() == 1024,
        forall|i: int| 0 <= i < 1024 ==> r[i] < felt_modulus(),
{
    Polynomial::mul_modulo_p(pk, sig.sig_poly()).to_vec()
}

/// `Nonce::to_elements` of `Signature::nonce`: the nonce as eight field elements (consecutive
/// 5-byte chunks), as canonical values.
#[verifier::external_body]
fn signature_nonce_elements(sig: &Signature) -> (r: [u64; 8])
    ensures
        r@ == falcon_nonce_felts(*sig),
{
    sig.nonce().to_elements().map(|e| e.as_canonical_u64())
}

/// `Signature::public_key`: the public key the signature carries.
#[verifier::external_body]
fn signature_public_key(sig: &Signature) -> (r: &PublicKey)
    ensures
        *r == falcon_signature_key(*sig),
{
    sig.public_key()
}

/// `SecretKey::sign`: a deterministic Falcon signature of `msg`.
#[verifier::external_body]
fn secret_key_sign(sk: &SecretKey, msg: &Word) -> (r: Signature)
    ensures
        r == falcon_signature(*sk, *msg),
{
    sk.sign(*msg)
}

// ENCODING
// ================================================================================================

/// The advice encoding of a Falcon signature, in reverse order on the advice stack:
/// the challenge point `[τ₁, τ₀]` (the first two elements of the Poseidon2 digest of the
/// polynomials), then the polynomials (expanded public key, signature polynomial `s2`, and their
/// product), then the eight nonce elements.
pub open spec fn falcon_encoding(pk: Seq<u64>, s2: Seq<u64>, product: Seq<u64>, nonce: Seq<u64>) -> Seq<u64> {
    let polynomials = pk + s2 + product;
    let digest = poseidon2_digest(polynomials);
    seq![digest[1], digest[0]] + polynomials + nonce
}

/// Encodes the coefficients of the expanded public key, of the signature polynomial `s2` and of
/// their product, together with the nonce elements, into the format expected by
/// `falcon512_poseidon2::verify` (see [`falcon_encoding`]).
pub fn encode_signature_parts(pk: &Vec<u64>, s2: &Vec<u64>, product: &Vec<u64>, nonce: [u64; 8]) -> (out:
    Vec<u64>)
    ensures
        out@ == falcon_encoding(pk@, s2@, product@, nonce@),
        out@.len() == pk@.len() + s2@.len() + product@.len() + 10,
        out@[0] == poseidon2_digest(pk@ + s2@ + product@)[1],
        out@[1] == poseidon2_digest(pk@ + s2@ + product@)[0],
        out@.subrange(2, 2 + pk@.len() as int) == pk@,
        out@.subrange(2 + pk@.len() as int, 2 + pk@.len() + s2@.len() as int) == s2@,
        out@.subrange(2 + pk@.len() + s2@.len() as int, out@.len() - 8) == product@,
        out@.subrange(out@.len() - 8, out@.len() as int) == nonce@,
{
    let mut polynomials = pk.clone();
    let mut s2_elements = s2.clone();
    let mut product_elements = product.clone();
    polynomials.append(&mut s2_elements);
    polynomials.append(&mut product_elements);

    let digest = poseidon2_hash(&polynomials);
    // Push [tau1, tau0] so that after extend_stack reversal + two `adv_push` ops,
    // operand stack is [tau0, tau1, ...]
    let mut result: Vec<u64> = Vec::new();
    result.push(digest[1]);
    result.push(digest[0]);
    let mut polys = polynomials.clone();
    result.append(&mut polys);
    let mut i: usize = 0;
    while i < 8
        invariant
            i <= 8,
            result@ == seq![digest@[1], digest@[0]] + polynomials@ + nonce@.subrange(0, i as int),
        decreases 8 - i,
    {
        result.push(nonce[i]);
        assert(nonce@.subrange(0, i + 1) =~= nonce@.subrange(0, i as int).push(nonce[i as int]));
        i = i + 1;
    }
    assert(nonce@.subrange(0, 8) =~= nonce@);
    proof {
        let (a, b, c) = (pk@.len() as int, s2@.len() as int, product@.len() as int);
        assert(result@.subrange(2, 2 + a) =~= pk@);
        assert(result@.subrange(2 + a, 2 + a + b) =~= s2@);
        assert(result@.subrange(2 + a + b, result@.len() - 8) =~= product@);
        assert(result@.subrange(result@.len() - 8, result@.len() as int) =~= nonce@);
    }
    result
}

/// Encodes the provided Falcon public key and signature into the format expected by the
/// `falcon512_poseidon2::verify` procedure (see [`encode_signature_parts`], which it applies to the
/// key's coefficients, the signature polynomial's coefficients, their product and the nonce).
pub fn encode_signature(pk: &PublicKey, sig: &Signature) -> (out: Vec<u64>)
    ensures
        out@ == falcon_encoding(
            falcon_public_key_felts(*pk),
            falcon_signature_poly_felts(*sig),
            falcon_key_times_signature(*pk, *sig),
            falcon_nonce_felts(*sig),
        ),
{
    let nonce = signature_nonce_elements(sig);
    let s2 = signature_poly_elements(sig);
    let pi = public_key_times_signature_poly(pk, sig);
    let pk_elements = public_key_elements(pk);
    encode_signature_parts(&pk_elements, &s2, &pi, nonce)
}

/// Signs the provided message with the provided secret key and returns the resulting signature
/// encoded in the format required by the `falcon512_poseidon2::verify` procedure. This is
/// [`encode_signature`] applied to the signature and the public key it carries; a secret key is
/// never malformed, so the result is always `Some`.
pub fn sign(sk: &SecretKey, msg: &Word) -> (out: Option<Vec<u64>>)
    ensures
        out matches Some(v) && v@ == falcon_encoding(
            falcon_public_key_felts(falcon_signature_key(falcon_signature(*sk, *msg))),
            falcon_signature_poly_felts(falcon_signature(*sk, *msg)),
            falcon_key_times_signature(falcon_signature_key(falcon_signature(*sk, *msg)), falcon_signature(*sk, *msg)),
            falcon_nonce_felts(falcon_signature(*sk, *msg)),
        ),
{
    let sig = secret_key_sign(sk, msg);
    Some(encode_signature(signature_public_key(&sig), &sig))
}

} // verus!
