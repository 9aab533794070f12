//! ECDSA secp256k1 with Keccak256 signature helpers.
//!
//! Functions in this module generate the public-key commitment and native advice witness expected
//! by the `ecdsa_k256_keccak::verify` ABI. The public-key coordinates are bound by that commitment,
//! but `r` and `s` are not committed to a particular signature encoding. The MASM verifier
//! intentionally accepts high-s values.

use miden_crypto::dsa::ecdsa_k256_keccak::{PublicKey, Signature, SigningKey};
use miden_crypto::hash::keccak::Keccak256;
use miden_crypto::{SequentialCommit, Word};
use vstd::prelude::*;
use vstd::arithmetic::div_mod::{lemma_basic_div, lemma_div_denominator, lemma_fundamental_div_mod, lemma_mod_bound};
use vstd::arithmetic::mul::lemma_mul_is_commutative;

use crate::dsa::{word_felts, word_values};
use crate::glv::{
    SECP256K1_N, glv_decompose, glv_split, inverse_mod_n, lemma_glv_split_recomposes, lemma_glv_split_short, lemma_constants_values, reduce_mod_n, scalar_inv_mod_n,
    scalar_mul_mod_n, signed_limbs_value,
};
use crate::glv_basis::{lambda_val, n_val};
use crate::wide::{
    Limbs, Wide, lemma_limb_weight_positive, lemma_limbs_are_digits, limb_of, limb_weight, limbs_to_wide, limbs_value, limbs_value_from, wide_lt,
};

verus! {

#[verifier::external_type_specification]
#[verifier::external_body]
pub struct ExPublicKey(PublicKey);

#[verifier::external_type_specification]
#[verifier::external_body]
pub struct ExSignature(Signature);

#[verifier::external_type_specification]
#[verifier::external_body]
pub struct ExSigningKey(SigningKey);

// OUTSIDE CALLS
// ================================================================================================

/// The Keccak256 digest of a byte string, as `miden_crypto::hash::keccak::Keccak256::hash`
/// computes it.
pub uninterp spec fn keccak256_digest(bytes: Seq<u8>) -> Seq<u8>;

/// `Keccak256::hash`: the 32-byte Keccak256 digest of `bytes`.
#[verifier::external_body]
fn keccak256(bytes: &Vec<u8>) -> (r: [u8; 32])
    ensures
        r@ == keccak256_digest(bytes@),
{
    <[u8; 32]>::from(Keccak256::hash(bytes.as_slice()))
}

/// The elements of a public key, as `PublicKey::to_elements` (`SequentialCommit`) gives them, as
/// canonical values.
pub uninterp spec fn public_key_felts(pk: PublicKey) -> Seq<u64>;

/// The big-endian bytes of a signature's `r` scalar, as `Signature::r` gives them.
pub uninterp spec fn signature_r_bytes(sig: Signature) -> Seq<u8>;

/// The big-endian bytes of a signature's `s` scalar, as `Signature::s` gives them.
pub uninterp spec fn signature_s_bytes(sig: Signature) -> Seq<u8>;

/// The public key of a signing key, as `SigningKey::public_key` gives it.
pub uninterp spec fn signing_public_key(sk: SigningKey) -> PublicKey;

/// The (deterministic) signature of a message, as `SigningKey::sign` gives it.
pub uninterp spec fn ecdsa_signature(sk: SigningKey, msg: Word) -> Signature;

/// `PublicKey::to_elements` (`SequentialCommit`): the affine coordinates `qx || qy` of the key,
/// each as eight little-endian `u32` limbs, one limb per field element, as canonical values.
#[verifier::external_body]
fn public_key_elements(pk: &PublicKey) -> (r: Vec<u64>)
    ensures
        r@ == public_key_felts(*pk),
        r.len() == 16,
        forall|i: int| 0 <= i < 16 ==> r[i] < 0x1_0000_0000,
{
    pk.to_elements().iter().map(|e| e.as_canonical_u64()).collect()
}

/// `Signature::r`: the big-endian bytes of the signature's `r` scalar.
#[verifier::external_body]
fn signature_r(sig: &Signature) -> (r: [u8; 32])
    ensures
        r@ == signature_r_bytes(*sig),
{
    *sig.r()
}

/// `Signature::s`: the big-endian bytes of the signature's `s` scalar.
#[verifier::external_body]
fn signature_s(sig: &Signature) -> (r: [u8; 32])
    ensures
        r@ == signature_s_bytes(*sig),
{
    *sig.s()
}

/// `SigningKey::public_key`.
#[verifier::external_body]
fn signing_key_public_key(sk: &SigningKey) -> (r: PublicKey)
    ensures
        r == signing_public_key(*sk),
{
    sk.public_key()
}

/// `SigningKey::sign`: a deterministic signature of `msg`. Its `r` and `s` are nonzero scalars
/// below `n`: the signer takes them from `ecdsa::Signature::split_scalars`, whose results are
/// `NonZeroScalar`s, and writes them out big-endian with `to_bytes`.
#[verifier::external_body]
fn signing_key_sign(sk: &SigningKey, msg: &Word) -> (r: Signature)
    ensures
        r == ecdsa_signature(*sk, *msg),
        signature_r_bytes(r).len() == 32 && 0 < be_value(signature_r_bytes(r)) < n_val(),
        signature_s_bytes(r).len() == 32 && 0 < be_value(signature_s_bytes(r)) < n_val(),
{
    sk.sign(*msg)
}

/// Computes the `PK_COMM` word expected by `ecdsa_k256_keccak::verify`: `PublicKey::to_commitment`,
/// which commits to the same native-coordinate element sequence as the one that
/// [`encode_signature`] places first. Not stated: which word.
#[verifier::external_body]
pub fn public_key_commitment(pk: &PublicKey) -> Word {
    pk.to_commitment()
}

// SPECIFICATION
// ================================================================================================

/// The `u32` formed by the big-endian bytes `b[28 - 4i .. 32 - 4i]`: limb `i` (little-endian) of
/// the 256-bit big-endian integer `b`.
pub open spec fn be_limb(b: Seq<u8>, i: int) -> nat {
    (b[31 - 4 * i] + 0x100 * b[30 - 4 * i] + 0x1_0000 * b[29 - 4 * i] + 0x100_0000 * b[28 - 4
        * i]) as nat
}

/// The integer that the big-endian limbs of `b` from limb `i` upwards stand for.
pub open spec fn be_value_from(b: Seq<u8>, i: nat) -> nat
    decreases 8 - i,
{
    if i >= 8 {
        0
    } else {
        be_limb(b, i as int) + 0x1_0000_0000 * be_value_from(b, i + 1)
    }
}

/// The integer that 32 big-endian bytes stand for.
pub open spec fn be_value(b: Seq<u8>) -> nat {
    be_value_from(b, 0)
}

/// The eight little-endian bytes of `x`.
pub open spec fn le_bytes(x: u64) -> Seq<u8> {
    Seq::new(8, |j: int| ((x as nat / limb_byte_weight(j)) % 0x100) as u8)
}

/// 256^j.
pub open spec fn limb_byte_weight(j: int) -> nat
    decreases j,
{
    if j <= 0 {
        1
    } else {
        0x100 * limb_byte_weight(j - 1)
    }
}

/// The Keccak256 preimage of a message: the eight little-endian bytes of each element's
/// canonical value, in element order.
pub open spec fn message_preimage(m: Seq<u64>) -> Seq<u8> {
    le_bytes(m[0]) + le_bytes(m[1]) + le_bytes(m[2]) + le_bytes(m[3])
}

/// The prehash scalar `z` of a message: its Keccak256 digest read as a big-endian integer,
/// reduced modulo `n`.
pub open spec fn message_scalar(m: Seq<u64>) -> nat {
    be_value(keccak256_digest(message_preimage(m))) % n_val()
}

/// The eight little-endian `u32` limbs of `v`, one per field element.
pub open spec fn limb_felts(v: nat) -> Seq<u64> {
    Seq::new(8, |i: int| limb_of(v, i as nat) as u64)
}

/// The eight little-endian `u32` limbs of a 256-bit big-endian byte string, one per element.
pub open spec fn be_limb_felts(b: Seq<u8>) -> Seq<u64> {
    Seq::new(8, |i: int| be_limb(b, i) as u64)
}

/// One signed GLV half as advice: the eight limbs of its magnitude, then `1` if it is
/// negative and `0` otherwise.
pub open spec fn half_felts(k: int) -> Seq<u64> {
    limb_felts(if k < 0 { (-k) as nat } else { k as nat }).push(if k < 0 { 1u64 } else { 0u64 })
}

/// The GLV witness: the verifier's scalars `u1 = z·s⁻¹` and `u2 = r·s⁻¹ (mod n)` (with
/// `s⁻¹ = s^(n-2) mod n`), each split by [`glv_split`], as four signed halves in the order
/// `k1a, k1b, k2a, k2b`, followed by four zero elements of padding.
pub open spec fn glv_advice(r: Seq<u8>, s: Seq<u8>, z: nat) -> Seq<u64> {
    let s_inv = inverse_mod_n(be_value(s));
    let u1 = (z * s_inv) % n_val();
    let u2 = (be_value(r) * s_inv) % n_val();
    half_felts(glv_split(u1).0) + half_felts(glv_split(u1).1) + half_felts(glv_split(u2).0)
        + half_felts(glv_split(u2).1) + seq![0u64, 0u64, 0u64, 0u64]
}

/// The advice encoding `[QX[8] || QY[8] || SIG_R[8] || SIG_S[8] || GLV_HALVES]` of a public key
/// with elements `pk`, a signature `(r, s)` and a message with element values `m`.
pub open spec fn advice_encoding(pk: Seq<u64>, r: Seq<u8>, s: Seq<u8>, m: Seq<u64>) -> Seq<u64> {
    pk + be_limb_felts(r) + be_limb_felts(s) + glv_advice(r, s, message_scalar(m))
}

/// The value of the little-endian base-2^32 limbs `f[i]`, …, `f[7]`.
pub open spec fn felts_value_from(f: Seq<u64>, i: nat) -> int
    decreases 8 - i,
{
    if i >= 8 {
        0
    } else {
        f[i as int] + 0x1_0000_0000 * felts_value_from(f, i + 1)
    }
}

/// A signed GLV half read back from its nine elements: the magnitude that the first eight
/// stand for as limbs, negated where the ninth is `1`.
pub open spec fn decode_half(h: Seq<u64>) -> int {
    if h[8] == 1 {
        -felts_value_from(h, 0)
    } else {
        felts_value_from(h, 0)
    }
}

/// The elements that hold the big-endian limbs of `b`, from limb `i` on, stand for what those
/// limbs stand for.
proof fn lemma_be_limb_felts_value_from(b: Seq<u8>, i: nat)
    requires
        b.len() == 32,
        i <= 8,
    ensures
        felts_value_from(be_limb_felts(b), i) == be_value_from(b, i),
    decreases 8 - i,
{
    if i < 8 {
        lemma_be_limb_felts_value_from(b, i + 1);
        assert(be_limb_felts(b)[i as int] == be_limb(b, i as int) as u64);
        assert(be_limb(b, i as int) < 0x1_0000_0000);
    }
}

/// Each element holding a big-endian limb of `b` is below `2^32`, and together they stand for
/// the integer `b` stands for.
proof fn lemma_be_limb_felts_value(b: Seq<u8>)
    requires
        b.len() == 32,
    ensures
        forall|i: int| 0 <= i < 8 ==> (#[trigger] be_limb_felts(b)[i]) < 0x1_0000_0000,
        felts_value_from(be_limb_felts(b), 0) == be_value(b),
{
    assert forall|i: int| 0 <= i < 8 implies (#[trigger] be_limb_felts(b)[i]) < 0x1_0000_0000 by {
        assert(be_limb(b, i) < 0x1_0000_0000);
    }
    lemma_be_limb_felts_value_from(b, 0);
}

/// Elements that hold the limbs of `v`, from limb `i` on, stand for `v / 2^(32·i)`.
proof fn lemma_felts_value_of_limbs(f: Seq<u64>, v: nat, i: nat)
    requires
        v < limb_weight(8),
        i <= 8,
        f.len() >= 8,
        forall|j: int| 0 <= j < 8 ==> f[j] == limb_of(v, j as nat),
    ensures
        felts_value_from(f, i) == v / limb_weight(i),
    decreases 8 - i,
{
    lemma_limb_weight_positive(i);
    if i < 8 {
        lemma_felts_value_of_limbs(f, v, i + 1);
        lemma_div_denominator(v as int, limb_weight(i) as int, 0x1_0000_0000);
        lemma_mul_is_commutative(limb_weight(i) as int, 0x1_0000_0000);
        lemma_fundamental_div_mod((v / limb_weight(i)) as int, 0x1_0000_0000);
        assert(f[i as int] == (v / limb_weight(i)) % 0x1_0000_0000);
    } else {
        lemma_basic_div(v as int, limb_weight(8) as int);
    }
}

/// A signed half of fewer than 128 bits reads back from its nine elements as itself, and its
/// sign element is `0` or `1`.
proof fn lemma_half_felts_decode(k: int)
    requires
        -0x1_0000_0000_0000_0000_0000_0000_0000_0000int < k
            < 0x1_0000_0000_0000_0000_0000_0000_0000_0000int,
    ensures
        half_felts(k).len() == 9,
        decode_half(half_felts(k)) == k,
        half_felts(k)[8] == 0 || half_felts(k)[8] == 1,
{
    let mag: nat = if k < 0 { (-k) as nat } else { k as nat };
    let h = half_felts(k);
    reveal_with_fuel(limb_weight, 9);
    assert forall|j: int| 0 <= j < 8 implies h[j] == limb_of(mag, j as nat) by {
        lemma_limb_weight_positive(j as nat);
        lemma_mod_bound((mag / limb_weight(j as nat)) as int, 0x1_0000_0000);
    }
    assert(limb_weight(8) == 0x1_0000_0000_0000_0000_0000_0000_0000_0000_0000_0000_0000_0000_0000_0000_0000_0000nat);
    lemma_felts_value_of_limbs(h, mag, 0);
    assert(limb_weight(0) == 1);
    assert(mag / 1 == mag) by (nonlinear_arith);
    assert(h[8] == if k < 0 { 1u64 } else { 0u64 });
}

/// The GLV witness of an advice encoding reads back as a valid split. Each nine-element half
/// (from element 32 on) reads as its eight limbs' value, negated where its sign element is `1`;
/// then `k1a + λ·k1b ≡ z·s⁻¹` and `k2a + λ·k2b ≡ r·s⁻¹ (mod n)`, with `z` the message's prehash
/// scalar and `s⁻¹ = s^(n-2) mod n`; each sign element is `0` or `1`; and the last four elements
/// are zero.
pub proof fn lemma_advice_encoding_recomposes(pk: Seq<u64>, r: Seq<u8>, s: Seq<u8>, m: Seq<u64>)
    requires
        pk.len() == 16,
    ensures
        ({
            let e = advice_encoding(pk, r, s, m);
            let s_inv = inverse_mod_n(be_value(s));
            let u1 = (message_scalar(m) * s_inv) % n_val();
            let u2 = (be_value(r) * s_inv) % n_val();
            &&& e.len() == 72
            &&& (decode_half(e.subrange(32, 41)) + lambda_val() * decode_half(e.subrange(41, 50))
                - u1) % (n_val() as int) == 0
            &&& (decode_half(e.subrange(50, 59)) + lambda_val() * decode_half(e.subrange(59, 68))
                - u2) % (n_val() as int) == 0
            &&& forall|j: int| 0 <= j < 4 ==> (#[trigger] e[41 + 9 * j - 1] == 0 || e[41 + 9 * j - 1] == 1)
            &&& e.subrange(68, 72) == seq![0u64, 0u64, 0u64, 0u64]
        }),
{
    let e = advice_encoding(pk, r, s, m);
    let s_inv = inverse_mod_n(be_value(s));
    let u1 = (message_scalar(m) * s_inv) % n_val();
    let u2 = (be_value(r) * s_inv) % n_val();
    let (a1, b1) = glv_split(u1);
    let (a2, b2) = glv_split(u2);
    lemma_glv_split_short(u1);
    lemma_glv_split_short(u2);
    lemma_glv_split_recomposes(u1);
    lemma_glv_split_recomposes(u2);
    lemma_half_felts_decode(a1);
    lemma_half_felts_decode(b1);
    lemma_half_felts_decode(a2);
    lemma_half_felts_decode(b2);
    assert(e.subrange(32, 41) =~= half_felts(a1));
    assert(e.subrange(41, 50) =~= half_felts(b1));
    assert(e.subrange(50, 59) =~= half_felts(a2));
    assert(e.subrange(59, 68) =~= half_felts(b2));
    assert(e.subrange(68, 72) =~= seq![0u64, 0u64, 0u64, 0u64]);
    assert forall|j: int| 0 <= j < 4 implies (#[trigger] e[41 + 9 * j - 1] == 0 || e[41 + 9 * j - 1] == 1) by {
        if j == 0 {
            assert(e[40] == half_felts(a1)[8]);
        } else if j == 1 {
            assert(e[49] == half_felts(b1)[8]);
        } else if j == 2 {
            assert(e[58] == half_felts(a2)[8]);
        } else {
            assert(e[67] == half_felts(b2)[8]);
        }
    }
}

// ENCODING
// ================================================================================================

/// Reads 32 big-endian bytes as eight little-endian `u32` limbs.
pub fn be_bytes_to_le_limbs(bytes: &[u8; 32]) -> (r: Limbs)
    ensures
        forall|i: int| 0 <= i < 8 ==> r[i] == be_limb(bytes@, i),
        limbs_value(r) == be_value(bytes@),
{
    let mut limbs: Limbs = [0u32; 8];
    let mut i: usize = 0;
    while i < 8
        invariant
            i <= 8,
            forall|j: int| 0 <= j < i ==> limbs[j] == be_limb(bytes@, j),
        decreases 8 - i,
    {
        let offset = 28 - 4 * i;
        let limb = (bytes[offset + 3] as u32) + 0x100 * (bytes[offset + 2] as u32) + 0x1_0000 * (
        bytes[offset + 1] as u32) + 0x100_0000 * (bytes[offset] as u32);
        limbs[i] = limb;
        i = i + 1;
    }
    proof {
        reveal_with_fuel(limbs_value_from, 9);
        reveal_with_fuel(be_value_from, 9);
    }
    limbs
}

proof fn lemma_byte_weight_positive(j: int)
    ensures
        limb_byte_weight(j) > 0,
    decreases j,
{
    if j > 0 {
        lemma_byte_weight_positive(j - 1);
    }
}

/// Appends the eight little-endian bytes of `x`.
fn push_le_bytes(out: &mut Vec<u8>, x: u64)
    ensures
        final(out)@ == old(out)@ + le_bytes(x),
{
    let mut j: usize = 0;
    let mut rest = x;
    let ghost start = out@;
    proof {
        assert(limb_byte_weight(0) == 1);
        vstd::arithmetic::div_mod::lemma_div_basics(x as int);
    }
    while j < 8
        invariant
            j <= 8,
            out@.len() == start.len() + j,
            out@.subrange(0, start.len() as int) == start,
            rest as nat == x as nat / limb_byte_weight(j as int),
            forall|i: int| 0 <= i < j ==> out@[start.len() + i] == le_bytes(x)[i],
        decreases 8 - j,
    {
        proof {
            lemma_byte_weight_positive(j as int);
            vstd::arithmetic::mul::lemma_mul_is_commutative(limb_byte_weight(j as int) as int, 0x100);
            vstd::arithmetic::div_mod::lemma_div_denominator(
                x as int,
                limb_byte_weight(j as int) as int,
                0x100,
            );
        }
        out.push((rest % 0x100) as u8);
        rest = rest / 0x100;
        j = j + 1;
    }
    assert(out@ =~= start + le_bytes(x));
}

/// The Keccak256 prehash scalar `z`, reduced mod the secp256k1 scalar-field order, matching
/// `ecdsa_k256_keccak.masm`'s exact message-to-scalar conversion: each message element's 8
/// little-endian bytes are concatenated (in element order) into the 32-byte Keccak256 preimage,
/// and the resulting digest is converted back to native little-endian `u32` limbs before
/// reduction.
pub fn z_from_message(msg: [u64; 4]) -> (r: Limbs)
    ensures
        limbs_value(r) == message_scalar(msg@),
{
    let mut preimage: Vec<u8> = Vec::new();
    let mut i: usize = 0;
    while i < 4
        invariant
            i <= 4,
            preimage@ == (if i == 0 { Seq::<u8>::empty() } else if i == 1 { le_bytes(msg[0]) }
                else if i == 2 { le_bytes(msg[0]) + le_bytes(msg[1]) } else if i == 3 {
                le_bytes(msg[0]) + le_bytes(msg[1]) + le_bytes(msg[2])
            } else {
                message_preimage(msg@)
            }),
        decreases 4 - i,
    {
        push_le_bytes(&mut preimage, msg[i]);
        i = i + 1;
    }
    let digest = keccak256(&preimage);
    reduce_mod_n(be_bytes_to_le_limbs(&digest))
}

/// Appends the advice of one signed GLV half: the eight limbs of its magnitude, then its sign
/// (`1` = negative).
fn push_half(out: &mut Vec<u64>, half: (bool, Limbs))
    requires
        limbs_value(half.1) == 0 ==> !half.0,
    ensures
        final(out)@ == old(out)@ + half_felts(signed_limbs_value(half)),
{
    let ghost start = out@;
    proof {
        lemma_limbs_are_digits(half.1);
    }
    let mut i: usize = 0;
    while i < 8
        invariant
            i <= 8,
            out@ == start + limb_felts(limbs_value(half.1)).subrange(0, i as int),
            forall|j: nat| j < 8 ==> half.1[j as int] == #[trigger] limb_of(limbs_value(half.1), j),
        decreases 8 - i,
    {
        out.push(half.1[i] as u64);
        proof {
            assert(limb_felts(limbs_value(half.1)).subrange(0, i + 1) =~= limb_felts(
                limbs_value(half.1),
            ).subrange(0, i as int).push(half.1[i as int] as u64));
        }
        i = i + 1;
    }
    out.push(if half.0 { 1u64 } else { 0u64 });
    assert(limb_felts(limbs_value(half.1)).subrange(0, 8) =~= limb_felts(limbs_value(half.1)));
}

/// Computes the verifier's `u1`/`u2` ECDSA scalars the same way the MASM verifier does, splits
/// each via the secp256k1 GLV endomorphism, and encodes the four signed halves as advice
/// (magnitude then sign element per half), padded with four zero elements.
fn glv_advice_felts(r: &[u8; 32], s: &[u8; 32], z: Limbs) -> (out: Vec<u64>)
    requires
        0 < be_value(s@) < n_val(),
    ensures
        out@ == glv_advice(r@, s@, limbs_value(z)),
{
    let r_limbs = be_bytes_to_le_limbs(r);
    let s_limbs = be_bytes_to_le_limbs(s);
    let s_inv = scalar_inv_mod_n(s_limbs);
    let u1 = scalar_mul_mod_n(z, s_inv);
    let u2 = scalar_mul_mod_n(r_limbs, s_inv);
    let k1 = glv_decompose(u1);
    let k2 = glv_decompose(u2);
    let mut out: Vec<u64> = Vec::new();
    push_half(&mut out, k1[0]);
    push_half(&mut out, k1[1]);
    push_half(&mut out, k2[0]);
    push_half(&mut out, k2[1]);
    out.push(0);
    out.push(0);
    out.push(0);
    out.push(0);
    assert(out@ =~= glv_advice(r@, s@, limbs_value(z)));
    out
}

/// The signature's `r` then `s` scalars, each as eight little-endian `u32` limbs.
fn signature_felts(r: &[u8; 32], s: &[u8; 32]) -> (out: Vec<u64>)
    ensures
        out@ == be_limb_felts(r@) + be_limb_felts(s@),
{
    let r_limbs = be_bytes_to_le_limbs(r);
    let s_limbs = be_bytes_to_le_limbs(s);
    let mut out: Vec<u64> = Vec::new();
    let mut i: usize = 0;
    while i < 16
        invariant
            i <= 16,
            out@.len() == i,
            forall|j: int| 0 <= j < i ==> out@[j] == (be_limb_felts(r@) + be_limb_felts(s@))[j],
            forall|j: int| 0 <= j < 8 ==> r_limbs[j] == be_limb(r@, j) && s_limbs[j] == be_limb(s@, j),
        decreases 16 - i,
    {
        if i < 8 {
            out.push(r_limbs[i] as u64);
        } else {
            out.push(s_limbs[i - 8] as u64);
        }
        i = i + 1;
    }
    assert(out@ =~= be_limb_felts(r@) + be_limb_felts(s@));
    out
}

/// Encodes a public key (given by its 16 elements), a signature (given by its big-endian `r`
/// and `s`) and a message (given by its element values) into the native advice-stack format
/// expected by `ecdsa_k256_keccak::verify`:
/// `[QX[8] || QY[8] || SIG_R[8] || SIG_S[8] || GLV_HALVES]`. The signature portion preserves
/// `r` and `s` exactly and does not normalize or enforce low-s. Returns `None` exactly when `s`
/// is not a nonzero scalar below `n` (zero has no inverse modulo `n`).
pub fn encode_signature_parts(pk_elements: &Vec<u64>, r: &[u8; 32], s: &[u8; 32], msg: [u64; 4]) -> (out:
    Option<Vec<u64>>)
    requires
        pk_elements.len() == 16,
    ensures
        out is Some <==> 0 < be_value(s@) < n_val(),
        out matches Some(v) ==> v@ == advice_encoding(pk_elements@, r@, s@, msg@) && v.len() == 72,
        out matches Some(v) ==> v@.subrange(0, 16) == pk_elements@,
        out matches Some(v) ==> forall|i: int| 16 <= i < 32 ==> v@[i] < 0x1_0000_0000,
        out matches Some(v) ==> felts_value_from(v@.subrange(16, 24), 0) == be_value(r@),
        out matches Some(v) ==> felts_value_from(v@.subrange(24, 32), 0) == be_value(s@),
{
    let s_value = limbs_to_wide(be_bytes_to_le_limbs(s));
    proof {
        lemma_constants_values();
    }
    if !wide_lt(&Wide::zero(), &s_value) || !wide_lt(&s_value, &limbs_to_wide(SECP256K1_N)) {
        return None;
    }
    let mut out = pk_elements.clone();
    let mut sig = signature_felts(r, s);
    let z = z_from_message(msg);
    let mut glv = glv_advice_felts(r, s, z);
    out.append(&mut sig);
    out.append(&mut glv);
    assert(out@ =~= advice_encoding(pk_elements@, r@, s@, msg@));
    proof {
        lemma_be_limb_felts_value(r@);
        lemma_be_limb_felts_value(s@);
        assert(out@.subrange(0, 16) =~= pk_elements@);
        assert(out@.subrange(16, 24) =~= be_limb_felts(r@));
        assert(out@.subrange(24, 32) =~= be_limb_felts(s@));
        assert forall|i: int| 16 <= i < 32 implies out@[i] < 0x1_0000_0000 by {
            if i < 24 {
                assert(out@[i] == be_limb_felts(r@)[i - 16]);
            } else {
                assert(out@[i] == be_limb_felts(s@)[i - 24]);
            }
        }
    }
    Some(out)
}

/// Encodes the provided public key, signature, and message into the native advice-stack format
/// expected by `ecdsa_k256_keccak::verify` (see [`encode_signature_parts`], which it applies to
/// the key's elements, the signature's `r` and `s` bytes and the message's element values).
/// Returns `None` when the signature's `s` scalar is not a nonzero scalar below `n`.
pub fn encode_signature(pk: &PublicKey, sig: &Signature, msg: &Word) -> (out: Option<Vec<u64>>)
    ensures
        out is Some <==> 0 < be_value(signature_s_bytes(*sig)) < n_val(),
        out matches Some(v) ==> v@ == advice_encoding(
            public_key_felts(*pk),
            signature_r_bytes(*sig),
            signature_s_bytes(*sig),
            word_felts(*msg),
        ),
        out matches Some(v) ==> v@.subrange(0, 16) == public_key_felts(*pk),
        out matches Some(v) ==> forall|i: int| 16 <= i < 32 ==> v@[i] < 0x1_0000_0000,
        out matches Some(v) ==> felts_value_from(v@.subrange(16, 24), 0) == be_value(signature_r_bytes(*sig)),
        out matches Some(v) ==> felts_value_from(v@.subrange(24, 32), 0) == be_value(signature_s_bytes(*sig)),
{
    let pk_elements = public_key_elements(pk);
    let r = signature_r(sig);
    let s = signature_s(sig);
    let m = word_values(msg);
    encode_signature_parts(&pk_elements, &r, &s, m)
}

/// Signs the provided message with the supplied secret key and encodes the resulting signature
/// and public key into the native advice-stack format expected by `ecdsa_k256_keccak::verify`
/// (see [`encode_signature`]). The signer's `s` is a nonzero scalar below `n`, so the encoding
/// always succeeds.
pub fn sign(sk: &SigningKey, msg: &Word) -> (out: Vec<u64>)
    ensures
        out@ == advice_encoding(
            public_key_felts(signing_public_key(*sk)),
            signature_r_bytes(ecdsa_signature(*sk, *msg)),
            signature_s_bytes(ecdsa_signature(*sk, *msg)),
            word_felts(*msg),
        ),
        out@.subrange(0, 16) == public_key_felts(signing_public_key(*sk)),
        forall|i: int| 16 <= i < 32 ==> out@[i] < 0x1_0000_0000,
        felts_value_from(out@.subrange(16, 24), 0) == be_value(signature_r_bytes(ecdsa_signature(*sk, *msg))),
        felts_value_from(out@.subrange(24, 32), 0) == be_value(signature_s_bytes(ecdsa_signature(*sk, *msg))),
{
    let pk = signing_key_public_key(sk);
    let sig = signing_key_sign(sk, msg);
    encode_signature(&pk, &sig, msg).unwrap()
}

} // verus!
