//! Fixed-width multi-limb integers: 256-bit `u32` limb arrays and 1024-bit `u64` limb arrays,
//! with the 1024-bit arithmetic delegated to `ruint`.

use vstd::prelude::*;
use vstd::arithmetic::div_mod::{lemma_div_denominator, lemma_fundamental_div_mod_converse};
use vstd::arithmetic::mul::lemma_mul_is_commutative;

verus! {

/// Eight little-endian `u32` limbs: a 256-bit unsigned integer.
pub type Limbs = [u32; 8];

/// 2^256.
pub open spec fn bound_256() -> nat {
    0x1_0000_0000_0000_0000_0000_0000_0000_0000_0000_0000_0000_0000_0000_0000_0000_0000nat
}

/// 2^512.
pub open spec fn bound_512() -> nat {
    0x1_0000_0000_0000_0000_0000_0000_0000_0000_0000_0000_0000_0000_0000_0000_0000_0000_0000_0000_0000_0000_0000_0000_0000_0000_0000_0000_0000_0000_0000_0000_0000_0000nat
}

/// 2^1024, the modulus of `Wide` arithmetic.
pub open spec fn bound_1024() -> nat {
    bound_512() * bound_512()
}

/// The integer that the `u32` limbs of `l` from index `i` upwards stand for (little-endian).
pub open spec fn limbs_value_from(l: Limbs, i: nat) -> nat
    decreases 8 - i,
{
    if i >= 8 {
        0
    } else {
        (l[i as int] + 0x1_0000_0000 * limbs_value_from(l, i + 1)) as nat
    }
}

/// The integer that eight little-endian `u32` limbs stand for.
pub open spec fn limbs_value(l: Limbs) -> nat {
    limbs_value_from(l, 0)
}

/// The integer that the `u64` limbs of `l` from index `i` upwards stand for (little-endian).
pub open spec fn wide_limbs_value_from(l: [u64; 16], i: nat) -> nat
    decreases 16 - i,
{
    if i >= 16 {
        0
    } else {
        (l[i as int] + 0x1_0000_0000_0000_0000 * wide_limbs_value_from(l, i + 1)) as nat
    }
}

/// A 1024-bit unsigned integer, stored as sixteen little-endian `u64` limbs.
#[derive(Clone, Copy)]
pub struct Wide {
    limbs: [u64; 16],
}

impl Wide {
    /// The integer this value stands for.
    pub closed spec fn val(self) -> nat {
        wide_limbs_value_from(self.limbs, 0)
    }
}

/// Any limb array stands for an integer below 2^256.
pub proof fn lemma_limbs_value_bound(l: Limbs)
    ensures
        limbs_value(l) < bound_256(),
{
    reveal_with_fuel(limbs_value_from, 9);
}

/// Any wide value is below 2^1024.
pub proof fn lemma_wide_value_bound(w: Wide)
    ensures
        w.val() < bound_1024(),
{
    reveal_with_fuel(wide_limbs_value_from, 17);
}

} // verus!
verus! {

impl Wide {
    /// Zero.
    pub fn zero() -> (r: Wide)
        ensures
            r.val() == 0,
    {
        proof {
            reveal_with_fuel(wide_limbs_value_from, 17);
        }
        Wide { limbs: [0u64, 0, 0, 0, 0, 0, 0, 0, 0, 0, 0, 0, 0, 0, 0, 0] }
    }

    /// One.
    pub fn one() -> (r: Wide)
        ensures
            r.val() == 1,
    {
        proof {
            reveal_with_fuel(wide_limbs_value_from, 17);
        }
        Wide { limbs: [1u64, 0, 0, 0, 0, 0, 0, 0, 0, 0, 0, 0, 0, 0, 0, 0] }
    }
}

proof fn lemma_pack_u32_pair(lo: u32, hi: u32)
    ensures
        ((lo as u64) | ((hi as u64) << 32u64)) == lo as u64 + (hi as u64) * 0x1_0000_0000u64,
{
    assert(((lo as u64) | ((hi as u64) << 32u64)) == lo as u64 + (hi as u64) * 0x1_0000_0000u64)
        by (bit_vector);
}

proof fn lemma_split_u64(x: u64)
    ensures
        x == ((x as u32) as u64) + ((x >> 32u64) as u32) as u64 * 0x1_0000_0000u64,
{
    assert(x == ((x as u32) as u64) + ((x >> 32u64) as u32) as u64 * 0x1_0000_0000u64)
        by (bit_vector);
}

/// Widens a 256-bit limb array to a `Wide` of the same value.
pub fn limbs_to_wide(limbs: Limbs) -> (r: Wide)
    ensures
        r.val() == limbs_value(limbs),
{
    let w0 = (limbs[0] as u64) | ((limbs[1] as u64) << 32u64);
    let w1 = (limbs[2] as u64) | ((limbs[3] as u64) << 32u64);
    let w2 = (limbs[4] as u64) | ((limbs[5] as u64) << 32u64);
    let w3 = (limbs[6] as u64) | ((limbs[7] as u64) << 32u64);
    proof {
        lemma_pack_u32_pair(limbs[0], limbs[1]);
        lemma_pack_u32_pair(limbs[2], limbs[3]);
        lemma_pack_u32_pair(limbs[4], limbs[5]);
        lemma_pack_u32_pair(limbs[6], limbs[7]);
        reveal_with_fuel(wide_limbs_value_from, 17);
        reveal_with_fuel(limbs_value_from, 9);
    }
    Wide { limbs: [w0, w1, w2, w3, 0, 0, 0, 0, 0, 0, 0, 0, 0, 0, 0, 0] }
}

/// Narrows a `Wide` below 2^256 back to eight `u32` limbs of the same value.
pub fn wide_to_limbs(v: &Wide) -> (r: Limbs)
    requires
        v.val() < bound_256(),
    ensures
        limbs_value(r) == v.val(),
{
    let l = v.limbs;
    proof {
        reveal_with_fuel(wide_limbs_value_from, 17);
        reveal_with_fuel(limbs_value_from, 9);
        lemma_split_u64(l[0]);
        lemma_split_u64(l[1]);
        lemma_split_u64(l[2]);
        lemma_split_u64(l[3]);
    }
    [
        l[0] as u32,
        (l[0] >> 32u64) as u32,
        l[1] as u32,
        (l[1] >> 32u64) as u32,
        l[2] as u32,
        (l[2] >> 32u64) as u32,
        l[3] as u32,
        (l[3] >> 32u64) as u32,
    ]
}

/// `a + b` as computed by `ruint::Uint<1024, 16>`'s `Add`, which wraps at 2^1024.
#[verifier::external_body]
pub(crate) fn wide_add(a: &Wide, b: &Wide) -> (r: Wide)
    ensures
        r.val() == (a.val() + b.val()) % bound_1024(),
{
    let (x, y) = (ruint::Uint::<1024, 16>::from_limbs(a.limbs), ruint::Uint::<1024, 16>::from_limbs(b.limbs));
    Wide { limbs: (x + y).into_limbs() }
}

/// `a - b` as computed by `ruint::Uint<1024, 16>`'s `Sub`, which wraps at 2^1024.
#[verifier::external_body]
pub(crate) fn wide_sub(a: &Wide, b: &Wide) -> (r: Wide)
    ensures
        r.val() == (a.val() - b.val()) % (bound_1024() as int),
{
    let (x, y) = (ruint::Uint::<1024, 16>::from_limbs(a.limbs), ruint::Uint::<1024, 16>::from_limbs(b.limbs));
    Wide { limbs: (x - y).into_limbs() }
}

/// `a * b` as computed by `ruint::Uint<1024, 16>`'s `Mul`, which wraps at 2^1024.
#[verifier::external_body]
pub(crate) fn wide_mul(a: &Wide, b: &Wide) -> (r: Wide)
    ensures
        r.val() == (a.val() * b.val()) % bound_1024(),
{
    let (x, y) = (ruint::Uint::<1024, 16>::from_limbs(a.limbs), ruint::Uint::<1024, 16>::from_limbs(b.limbs));
    Wide { limbs: (x * y).into_limbs() }
}

/// `a / b`, rounding down, as computed by `ruint::Uint<1024, 16>`'s `Div` (which panics when
/// `b` is zero).
#[verifier::external_body]
pub(crate) fn wide_div(a: &Wide, b: &Wide) -> (r: Wide)
    requires
        b.val() != 0,
    ensures
        r.val() == a.val() / b.val(),
{
    let (x, y) = (ruint::Uint::<1024, 16>::from_limbs(a.limbs), ruint::Uint::<1024, 16>::from_limbs(b.limbs));
    Wide { limbs: (x / y).into_limbs() }
}

/// `a % b` as computed by `ruint::Uint<1024, 16>`'s `Rem` (which panics when `b` is zero).
#[verifier::external_body]
pub(crate) fn wide_rem(a: &Wide, b: &Wide) -> (r: Wide)
    requires
        b.val() != 0,
    ensures
        r.val() == a.val() % b.val(),
{
    let (x, y) = (ruint::Uint::<1024, 16>::from_limbs(a.limbs), ruint::Uint::<1024, 16>::from_limbs(b.limbs));
    Wide { limbs: (x % y).into_limbs() }
}

/// `a < b` as decided by `ruint::Uint<1024, 16>`'s numeric ordering.
#[verifier::external_body]
pub(crate) fn wide_lt(a: &Wide, b: &Wide) -> (r: bool)
    ensures
        r == (a.val() < b.val()),
{
    ruint::Uint::<1024, 16>::from_limbs(a.limbs) < ruint::Uint::<1024, 16>::from_limbs(b.limbs)
}

/// `a <= b` as decided by `ruint::Uint<1024, 16>`'s numeric ordering.
#[verifier::external_body]
pub(crate) fn wide_le(a: &Wide, b: &Wide) -> (r: bool)
    ensures
        r == (a.val() <= b.val()),
{
    ruint::Uint::<1024, 16>::from_limbs(a.limbs) <= ruint::Uint::<1024, 16>::from_limbs(b.limbs)
}

/// `a == b` as decided by `ruint::Uint<1024, 16>`'s equality.
#[verifier::external_body]
pub(crate) fn wide_eq(a: &Wide, b: &Wide) -> (r: bool)
    ensures
        r == (a.val() == b.val()),
{
    ruint::Uint::<1024, 16>::from_limbs(a.limbs) == ruint::Uint::<1024, 16>::from_limbs(b.limbs)
}

/// 2^(32·i): the weight of limb `i`.
pub open spec fn limb_weight(i: nat) -> nat
    decreases i,
{
    if i == 0 {
        1
    } else {
        0x1_0000_0000 * limb_weight((i - 1) as nat)
    }
}

/// Limb `i` (base 2^32, little-endian) of the integer `v`.
pub open spec fn limb_of(v: nat, i: nat) -> nat {
    (v / limb_weight(i)) % 0x1_0000_0000
}

proof fn lemma_limbs_value_from_is_quotient(l: Limbs, i: nat)
    requires
        i <= 8,
    ensures
        limbs_value_from(l, i) == limbs_value(l) / limb_weight(i),
    decreases i,
{
    if i > 0 {
        let j = (i - 1) as nat;
        lemma_limbs_value_from_is_quotient(l, j);
        lemma_limb_weight_positive(j);
        assert(limbs_value_from(l, j) == l[j as int] + 0x1_0000_0000 * limbs_value_from(l, i));
        lemma_fundamental_div_mod_converse(
            limbs_value_from(l, j) as int,
            0x1_0000_0000,
            limbs_value_from(l, i) as int,
            l[j as int] as int,
        );
        lemma_div_denominator(limbs_value(l) as int, limb_weight(j) as int, 0x1_0000_0000);
        lemma_mul_is_commutative(limb_weight(j) as int, 0x1_0000_0000);
        assert(limb_weight(i) == 0x1_0000_0000 * limb_weight(j));
        assert(limbs_value_from(l, i) == limbs_value_from(l, j) / 0x1_0000_0000);
    } else {
        assert(limb_weight(0) == 1);
        assert(limbs_value(l) / 1 == limbs_value(l));
    }
}

/// Every limb weight is positive.
pub proof fn lemma_limb_weight_positive(i: nat)
    ensures
        limb_weight(i) > 0,
    decreases i,
{
    if i > 0 {
        lemma_limb_weight_positive((i - 1) as nat);
    }
}

/// The limbs of an array are the base-2^32 digits of the value it stands for.
pub proof fn lemma_limbs_are_digits(l: Limbs)
    ensures
        forall|i: nat| i < 8 ==> l[i as int] == #[trigger] limb_of(limbs_value(l), i),
{
    assert forall|i: nat| i < 8 implies l[i as int] == #[trigger] limb_of(limbs_value(l), i) by {
        lemma_limbs_value_from_is_quotient(l, i);
        assert(limbs_value_from(l, i) == l[i as int] + 0x1_0000_0000 * limbs_value_from(l, i + 1));
        lemma_fundamental_div_mod_converse(
            limbs_value_from(l, i) as int,
            0x1_0000_0000,
            limbs_value_from(l, i + 1) as int,
            l[i as int] as int,
        );
    }
}

} // verus!
