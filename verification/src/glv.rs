//! secp256k1 GLV endomorphism: scalar decomposition and the constants it needs, plus scalar
//! arithmetic modulo the curve order `n`.
//!
//! The endomorphism `φ(x, y) = (β·x mod p, y)` acts as multiplication by `λ` on the group
//! (`φ(P) = λ·P`), so any scalar multiplication `k·P` can be rewritten `k₁·P + k₂·φ(P)` with
//! `k₁, k₂` roughly half the bit-width of `k`. [`glv_decompose`] performs the split.

use vstd::prelude::*;
use vstd::arithmetic::div_mod::*;
use vstd::arithmetic::mul::*;
use vstd::math::abs;
use vstd::arithmetic::power::{
    lemma_pow0, lemma_pow1, lemma_pow_adds, lemma_pow_mod_noop, lemma_pow_multiplies,
    lemma_square_is_pow2, pow,
};
use crate::glv_basis::{
    glv_a1, glv_a2, glv_b1, glv_b2, half_gcd_final, half_gcd_from, lambda_val, lemma_basis_facts,
    lemma_half_gcd_trace, n_val,
};
use crate::prime_field::{is_prime, lemma_fermat_inverse};
use crate::wide::{
    Limbs, Wide, bound_1024, bound_256, bound_512, lemma_limbs_value_bound, lemma_wide_value_bound,
    limbs_to_wide, limbs_value, limbs_value_from, wide_add, wide_div, wide_eq, wide_le, wide_lt,
    wide_mul, wide_rem, wide_sub, wide_to_limbs,
};

verus! {

/// The order `n` of the secp256k1 group (the scalar-field modulus), as eight little-endian limbs.
pub const SECP256K1_N: Limbs = [
    0xd0364141, 0xbfd25e8c, 0xaf48a03b, 0xbaaedce6, 0xfffffffe, 0xffffffff, 0xffffffff, 0xffffffff,
];

/// secp256k1 GLV endomorphism scalar `λ` (`λ³ ≡ 1 mod n`): `φ(P) = λ·P`.
pub const SECP256K1_LAMBDA: Limbs = [
    0x1b23bd72, 0xdf02967c, 0x20816678, 0x122e22ea, 0x8812645a, 0xa5261c02, 0xc05c30e0, 0x5363ad4c,
];

/// secp256k1 GLV base-field constant `β` (`β³ ≡ 1 mod p`, `p` the base field modulus):
/// `φ(x, y) = (β·x mod p, y)`.
pub const SECP256K1_BETA: Limbs = [
    0x719501ee, 0xc1396c28, 0x12f58995, 0x9cf04975, 0xac3434e9, 0x6e64479e, 0x657c0710, 0x7ae96a2b,
];

/// The limb constants stand for `n` and `λ`.
pub proof fn lemma_constants_values()
    ensures
        limbs_value(SECP256K1_N) == n_val(),
        limbs_value(SECP256K1_LAMBDA) == lambda_val(),
{
    reveal_with_fuel(limbs_value_from, 9);
}

/// The modulus `p` of the secp256k1 base field.
pub open spec fn base_field_modulus() -> nat {
    0xffff_ffff_ffff_ffff_ffff_ffff_ffff_ffff_ffff_ffff_ffff_ffff_ffff_fffe_ffff_fc2fnat
}

/// `λ` is a nontrivial cube root of unity modulo `n`, and `β` one modulo `p`: the endomorphism
/// `φ(x, y) = (β·x, y)` has order three, as multiplication by `λ` does.
pub proof fn lemma_cube_roots_of_unity()
    ensures
        limbs_value(SECP256K1_LAMBDA) != 1,
        (limbs_value(SECP256K1_LAMBDA) * limbs_value(SECP256K1_LAMBDA) * limbs_value(SECP256K1_LAMBDA))
            % n_val() == 1,
        limbs_value(SECP256K1_BETA) != 1,
        (limbs_value(SECP256K1_BETA) * limbs_value(SECP256K1_BETA) * limbs_value(SECP256K1_BETA))
            % base_field_modulus() == 1,
{
    reveal_with_fuel(limbs_value_from, 9);
    assert((lambda_val() * lambda_val() * lambda_val()) % n_val() == 1);
    let beta = 0x7ae9_6a2b_657c_0710_6e64_479e_ac34_34e9_9cf0_4975_12f5_8995_c139_6c28_7195_01eenat;
    assert(limbs_value(SECP256K1_BETA) == beta);
    assert((0x7ae9_6a2b_657c_0710_6e64_479e_ac34_34e9_9cf0_4975_12f5_8995_c139_6c28_7195_01eenat
        * 0x7ae9_6a2b_657c_0710_6e64_479e_ac34_34e9_9cf0_4975_12f5_8995_c139_6c28_7195_01eenat
        * 0x7ae9_6a2b_657c_0710_6e64_479e_ac34_34e9_9cf0_4975_12f5_8995_c139_6c28_7195_01eenat)
        % base_field_modulus() == 1);
}

/// `m / n` rounded to the nearest integer, ties rounding up.
pub open spec fn round_div(m: nat, n: nat) -> nat
    recommends
        n > 0,
{
    if 2 * (m % n) >= n {
        m / n + 1
    } else {
        m / n
    }
}

/// `x / n` rounded to the nearest integer, ties rounding away from zero.
pub open spec fn signed_round_div(x: int, n: nat) -> int
    recommends
        n > 0,
{
    if x < 0 {
        -(round_div((-x) as nat, n) as int)
    } else {
        round_div(x as nat, n) as int
    }
}

/// Rounding to the nearest integer is symmetric about zero: `round(-x / n) == -round(x / n)`.
pub proof fn lemma_signed_round_div_symmetric(x: int, n: nat)
    requires
        n > 0,
    ensures
        signed_round_div(-x, n) == -signed_round_div(x, n),
{
    if x == 0 {
        lemma_small_mod(0, n);
        lemma_basic_div(0, n as int);
    }
}

/// A sign-magnitude integer over `Wide`. The sign of zero is canonically non-negative.
#[derive(Clone, Copy)]
struct Signed {
    neg: bool,
    mag: Wide,
}

impl Signed {
    spec fn int_val(self) -> int {
        if self.neg {
            -(self.mag.val() as int)
        } else {
            self.mag.val() as int
        }
    }

    spec fn wf(self) -> bool {
        self.mag.val() == 0 ==> !self.neg
    }

    fn new(neg: bool, mag: Wide) -> (r: Self)
        ensures
            r.wf(),
            r.mag == mag,
            r.int_val() == (if neg { -(mag.val() as int) } else { mag.val() as int }),
    {
        // Canonicalize the sign of zero so equality/negation stay simple.
        if wide_eq(&mag, &Wide::zero()) {
            Signed { neg: false, mag }
        } else {
            Signed { neg, mag }
        }
    }

    fn negate(self) -> (r: Self)
        ensures
            r.wf(),
            r.mag == self.mag,
            r.int_val() == -self.int_val(),
    {
        Signed::new(!self.neg, self.mag)
    }

    fn add(self, other: Self) -> (r: Self)
        requires
            self.mag.val() + other.mag.val() < bound_1024(),
        ensures
            r.wf(),
            r.int_val() == self.int_val() + other.int_val(),
    {
        if self.neg == other.neg {
            let m = wide_add(&self.mag, &other.mag);
            proof {
                lemma_small_mod(self.mag.val() + other.mag.val(), bound_1024());
            }
            Signed::new(self.neg, m)
        } else if wide_le(&other.mag, &self.mag) {
            let m = wide_sub(&self.mag, &other.mag);
            proof {
                lemma_small_mod((self.mag.val() - other.mag.val()) as nat, bound_1024());
            }
            Signed::new(self.neg, m)
        } else {
            let m = wide_sub(&other.mag, &self.mag);
            proof {
                lemma_small_mod((other.mag.val() - self.mag.val()) as nat, bound_1024());
            }
            Signed::new(other.neg, m)
        }
    }

    fn sub(self, other: Self) -> (r: Self)
        requires
            self.mag.val() + other.mag.val() < bound_1024(),
        ensures
            r.wf(),
            r.int_val() == self.int_val() - other.int_val(),
    {
        self.add(other.negate())
    }

    fn mul(self, other: Self) -> (r: Self)
        requires
            self.mag.val() * other.mag.val() < bound_1024(),
        ensures
            r.wf(),
            r.mag.val() == self.mag.val() * other.mag.val(),
            r.int_val() == self.int_val() * other.int_val(),
    {
        let m = wide_mul(&self.mag, &other.mag);
        proof {
            let (a, b) = (self.mag.val() as int, other.mag.val() as int);
            lemma_mul_nonnegative(a, b);
            lemma_small_mod((a * b) as nat, bound_1024());
            assert((-a) * b == -(a * b) && a * (-b) == -(a * b) && (-a) * (-b) == a * b)
                by (nonlinear_arith);
        }
        Signed::new(self.neg != other.neg, m)
    }

    /// `round(self / n)` as a signed integer. Ties round up in magnitude; the exact tie-breaking
    /// rule is a performance choice, not a soundness one: the recompose relation this feeds
    /// holds for any integer quotient.
    fn div_round(self, n: &Wide) -> (r: Self)
        requires
            self.wf(),
            0 < n.val(),
            2 * n.val() <= bound_1024(),
        ensures
            r.wf(),
            r.int_val() == signed_round_div(self.int_val(), n.val()),
    {
        let q = wide_div(&self.mag, n);
        let r = wide_rem(&self.mag, n);
        let ghost (m, d) = (self.mag.val() as int, n.val() as int);
        proof {
            lemma_mod_bound(m, d);
            lemma_wide_value_bound(self.mag);
            lemma_small_mod((2 * (m % d)) as nat, bound_1024());
        }
        let twice_r = wide_add(&r, &r);
        let q = if wide_le(n, &twice_r) {
            proof {
                // A rounding step only happens when `n >= 2`, so `q + 1` cannot wrap.
                lemma_div_is_ordered_by_denominator(m, 2, d);
                lemma_fundamental_div_mod(m, 2);
                lemma_small_mod((m / d + 1) as nat, bound_1024());
            }
            wide_add(&q, &Wide::one())
        } else {
            q
        };
        Signed::new(self.neg, q)
    }
}

/// The GLV split of `k` against the short basis `(a₁, b₁), (a₂, b₂)`: Babai rounding
/// `c₁ = round(b₂·k / n)`, `c₂ = round(-b₁·k / n)`, then `k₁ = k - c₁·a₁ - c₂·a₂` and
/// `k₂ = -c₁·b₁ - c₂·b₂`.
pub open spec fn glv_split(k: nat) -> (int, int) {
    let c1 = signed_round_div(glv_b2() * k, n_val());
    let c2 = signed_round_div(-glv_b1() * k, n_val());
    (k - c1 * glv_a1() - c2 * glv_a2(), -c1 * glv_b1() - c2 * glv_b2())
}

/// The integer a signed half `(negative, magnitude)` stands for.
pub open spec fn signed_limbs_value(half: (bool, Limbs)) -> int {
    if half.0 {
        -(limbs_value(half.1) as int)
    } else {
        limbs_value(half.1) as int
    }
}

proof fn lemma_round_div_error(m: nat, n: nat)
    requires
        n > 0,
    ensures
        -(n as int) <= 2 * (n * round_div(m, n) - m) <= n,
{
    let (q, r) = ((m / n) as int, (m % n) as int);
    lemma_fundamental_div_mod(m as int, n as int);
    lemma_mod_bound(m as int, n as int);
    lemma_mul_is_distributive_add(n as int, q, 1);
}

/// Rounding `x / n` to the nearest integer is off by at most half of `n`:
/// `|n·round(x / n) - x| ≤ n / 2`.
pub proof fn lemma_signed_round_div_error(x: int, n: nat)
    requires
        n > 0,
    ensures
        -(n as int) <= 2 * (n * signed_round_div(x, n) - x) <= n,
{
    if x < 0 {
        lemma_round_div_error((-x) as nat, n);
        lemma_mul_unary_negation(n as int, round_div((-x) as nat, n) as int);
    } else {
        lemma_round_div_error(x as nat, n);
    }
}

/// With a modulus of at least 2, rounding never makes a magnitude larger.
pub proof fn lemma_round_div_le(m: nat, n: nat)
    requires
        n >= 2,
    ensures
        round_div(m, n) <= m,
{
    lemma_fundamental_div_mod(m as int, n as int);
    lemma_mod_bound(m as int, n as int);
    lemma_div_is_ordered_by_denominator(m as int, 2, n as int);
    lemma_fundamental_div_mod(m as int, 2);
}

/// The split recomposes: `k₁ + λ·k₂ ≡ k (mod n)`, for every `k`.
pub proof fn lemma_glv_split_recomposes(k: nat)
    ensures
        (glv_split(k).0 + lambda_val() * glv_split(k).1 - k) % (n_val() as int) == 0,
{
    lemma_basis_facts();
    let c1 = signed_round_div(glv_b2() * k, n_val());
    let c2 = signed_round_div(-glv_b1() * k, n_val());
    let (s1, s2) = (-0x4a5a_c2bf_7b5f_37f9_f1db_10d7_a2a9_c981int, 0xfce_9b1d_d4eb_7dd2_718a_2906_7870_61b2int);
    assert(glv_split(k).0 + lambda_val() * glv_split(k).1 - k == (-c1 * s1 - c2 * s2) * n_val());
    lemma_mod_multiples_basic(-c1 * s1 - c2 * s2, n_val() as int);
}

/// Both halves of the split are short: `|k₁|, |k₂| < 2^128`, for every `k`.
pub proof fn lemma_glv_split_short(k: nat)
    ensures
        -0x1_0000_0000_0000_0000_0000_0000_0000_0000int < glv_split(k).0
            < 0x1_0000_0000_0000_0000_0000_0000_0000_0000int,
        -0x1_0000_0000_0000_0000_0000_0000_0000_0000int < glv_split(k).1
            < 0x1_0000_0000_0000_0000_0000_0000_0000_0000int,
{
    lemma_basis_facts();
    let c1 = signed_round_div(glv_b2() * k, n_val());
    let c2 = signed_round_div(-glv_b1() * k, n_val());
    lemma_signed_round_div_error(glv_b2() * k, n_val());
    lemma_signed_round_div_error(-glv_b1() * k, n_val());
    // Babai: with determinant n, only the rounding errors are left of the split.
    let e1 = n_val() * c1 - glv_b2() * k;
    let e2 = n_val() * c2 + glv_b1() * k;
    assert(n_val() * glv_split(k).0 == -glv_a1() * e1 - glv_a2() * e2);
    assert(n_val() * glv_split(k).1 == -glv_b1() * e1 - glv_b2() * e2);
}

/// `r * r < n`, for `r` below 2^256.
fn below_sqrt(r: &Wide, n: &Wide) -> (b: bool)
    requires
        r.val() < bound_256(),
    ensures
        b == (r.val() * r.val() < n.val()),
{
    proof {
        lemma_mul_upper_bound(r.val() as int, bound_256() as int, r.val() as int, bound_256() as int);
        lemma_small_mod(r.val() * r.val(), bound_1024());
    }
    wide_lt(&wide_mul(r, r), n)
}

/// `r * r + t * t`, for `r` and `t` below 2^256.
fn norm_sq(r: &Wide, t: &Wide) -> (v: Wide)
    requires
        r.val() < bound_256(),
        t.val() < bound_256(),
    ensures
        v.val() == r.val() * r.val() + t.val() * t.val(),
{
    proof {
        lemma_mul_upper_bound(r.val() as int, bound_256() as int, r.val() as int, bound_256() as int);
        lemma_mul_upper_bound(t.val() as int, bound_256() as int, t.val() as int, bound_256() as int);
        lemma_small_mod(r.val() * r.val(), bound_1024());
        lemma_small_mod(t.val() * t.val(), bound_1024());
        lemma_small_mod(r.val() * r.val() + t.val() * t.val(), bound_1024());
    }
    wide_add(&wide_mul(r, r), &wide_mul(t, t))
}

proof fn lemma_product_below_1024(x: int, y: int)
    requires
        0 <= x < bound_512(),
        0 <= y < bound_512(),
    ensures
        x * y < bound_1024(),
{
    lemma_mul_below(x, bound_512() - 1, y, bound_512() - 1);
    assert((bound_512() - 1) * (bound_512() - 1) < bound_1024()) by (nonlinear_arith);
}

proof fn lemma_mul_below(a: int, abound: int, b: int, bbound: int)
    requires
        0 <= a <= abound,
        0 <= b <= bbound,
    ensures
        0 <= a * b <= abound * bbound,
{
    lemma_mul_nonnegative(a, b);
    lemma_mul_upper_bound(a, abound, b, bbound);
}

/// One step of the half extended-Euclid run keeps its invariant:
/// `r₀·|t₁| + r₁·|t₀| = n` with `t₀·t₁ ≤ 0`.
proof fn lemma_half_gcd_step(r0: int, r1: int, t0: int, t1: int, q: int, m: int)
    requires
        r1 > 0,
        q == r0 / r1,
        0 <= r0,
        r0 * abs(t1) + r1 * abs(t0) == m,
        t0 * t1 <= 0,
    ensures
        q >= 0,
        r1 * abs(t0 - q * t1) + (r0 % r1) * abs(t1) == m,
        abs(t0 - q * t1) == abs(t0) + q * abs(t1),
        t1 * (t0 - q * t1) <= 0,
{
    lemma_fundamental_div_mod(r0, r1);
    lemma_div_pos_is_pos(r0, r1);
    assert(abs(t0 - q * t1) == abs(t0) + q * abs(t1)) by (nonlinear_arith)
        requires
            q >= 0,
            t0 * t1 <= 0,
    ;
    assert(r1 * (abs(t0) + q * abs(t1)) + (r0 - r1 * q) * abs(t1) == r0 * abs(t1) + r1 * abs(
        t0,
    )) by (nonlinear_arith);
    assert(t1 * (t0 - q * t1) <= 0) by (nonlinear_arith)
        requires
            q >= 0,
            t0 * t1 <= 0,
    ;
}

/// Splits `k` (implicitly reduced mod `n`, the secp256k1 scalar-field order) into a signed short
/// pair `[(neg_a, mag_a), (neg_b, mag_b)]` with `k ≡ (±mag_a) + λ·(±mag_b) (mod n)`, each
/// magnitude below 2^128, by a half extended-Euclid shortest-lattice-vector reduction followed
/// by one Babai rounding step (Hankerson–Menezes–Vanstone, Algorithm 3.74).
///
/// The in-circuit certificate this decomposition feeds re-derives the same congruence from the
/// returned halves (see `lemma_glv_split_recomposes` and `lemma_glv_split_short`).
pub fn glv_decompose(k: Limbs) -> (r: [(bool, Limbs); 2])
    ensures
        signed_limbs_value(r[0]) == glv_split(limbs_value(k)).0,
        signed_limbs_value(r[1]) == glv_split(limbs_value(k)).1,
        limbs_value(r[0].1) == 0 ==> !r[0].0,
        limbs_value(r[1].1) == 0 ==> !r[1].0,
{
    proof {
        lemma_constants_values();
        lemma_half_gcd_trace();
        lemma_basis_facts();
        lemma_limbs_value_bound(k);
    }
    let n = limbs_to_wide(SECP256K1_N);
    let lambda = limbs_to_wide(SECP256K1_LAMBDA);
    let k = limbs_to_wide(k);
    let ghost kv = k.val() as int;

    let mut r0 = n;
    let mut r1 = lambda;
    let mut t0 = Signed::new(false, Wide::zero());
    let mut t1 = Signed::new(false, Wide::one());
    let ghost mut fuel: nat = 70;
    while !below_sqrt(&r1, &n)
        invariant
            n.val() == n_val(),
            r1.val() < r0.val() <= n_val(),
            r0.val() * t1.mag.val() + r1.val() * t0.mag.val() == n_val(),
            t0.int_val() * t1.int_val() <= 0,
            t0.wf(),
            t1.wf(),
            half_gcd_from(r0.val() as int, r1.val() as int, t0.int_val(), t1.int_val(), fuel)
                == half_gcd_final(),
        decreases r1.val(),
    {
        let ghost (gr0, gr1, gt0, gt1) = (r0.val() as int, r1.val() as int, t0.int_val(), t1.int_val());
        let ghost (a0, a1) = (t0.mag.val() as int, t1.mag.val() as int);
        proof {
            assert(gr1 > 0) by (nonlinear_arith)
                requires
                    gr1 * gr1 >= n_val(),
                    gr1 >= 0,
            ;
            // The run cannot have stopped yet: the state it stops in has `r₁² < n`.
            if fuel == 0 {
                assert(gr1 == half_gcd_final().1);
                assert(gr1 * gr1 < n_val());
            }
            lemma_fundamental_div_mod(gr0, gr1);
            lemma_div_pos_is_pos(gr0, gr1);
            lemma_mod_bound(gr0, gr1);
            // Bézout coefficients never exceed n.
            assert(a1 <= n_val() && a0 <= n_val()) by (nonlinear_arith)
                requires
                    gr0 * a1 + gr1 * a0 == n_val(),
                    gr0 >= 1,
                    gr1 >= 1,
                    a0 >= 0,
                    a1 >= 0,
            ;
            lemma_mul_below(gr0 / gr1, gr0, gr1, gr1);
        }
        let q = wide_div(&r0, &r1);
        proof {
            lemma_mul_is_commutative(q.val() as int, gr1);
            lemma_small_mod(q.val() * r1.val(), bound_1024());
            lemma_small_mod((gr0 - q.val() * gr1) as nat, bound_1024());
            lemma_mul_below(q.val() as int, n_val() as int, a1, n_val() as int);
            lemma_mul_below(n_val() as int, n_val() as int, n_val() as int, n_val() as int);
            lemma_half_gcd_step(gr0, gr1, gt0, gt1, q.val() as int, n_val() as int);
        }
        let r2 = wide_sub(&r0, &wide_mul(&q, &r1));
        let t2 = t0.sub(Signed::new(false, q).mul(t1));
        r0 = r1;
        r1 = r2;
        t0 = t1;
        t1 = t2;
        proof {
            fuel = (fuel - 1) as nat;
        }
    }
    let ghost (fr0, fr1, ft0, ft1) = half_gcd_final();
    assert(r0.val() == fr0 && r1.val() == fr1 && t0.int_val() == ft0 && t1.int_val() == ft1);

    let a1 = Signed::new(false, r1);
    let b1 = t1.negate();
    let q = wide_div(&r0, &r1);
    proof {
        lemma_fundamental_div_mod_converse(fr0, fr1, 5, fr0 - 5 * fr1);
        lemma_small_mod((5 * fr1) as nat, bound_1024());
        lemma_small_mod((fr0 - 5 * fr1) as nat, bound_1024());
    }
    let r2 = wide_sub(&r0, &wide_mul(&q, &r1));
    let t2 = t0.sub(Signed::new(false, q).mul(t1));
    let (a2, b2) = if wide_le(&norm_sq(&r0, &t0.mag), &norm_sq(&r2, &t2.mag)) {
        (Signed::new(false, r0), t0.negate())
    } else {
        (Signed::new(false, r2), t2.negate())
    };
    assert(a1.int_val() == glv_a1() && b1.int_val() == glv_b1());
    assert(a2.int_val() == glv_a2() && b2.int_val() == glv_b2());

    let k_s = Signed::new(false, k);
    proof {
        lemma_mul_below(b2.mag.val() as int, bound_256() as int, kv, bound_256() as int);
        lemma_mul_below(b1.mag.val() as int, bound_256() as int, kv, bound_256() as int);
    }
    let c1 = b2.mul(k_s).div_round(&n);
    let c2 = b1.negate().mul(k_s).div_round(&n);
    proof {
        lemma_round_div_le(b2.mag.val() * k.val(), n_val());
        lemma_round_div_le(b1.mag.val() * k.val(), n_val());
        lemma_mul_below(c1.mag.val() as int, bound_512() as int, a1.mag.val() as int, bound_256() as int);
        lemma_mul_below(c2.mag.val() as int, bound_512() as int, a2.mag.val() as int, bound_256() as int);
        lemma_mul_below(c1.mag.val() as int, bound_512() as int, b1.mag.val() as int, bound_256() as int);
        lemma_mul_below(c2.mag.val() as int, bound_512() as int, b2.mag.val() as int, bound_256() as int);
    }
    let c1a1 = c1.mul(a1);
    let c2a2 = c2.mul(a2);
    let k1 = k_s.sub(c1a1).sub(c2a2);
    let k2 = c1.negate().mul(b1).sub(c2.mul(b2));
    proof {
        lemma_glv_split_short(kv as nat);
    }
    assert(k1.int_val() == glv_split(kv as nat).0);
    assert(k2.int_val() == glv_split(kv as nat).1);
    [(k1.neg, wide_to_limbs(&k1.mag)), (k2.neg, wide_to_limbs(&k2.mag))]
}

/// One square-and-multiply step keeps `result · base^exp (mod m)` unchanged.
proof fn lemma_mod_pow_step(r: int, b: int, e: nat, m: int)
    requires
        m > 0,
    ensures
        (if e % 2 == 1 { (r * b) % m } else { r }) * pow((b * b) % m, e / 2) % m
            == (r * pow(b, e)) % m,
{
    let h = e / 2;
    let p = pow(b * b, h);
    assert(e == 2 * h + e % 2);
    lemma_pow_adds(b, 2 * h, e % 2);
    lemma_pow_multiplies(b, 2, h);
    lemma_square_is_pow2(b);
    lemma_pow_mod_noop(b * b, h, m);
    lemma_mul_mod_noop_general(r, pow((b * b) % m, h), m);
    lemma_mul_mod_noop_general(r, p, m);
    if e % 2 == 1 {
        lemma_pow1(b);
        lemma_mul_mod_noop_general(r * b, pow((b * b) % m, h), m);
        lemma_mul_mod_noop_general(r * b, p, m);
        lemma_mul_is_associative(r, b, p);
        lemma_mul_is_commutative(b, p);
        lemma_mul_is_associative(r, p, b);
    } else {
        lemma_pow0(b);
    }
}

/// Computes `base^exp mod modulus` via square-and-multiply.
fn mod_pow(base: &Wide, exp: &Wide, modulus: &Wide) -> (r: Wide)
    requires
        0 < modulus.val() < bound_512(),
    ensures
        r.val() == pow(base.val() as int, exp.val()) % (modulus.val() as int),
{
    let ghost m = modulus.val() as int;
    let two = wide_add(&Wide::one(), &Wide::one());
    let mut result = wide_rem(&Wide::one(), modulus);
    proof {
        lemma_small_mod(2, bound_1024());
        lemma_pow_mod_noop(base.val() as int, exp.val(), m);
        lemma_mul_mod_noop_general(1, pow((base.val() % modulus.val()) as int, exp.val()), m);
        lemma_mod_bound(1, m);
    }
    let mut base_pow = wide_rem(base, modulus);
    let mut e = *exp;
    while !wide_eq(&e, &Wide::zero())
        invariant
            m == modulus.val(),
            0 < m < bound_512(),
            two.val() == 2,
            result.val() < m,
            base_pow.val() < m,
            (result.val() * pow(base_pow.val() as int, e.val())) % m == pow(base.val() as int, exp.val())
                % m,
        decreases e.val(),
    {
        let ghost (r0, b0, e0) = (result.val() as int, base_pow.val() as int, e.val());
        proof {
            lemma_mod_pow_step(r0, b0, e0, m);
            lemma_mul_below(r0, m, b0, m);
            lemma_mul_below(b0, m, b0, m);
            lemma_product_below_1024(r0, b0);
            lemma_product_below_1024(b0, b0);
            lemma_small_mod((r0 * b0) as nat, bound_1024());
            lemma_small_mod((b0 * b0) as nat, bound_1024());
            lemma_mod_bound(r0 * b0, m);
            lemma_mod_bound(b0 * b0, m);
        }
        if wide_eq(&wide_rem(&e, &two), &Wide::one()) {
            result = wide_rem(&wide_mul(&result, &base_pow), modulus);
        }
        e = wide_div(&e, &two);
        base_pow = wide_rem(&wide_mul(&base_pow, &base_pow), modulus);
    }
    proof {
        lemma_pow0(base_pow.val() as int);
        lemma_small_mod(result.val(), m as nat);
    }
    result
}

/// Reduction modulo `n` leaves a scalar below `n` as it is, and sends `n` itself to zero.
pub proof fn lemma_reduce_fixes_reduced(v: nat)
    ensures
        v < n_val() ==> v % n_val() == v,
        n_val() % n_val() == 0,
{
    lemma_constants_values();
    if v < n_val() {
        lemma_small_mod(v, n_val());
    }
    lemma_mod_self_0(n_val() as int);
}

/// Reduces `v` modulo the secp256k1 scalar-field order `n`.
pub fn reduce_mod_n(v: Limbs) -> (r: Limbs)
    ensures
        limbs_value(r) == limbs_value(v) % n_val(),
{
    proof {
        lemma_constants_values();
        lemma_mod_bound(limbs_value(v) as int, n_val() as int);
    }
    let n = limbs_to_wide(SECP256K1_N);
    wide_to_limbs(&wide_rem(&limbs_to_wide(v), &n))
}

/// Computes `a * b mod n`, the secp256k1 scalar-field order.
pub fn scalar_mul_mod_n(a: Limbs, b: Limbs) -> (r: Limbs)
    ensures
        limbs_value(r) == (limbs_value(a) * limbs_value(b)) % n_val(),
{
    proof {
        lemma_constants_values();
        lemma_limbs_value_bound(a);
        lemma_limbs_value_bound(b);
        lemma_mul_below(limbs_value(a) as int, bound_256() as int, limbs_value(b) as int, bound_256() as int);
        lemma_small_mod(limbs_value(a) * limbs_value(b), bound_1024());
        lemma_mod_bound((limbs_value(a) * limbs_value(b)) as int, n_val() as int);
    }
    let n = limbs_to_wide(SECP256K1_N);
    wide_to_limbs(&wide_rem(&wide_mul(&limbs_to_wide(a), &limbs_to_wide(b)), &n))
}

/// `v^(n-2) mod n`: by Fermat's little theorem (`n` is prime) the multiplicative inverse of a
/// nonzero residue `v` modulo the group order.
pub open spec fn inverse_mod_n(v: nat) -> nat {
    (pow(v as int, (n_val() - 2) as nat) % (n_val() as int)) as nat
}

/// Where `n` is prime, [`inverse_mod_n`] (what [`scalar_inv_mod_n`] returns) inverts every
/// nonzero residue `a`: the result is itself a nonzero residue, `a · a⁻¹ ≡ 1 (mod n)`, and
/// inverting twice gives `a` back.
pub proof fn lemma_inverse_mod_n(a: nat)
    requires
        is_prime(n_val() as int),
        0 < a < n_val(),
    ensures
        0 < inverse_mod_n(a) < n_val(),
        (a * inverse_mod_n(a)) % n_val() == 1,
        inverse_mod_n(inverse_mod_n(a)) == a,
{
    lemma_fermat_inverse(a as int, n_val() as int);
}

/// Computes `a^(n-2) mod n` (`n` the secp256k1 scalar-field order), which by Fermat's little
/// theorem (`n` is prime) is the multiplicative inverse of `a` modulo `n`. Zero has no inverse
/// and is refused.
pub fn scalar_inv_mod_n(a: Limbs) -> (r: Limbs)
    requires
        0 < limbs_value(a) < n_val(),
    ensures
        limbs_value(r) == inverse_mod_n(limbs_value(a)),
{
    proof {
        lemma_constants_values();
    }
    let n = limbs_to_wide(SECP256K1_N);
    let a = limbs_to_wide(a);
    let two = wide_add(&Wide::one(), &Wide::one());
    proof {
        lemma_small_mod(2, bound_1024());
        lemma_small_mod((n_val() - 2) as nat, bound_1024());
    }
    let exp = wide_sub(&n, &two);
    let r = mod_pow(&a, &exp, &n);
    proof {
        lemma_mod_bound(pow(a.val() as int, exp.val()), n_val() as int);
    }
    wide_to_limbs(&r)
}

} // verus!
