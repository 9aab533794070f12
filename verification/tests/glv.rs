use miden_helpers::glv::{
    glv_decompose, reduce_mod_n, scalar_inv_mod_n, scalar_mul_mod_n, SECP256K1_BETA, SECP256K1_LAMBDA,
    SECP256K1_N,
};
use miden_helpers::wide::Limbs;
use ruint::aliases::U512;

fn limbs_from_u64(v: u64) -> Limbs {
    [v as u32, (v >> 32) as u32, 0, 0, 0, 0, 0, 0]
}

fn to_u512(limbs: Limbs) -> U512 {
    let mut words = [0u64; 8];
    for i in 0..4 {
        words[i] = (limbs[2 * i] as u64) | ((limbs[2 * i + 1] as u64) << 32);
    }
    U512::from_limbs(words)
}

/// The value `±mag` taken modulo `n`, in `[0, n)`.
fn signed_mod_n(neg: bool, mag: U512) -> U512 {
    let n = to_u512(SECP256K1_N);
    let m = mag % n;
    if neg && m != U512::ZERO {
        n - m
    } else {
        m
    }
}

/// Recomposes a GLV split `k1 + λ·k2` modulo `n`.
fn recompose(split: [(bool, Limbs); 2]) -> U512 {
    let n = to_u512(SECP256K1_N);
    let lambda = to_u512(SECP256K1_LAMBDA);
    let a = signed_mod_n(split[0].0, to_u512(split[0].1));
    let b = signed_mod_n(split[1].0, (lambda * to_u512(split[1].1)) % n);
    (a + b) % n
}

#[test]
fn glv_decompose_recomposes_small_scalars() {
    for k in [0u64, 1, 2, 12345, u64::MAX] {
        let split = glv_decompose(limbs_from_u64(k));
        assert_eq!(recompose(split), to_u512(limbs_from_u64(k)), "failed for k={k}");
    }
}

#[test]
fn glv_decompose_recomposes_full_width_scalar() {
    let k: Limbs = [
        0x12345678, 0x9abcdef0, 0x0fedcba9, 0x87654321, 0x11223344, 0x55667788, 0x99aabbcc,
        0x00112233,
    ];
    let split = glv_decompose(k);
    assert_eq!(recompose(split), to_u512(k));
}

#[test]
fn glv_decompose_halves_are_short() {
    let k: Limbs = [
        0x12345678, 0x9abcdef0, 0x0fedcba9, 0x87654321, 0x11223344, 0x55667788, 0x99aabbcc,
        0x00112233,
    ];
    let mut bound_limbs = [0u32; 8];
    bound_limbs[4] = 0x10;
    let bound = to_u512(bound_limbs);
    for (_, mag) in glv_decompose(k) {
        assert!(to_u512(mag) < bound, "GLV half is not short: {mag:?}");
    }
}

#[test]
fn scalar_inv_mod_n_round_trips() {
    for v in [1u64, 2, 3, 12345, u64::MAX] {
        let a = limbs_from_u64(v);
        let inv = scalar_inv_mod_n(a);
        assert_eq!(scalar_mul_mod_n(a, inv), limbs_from_u64(1));
    }
}

#[test]
fn scalar_inv_mod_n_twice_gives_the_scalar_back() {
    let mut large = SECP256K1_N;
    large[0] -= 12345;
    for a in [limbs_from_u64(1), limbs_from_u64(2), limbs_from_u64(0xdead_beef_cafe), large] {
        let inv = scalar_inv_mod_n(a);
        assert_ne!(inv, limbs_from_u64(0));
        assert_eq!(scalar_mul_mod_n(inv, a), limbs_from_u64(1));
        assert_eq!(scalar_inv_mod_n(inv), a);
    }
}

#[test]
fn reduce_mod_n_is_identity_below_modulus() {
    let a = limbs_from_u64(12345);
    assert_eq!(reduce_mod_n(a), a);
}

#[test]
fn reduce_mod_n_wraps_the_modulus() {
    let n = SECP256K1_N;
    assert_eq!(reduce_mod_n(n), limbs_from_u64(0));
}

#[test]
fn reduce_mod_n_of_max_scalar() {
    // 2^256 - 1 = n + (2^256 - 1 - n).
    let max = [u32::MAX; 8];
    let n = to_u512(SECP256K1_N);
    let expected = to_u512(max) - n;
    assert_eq!(to_u512(reduce_mod_n(max)), expected);
    let mut n_plus_five = SECP256K1_N;
    n_plus_five[0] += 5;
    assert_eq!(reduce_mod_n(n_plus_five), limbs_from_u64(5));
}

#[test]
fn scalar_mul_mod_n_exact_values() {
    assert_eq!(scalar_mul_mod_n(limbs_from_u64(6), limbs_from_u64(7)), limbs_from_u64(42));
    // (n - 1)^2 = 1 (mod n).
    let mut n_minus_one = SECP256K1_N;
    n_minus_one[0] -= 1;
    assert_eq!(scalar_mul_mod_n(n_minus_one, n_minus_one), limbs_from_u64(1));
    assert_eq!(scalar_mul_mod_n(SECP256K1_N, limbs_from_u64(9)), limbs_from_u64(0));
}

#[test]
fn scalar_inv_of_n_minus_one_is_itself() {
    let mut n_minus_one = SECP256K1_N;
    n_minus_one[0] -= 1;
    assert_eq!(scalar_inv_mod_n(n_minus_one), n_minus_one);
    assert_eq!(scalar_inv_mod_n(limbs_from_u64(1)), limbs_from_u64(1));
}

#[test]
fn glv_of_lambda_is_zero_plus_one_lambda() {
    // k = λ splits as 0 + 1·λ up to the lattice; either way it recomposes.
    let split = glv_decompose(SECP256K1_LAMBDA);
    assert_eq!(recompose(split), to_u512(SECP256K1_LAMBDA));
    let split = glv_decompose(limbs_from_u64(0));
    assert_eq!(split, [(false, [0; 8]), (false, [0; 8])]);
}

#[test]
fn lambda_is_a_cube_root_of_unity_and_beta_is_set() {
    let n = to_u512(SECP256K1_N);
    let l = to_u512(SECP256K1_LAMBDA);
    assert_eq!((l * l % n) * l % n, U512::from(1u64));
    assert_ne!(SECP256K1_BETA, [0u32; 8]);
}
