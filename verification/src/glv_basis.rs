//! The short lattice basis behind the secp256k1 GLV split: the half extended-Euclid run on
//! `(n, λ)`, traced step by step, and the facts about the basis vectors it yields.

use vstd::prelude::*;
use vstd::arithmetic::div_mod::lemma_fundamental_div_mod_converse;

verus! {

/// The secp256k1 group order `n`.
#[verifier::inline]
pub open spec fn n_val() -> nat {
    0xffff_ffff_ffff_ffff_ffff_ffff_ffff_fffe_baae_dce6_af48_a03b_bfd2_5e8c_d036_4141nat
}

/// The GLV endomorphism scalar `λ`.
#[verifier::inline]
pub open spec fn lambda_val() -> nat {
    0x5363_ad4c_c05c_30e0_a526_1c02_8812_645a_122e_22ea_2081_6678_df02_967c_1b23_bd72nat
}

/// The half extended-Euclid iteration on remainders `r` and Bézout coefficients `t` (with
/// `r_i ≡ t_i·λ (mod n)`), run for at most `fuel` steps and stopped as soon as `r_(i+1)² < n`.
pub open spec fn half_gcd_from(r0: int, r1: int, t0: int, t1: int, fuel: nat) -> (int, int, int, int)
    decreases fuel,
{
    if fuel == 0 || r1 <= 0 || r1 * r1 < n_val() {
        (r0, r1, t0, t1)
    } else {
        half_gcd_from(r1, r0 % r1, t1, t0 - (r0 / r1) * t1, (fuel - 1) as nat)
    }
}

/// The state `(r_i, r_(i+1), t_i, t_(i+1))` in which the half extended-Euclid run on `(n, λ)` stops:
/// the first one whose second remainder is below `√n`.
pub open spec fn half_gcd_final() -> (int, int, int, int) {
    (
        0x1_14ca_50f7_a8e2_f3f6_57c1_108d_9d44_cfd8int,
        0x3086_d221_a7d4_6bcd_e86c_90e4_9284_eb15int,
        -0x3086_d221_a7d4_6bcd_e86c_90e4_9284_eb15int,
        0xe443_7ed6_010e_8828_6f54_7fa9_0abf_e4c3int,
    )
}

/// First coordinate of the first short lattice vector `(a₁, b₁)`, with `a₁ + b₁·λ ≡ 0 (mod n)`.
#[verifier::inline]
pub open spec fn glv_a1() -> int {
    0x3086_d221_a7d4_6bcd_e86c_90e4_9284_eb15int
}

/// Second coordinate of the first short lattice vector.
#[verifier::inline]
pub open spec fn glv_b1() -> int {
    -0xe443_7ed6_010e_8828_6f54_7fa9_0abf_e4c3int
}

/// First coordinate of the second short lattice vector `(a₂, b₂)`, with `a₂ + b₂·λ ≡ 0 (mod n)`.
#[verifier::inline]
pub open spec fn glv_a2() -> int {
    0x1_14ca_50f7_a8e2_f3f6_57c1_108d_9d44_cfd8int
}

/// Second coordinate of the second short lattice vector.
#[verifier::inline]
pub open spec fn glv_b2() -> int {
    0x3086_d221_a7d4_6bcd_e86c_90e4_9284_eb15int
}

/// The extended-Euclid states visited from `(n, λ, 0, 1)` until the remainder drops below
/// `√n`, each one produced from the previous by one division step.
pub(crate) proof fn lemma_half_gcd_trace()
    ensures
        half_gcd_from(n_val() as int, lambda_val() as int, 0, 1, 70) == half_gcd_final(),
{
    lemma_fundamental_div_mod_converse(0xffff_ffff_ffff_ffff_ffff_ffff_ffff_fffe_baae_dce6_af48_a03b_bfd2_5e8c_d036_4141int, 0x5363_ad4c_c05c_30e0_a526_1c02_8812_645a_122e_22ea_2081_6678_df02_967c_1b23_bd72int, 0x3int, 0x5d4_f819_beeb_6d5e_108d_abf8_67c8_d2f0_8424_7428_4dc4_6cd1_22ca_9b18_7ecb_08ebint);
    assert(half_gcd_from(0xffff_ffff_ffff_ffff_ffff_ffff_ffff_fffe_baae_dce6_af48_a03b_bfd2_5e8c_d036_4141int, 0x5363_ad4c_c05c_30e0_a526_1c02_8812_645a_122e_22ea_2081_6678_df02_967c_1b23_bd72int, 0x0int, 0x1int, 70) == half_gcd_from(0x5363_ad4c_c05c_30e0_a526_1c02_8812_645a_122e_22ea_2081_6678_df02_967c_1b23_bd72int, 0x5d4_f819_beeb_6d5e_108d_abf8_67c8_d2f0_8424_7428_4dc4_6cd1_22ca_9b18_7ecb_08ebint, 0x1int, -0x3int, 69));
    lemma_fundamental_div_mod_converse(0x5363_ad4c_c05c_30e0_a526_1c02_8812_645a_122e_22ea_2081_6678_df02_967c_1b23_bd72int, 0x5d4_f819_beeb_6d5e_108d_abf8_67c8_d2f0_8424_7428_4dc4_6cd1_22ca_9b18_7ecb_08ebint, 0xeint, 0x1be_1be4_4f7c_35bb_bd66_b46c_db16_db32_d82f_c8b5_dfc3_7308_f7ee_1b25_2c09_4098int);
    assert(half_gcd_from(0x5363_ad4c_c05c_30e0_a526_1c02_8812_645a_122e_22ea_2081_6678_df02_967c_1b23_bd72int, 0x5d4_f819_beeb_6d5e_108d_abf8_67c8_d2f0_8424_7428_4dc4_6cd1_22ca_9b18_7ecb_08ebint, 0x1int, -0x3int, 69) == half_gcd_from(0x5d4_f819_beeb_6d5e_108d_abf8_67c8_d2f0_8424_7428_4dc4_6cd1_22ca_9b18_7ecb_08ebint, 0x1be_1be4_4f7c_35bb_bd66_b46c_db16_db32_d82f_c8b5_dfc3_7308_f7ee_1b25_2c09_4098int, -0x3int, 0x2bint, 68));
    lemma_fundamental_div_mod_converse(0x5d4_f819_beeb_6d5e_108d_abf8_67c8_d2f0_8424_7428_4dc4_6cd1_22ca_9b18_7ecb_08ebint, 0x1be_1be4_4f7c_35bb_bd66_b46c_db16_db32_d82f_c8b5_dfc3_7308_f7ee_1b25_2c09_4098int, 0x3int, 0x9a_a46c_d076_cc2a_d859_8eb1_d684_4157_fb95_1a06_ae7a_13b6_3b00_49a8_faaf_4723int);
    assert(half_gcd_from(0x5d4_f819_beeb_6d5e_108d_abf8_67c8_d2f0_8424_7428_4dc4_6cd1_22ca_9b18_7ecb_08ebint, 0x1be_1be4_4f7c_35bb_bd66_b46c_db16_db32_d82f_c8b5_dfc3_7308_f7ee_1b25_2c09_4098int, -0x3int, 0x2bint, 68) == half_gcd_from(0x1be_1be4_4f7c_35bb_bd66_b46c_db16_db32_d82f_c8b5_dfc3_7308_f7ee_1b25_2c09_4098int, 0x9a_a46c_d076_cc2a_d859_8eb1_d684_4157_fb95_1a06_ae7a_13b6_3b00_49a8_faaf_4723int, 0x2bint, -0x84int, 67));
    lemma_fundamental_div_mod_converse(0x1be_1be4_4f7c_35bb_bd66_b46c_db16_db32_d82f_c8b5_dfc3_7308_f7ee_1b25_2c09_4098int, 0x9a_a46c_d076_cc2a_d859_8eb1_d684_4157_fb95_1a06_ae7a_13b6_3b00_49a8_faaf_4723int, 0x2int, 0x88_d30a_ae8e_9d66_0cb3_9709_2e0e_5882_e105_94a8_82cf_4b9c_81ed_87d3_36aa_b252int);
    assert(half_gcd_from(0x1be_1be4_4f7c_35bb_bd66_b46c_db16_db32_d82f_c8b5_dfc3_7308_f7ee_1b25_2c09_4098int, 0x9a_a46c_d076_cc2a_d859_8eb1_d684_4157_fb95_1a06_ae7a_13b6_3b00_49a8_faaf_4723int, 0x2bint, -0x84int, 67) == half_gcd_from(0x9a_a46c_d076_cc2a_d859_8eb1_d684_4157_fb95_1a06_ae7a_13b6_3b00_49a8_faaf_4723int, 0x88_d30a_ae8e_9d66_0cb3_9709_2e0e_5882_e105_94a8_82cf_4b9c_81ed_87d3_36aa_b252int, -0x84int, 0x133int, 66));
    lemma_fundamental_div_mod_converse(0x9a_a46c_d076_cc2a_d859_8eb1_d684_4157_fb95_1a06_ae7a_13b6_3b00_49a8_faaf_4723int, 0x88_d30a_ae8e_9d66_0cb3_9709_2e0e_5882_e105_94a8_82cf_4b9c_81ed_87d3_36aa_b252int, 0x1int, 0x11_d162_21e8_2ec4_cba5_f7a8_a875_e8d5_1a8f_855e_2baa_c819_b912_c1d5_c404_94d1int);
    assert(half_gcd_from(0x9a_a46c_d076_cc2a_d859_8eb1_d684_4157_fb95_1a06_ae7a_13b6_3b00_49a8_faaf_4723int, 0x88_d30a_ae8e_9d66_0cb3_9709_2e0e_5882_e105_94a8_82cf_4b9c_81ed_87d3_36aa_b252int, -0x84int, 0x133int, 66) == half_gcd_from(0x88_d30a_ae8e_9d66_0cb3_9709_2e0e_5882_e105_94a8_82cf_4b9c_81ed_87d3_36aa_b252int, 0x11_d162_21e8_2ec4_cba5_f7a8_a875_e8d5_1a8f_855e_2baa_c819_b912_c1d5_c404_94d1int, 0x133int, -0x1b7int, 65));
    lemma_fundamental_div_mod_converse(0x88_d30a_ae8e_9d66_0cb3_9709_2e0e_5882_e105_94a8_82cf_4b9c_81ed_87d3_36aa_b252int, 0x11_d162_21e8_2ec4_cba5_f7a8_a875_e8d5_1a8f_855e_2baa_c819_b912_c1d5_c404_94d1int, 0x7int, 0xc_195b_c135_5604_7b29_d16c_92d4_faaf_2718_ef15_5123_d2e8_726a_3afa_da8a_a09bint);
    assert(half_gcd_from(0x88_d30a_ae8e_9d66_0cb3_9709_2e0e_5882_e105_94a8_82cf_4b9c_81ed_87d3_36aa_b252int, 0x11_d162_21e8_2ec4_cba5_f7a8_a875_e8d5_1a8f_855e_2baa_c819_b912_c1d5_c404_94d1int, 0x133int, -0x1b7int, 65) == half_gcd_from(0x11_d162_21e8_2ec4_cba5_f7a8_a875_e8d5_1a8f_855e_2baa_c819_b912_c1d5_c404_94d1int, 0xc_195b_c135_5604_7b29_d16c_92d4_faaf_2718_ef15_5123_d2e8_726a_3afa_da8a_a09bint, -0x1b7int, 0xd34int, 64));
    lemma_fundamental_div_mod_converse(0x11_d162_21e8_2ec4_cba5_f7a8_a875_e8d5_1a8f_855e_2baa_c819_b912_c1d5_c404_94d1int, 0xc_195b_c135_5604_7b29_d16c_92d4_faaf_2718_ef15_5123_d2e8_726a_3afa_da8a_a09bint, 0x1int, 0x5_b806_60b2_d8c0_507c_263c_15a0_ee25_f376_9648_da86_f531_46a8_86da_e979_f436int);
    assert(half_gcd_from(0x11_d162_21e8_2ec4_cba5_f7a8_a875_e8d5_1a8f_855e_2baa_c819_b912_c1d5_c404_94d1int, 0xc_195b_c135_5604_7b29_d16c_92d4_faaf_2718_ef15_5123_d2e8_726a_3afa_da8a_a09bint, -0x1b7int, 0xd34int, 64) == half_gcd_from(0xc_195b_c135_5604_7b29_d16c_92d4_faaf_2718_ef15_5123_d2e8_726a_3afa_da8a_a09bint, 0x5_b806_60b2_d8c0_507c_263c_15a0_ee25_f376_9648_da86_f531_46a8_86da_e979_f436int, 0xd34int, -0xeebint, 63));
    lemma_fundamental_div_mod_converse(0xc_195b_c135_5604_7b29_d16c_92d4_faaf_2718_ef15_5123_d2e8_726a_3afa_da8a_a09bint, 0x5_b806_60b2_d8c0_507c_263c_15a0_ee25_f376_9648_da86_f531_46a8_86da_e979_f436int, 0x2int, 0xa94e_ffcf_a483_da31_84f4_6793_1e63_402b_c283_9c15_e885_e519_2d45_0796_b82fint);
    assert(half_gcd_from(0xc_195b_c135_5604_7b29_d16c_92d4_faaf_2718_ef15_5123_d2e8_726a_3afa_da8a_a09bint, 0x5_b806_60b2_d8c0_507c_263c_15a0_ee25_f376_9648_da86_f531_46a8_86da_e979_f436int, 0xd34int, -0xeebint, 63) == half_gcd_from(0x5_b806_60b2_d8c0_507c_263c_15a0_ee25_f376_9648_da86_f531_46a8_86da_e979_f436int, 0xa94e_ffcf_a483_da31_84f4_6793_1e63_402b_c283_9c15_e885_e519_2d45_0796_b82fint, -0xeebint, 0x2b0aint, 62));
    lemma_fundamental_div_mod_converse(0x5_b806_60b2_d8c0_507c_263c_15a0_ee25_f376_9648_da86_f531_46a8_86da_e979_f436int, 0xa94e_ffcf_a483_da31_84f4_6793_1e63_402b_c283_9c15_e885_e519_2d45_0796_b82fint, 0x8int, 0x6d8e_6235_b4a1_7eef_fe98_d907_fb0b_f218_822b_f9d7_b102_1ddf_1cb2_acc4_32beint);
    assert(half_gcd_from(0x5_b806_60b2_d8c0_507c_263c_15a0_ee25_f376_9648_da86_f531_46a8_86da_e979_f436int, 0xa94e_ffcf_a483_da31_84f4_6793_1e63_402b_c283_9c15_e885_e519_2d45_0796_b82fint, -0xeebint, 0x2b0aint, 62) == half_gcd_from(0xa94e_ffcf_a483_da31_84f4_6793_1e63_402b_c283_9c15_e885_e519_2d45_0796_b82fint, 0x6d8e_6235_b4a1_7eef_fe98_d907_fb0b_f218_822b_f9d7_b102_1ddf_1cb2_acc4_32beint, 0x2b0aint, -0x1_673bint, 61));
    lemma_fundamental_div_mod_converse(0xa94e_ffcf_a483_da31_84f4_6793_1e63_402b_c283_9c15_e885_e519_2d45_0796_b82fint, 0x6d8e_6235_b4a1_7eef_fe98_d907_fb0b_f218_822b_f9d7_b102_1ddf_1cb2_acc4_32beint, 0x1int, 0x3bc0_9d99_efe2_5b41_865b_8e8b_2357_4e13_4057_a23e_3783_c73a_1092_5ad2_8571int);
    assert(half_gcd_from(0xa94e_ffcf_a483_da31_84f4_6793_1e63_402b_c283_9c15_e885_e519_2d45_0796_b82fint, 0x6d8e_6235_b4a1_7eef_fe98_d907_fb0b_f218_822b_f9d7_b102_1ddf_1cb2_acc4_32beint, 0x2b0aint, -0x1_673bint, 61) == half_gcd_from(0x6d8e_6235_b4a1_7eef_fe98_d907_fb0b_f218_822b_f9d7_b102_1ddf_1cb2_acc4_32beint, 0x3bc0_9d99_efe2_5b41_865b_8e8b_2357_4e13_4057_a23e_3783_c73a_1092_5ad2_8571int, -0x1_673bint, 0x1_9245int, 60));
    lemma_fundamental_div_mod_converse(0x6d8e_6235_b4a1_7eef_fe98_d907_fb0b_f218_822b_f9d7_b102_1ddf_1cb2_acc4_32beint, 0x3bc0_9d99_efe2_5b41_865b_8e8b_2357_4e13_4057_a23e_3783_c73a_1092_5ad2_8571int, 0x1int, 0x31cd_c49b_c4bf_23ae_783d_4a7c_d7b4_a405_41d4_5799_797e_56a5_0c20_51f1_ad4dint);
    assert(half_gcd_from(0x6d8e_6235_b4a1_7eef_fe98_d907_fb0b_f218_822b_f9d7_b102_1ddf_1cb2_acc4_32beint, 0x3bc0_9d99_efe2_5b41_865b_8e8b_2357_4e13_4057_a23e_3783_c73a_1092_5ad2_8571int, -0x1_673bint, 0x1_9245int, 60) == half_gcd_from(0x3bc0_9d99_efe2_5b41_865b_8e8b_2357_4e13_4057_a23e_3783_c73a_1092_5ad2_8571int, 0x31cd_c49b_c4bf_23ae_783d_4a7c_d7b4_a405_41d4_5799_797e_56a5_0c20_51f1_ad4dint, 0x1_9245int, -0x2_f980int, 59));
    lemma_fundamental_div_mod_converse(0x3bc0_9d99_efe2_5b41_865b_8e8b_2357_4e13_4057_a23e_3783_c73a_1092_5ad2_8571int, 0x31cd_c49b_c4bf_23ae_783d_4a7c_d7b4_a405_41d4_5799_797e_56a5_0c20_51f1_ad4dint, 0x1int, 0x9f2_d8fe_2b23_3793_0e1e_440e_4ba2_aa0d_fe83_4aa4_be05_7095_0472_08e0_d824int);
    assert(half_gcd_from(0x3bc0_9d99_efe2_5b41_865b_8e8b_2357_4e13_4057_a23e_3783_c73a_1092_5ad2_8571int, 0x31cd_c49b_c4bf_23ae_783d_4a7c_d7b4_a405_41d4_5799_797e_56a5_0c20_51f1_ad4dint, 0x1_9245int, -0x2_f980int, 59) == half_gcd_from(0x31cd_c49b_c4bf_23ae_783d_4a7c_d7b4_a405_41d4_5799_797e_56a5_0c20_51f1_ad4dint, 0x9f2_d8fe_2b23_3793_0e1e_440e_4ba2_aa0d_fe83_4aa4_be05_7095_0472_08e0_d824int, -0x2_f980int, 0x4_8bc5int, 58));
    lemma_fundamental_div_mod_converse(0x31cd_c49b_c4bf_23ae_783d_4a7c_d7b4_a405_41d4_5799_797e_56a5_0c20_51f1_ad4dint, 0x9f2_d8fe_2b23_3793_0e1e_440e_4ba2_aa0d_fe83_4aa4_be05_7095_0472_08e0_d824int, 0x5int, 0xf_87a4_ed0f_0dcf_31a5_f635_5d87_51bf_4943_e261_c363_23bb_f5e6_258d_7499int);
    assert(half_gcd_from(0x31cd_c49b_c4bf_23ae_783d_4a7c_d7b4_a405_41d4_5799_797e_56a5_0c20_51f1_ad4dint, 0x9f2_d8fe_2b23_3793_0e1e_440e_4ba2_aa0d_fe83_4aa4_be05_7095_0472_08e0_d824int, -0x2_f980int, 0x4_8bc5int, 58) == half_gcd_from(0x9f2_d8fe_2b23_3793_0e1e_440e_4ba2_aa0d_fe83_4aa4_be05_7095_0472_08e0_d824int, 0xf_87a4_ed0f_0dcf_31a5_f635_5d87_51bf_4943_e261_c363_23bb_f5e6_258d_7499int, 0x4_8bc5int, -0x19_b459int, 57));
    lemma_fundamental_div_mod_converse(0x9f2_d8fe_2b23_3793_0e1e_440e_4ba2_aa0d_fe83_4aa4_be05_7095_0472_08e0_d824int, 0xf_87a4_ed0f_0dcf_31a5_f635_5d87_51bf_4943_e261_c363_23bb_f5e6_258d_7499int, 0xa3int, 0xf_7afb_3a8d_6ca6_7172_8013_be79_9d42_584a_2665_55e5_afe7_72e8_1fcf_9ab9int);
    assert(half_gcd_from(0x9f2_d8fe_2b23_3793_0e1e_440e_4ba2_aa0d_fe83_4aa4_be05_7095_0472_08e0_d824int, 0xf_87a4_ed0f_0dcf_31a5_f635_5d87_51bf_4943_e261_c363_23bb_f5e6_258d_7499int, 0x4_8bc5int, -0x19_b459int, 57) == half_gcd_from(0xf_87a4_ed0f_0dcf_31a5_f635_5d87_51bf_4943_e261_c363_23bb_f5e6_258d_7499int, 0xf_7afb_3a8d_6ca6_7172_8013_be79_9d42_584a_2665_55e5_afe7_72e8_1fcf_9ab9int, -0x19_b459int, 0x1062_6070int, 56));
    lemma_fundamental_div_mod_converse(0xf_87a4_ed0f_0dcf_31a5_f635_5d87_51bf_4943_e261_c363_23bb_f5e6_258d_7499int, 0xf_7afb_3a8d_6ca6_7172_8013_be79_9d42_584a_2665_55e5_afe7_72e8_1fcf_9ab9int, 0x1int, 0xca9_b281_a128_c033_7621_9f0d_b47c_f0f9_bbfc_6d7d_73d4_82fe_05bd_d9e0int);
    assert(half_gcd_from(0xf_87a4_ed0f_0dcf_31a5_f635_5d87_51bf_4943_e261_c363_23bb_f5e6_258d_7499int, 0xf_7afb_3a8d_6ca6_7172_8013_be79_9d42_584a_2665_55e5_afe7_72e8_1fcf_9ab9int, -0x19_b459int, 0x1062_6070int, 56) == half_gcd_from(0xf_7afb_3a8d_6ca6_7172_8013_be79_9d42_584a_2665_55e5_afe7_72e8_1fcf_9ab9int, 0xca9_b281_a128_c033_7621_9f0d_b47c_f0f9_bbfc_6d7d_73d4_82fe_05bd_d9e0int, 0x1062_6070int, -0x107c_14c9int, 55));
    lemma_fundamental_div_mod_converse(0xf_7afb_3a8d_6ca6_7172_8013_be79_9d42_584a_2665_55e5_afe7_72e8_1fcf_9ab9int, 0xca9_b281_a128_c033_7621_9f0d_b47c_f0f9_bbfc_6d7d_73d4_82fe_05bd_d9e0int, 0x138int, 0xc29_ac91_02fc_32ba_8719_e5c5_a4fc_a7ed_0abf_e500_84e7_cd51_206e_11b9int);
    assert(half_gcd_from(0xf_7afb_3a8d_6ca6_7172_8013_be79_9d42_584a_2665_55e5_afe7_72e8_1fcf_9ab9int, 0xca9_b281_a128_c033_7621_9f0d_b47c_f0f9_bbfc_6d7d_73d4_82fe_05bd_d9e0int, 0x1062_6070int, -0x107c_14c9int, 55) == half_gcd_from(0xca9_b281_a128_c033_7621_9f0d_b47c_f0f9_bbfc_6d7d_73d4_82fe_05bd_d9e0int, 0xc29_ac91_02fc_32ba_8719_e5c5_a4fc_a7ed_0abf_e500_84e7_cd51_206e_11b9int, -0x107c_14c9int, 0x14_279b_b568int, 54));
    lemma_fundamental_div_mod_converse(0xca9_b281_a128_c033_7621_9f0d_b47c_f0f9_bbfc_6d7d_73d4_82fe_05bd_d9e0int, 0xc29_ac91_02fc_32ba_8719_e5c5_a4fc_a7ed_0abf_e500_84e7_cd51_206e_11b9int, 0x1int, 0x80_05f0_9e2c_8d78_ef07_b948_0f80_490c_b13c_887c_eeec_b5ac_e54f_c827int);
    assert(half_gcd_from(0xca9_b281_a128_c033_7621_9f0d_b47c_f0f9_bbfc_6d7d_73d4_82fe_05bd_d9e0int, 0xc29_ac91_02fc_32ba_8719_e5c5_a4fc_a7ed_0abf_e500_84e7_cd51_206e_11b9int, -0x107c_14c9int, 0x14_279b_b568int, 54) == half_gcd_from(0xc29_ac91_02fc_32ba_8719_e5c5_a4fc_a7ed_0abf_e500_84e7_cd51_206e_11b9int, 0x80_05f0_9e2c_8d78_ef07_b948_0f80_490c_b13c_887c_eeec_b5ac_e54f_c827int, 0x14_279b_b568int, -0x14_3817_ca31int, 53));
    lemma_fundamental_div_mod_converse(0xc29_ac91_02fc_32ba_8719_e5c5_a4fc_a7ed_0abf_e500_84e7_cd51_206e_11b9int, 0x80_05f0_9e2c_8d78_ef07_b948_0f80_490c_b13c_887c_eeec_b5ac_e54f_c827int, 0x18int, 0x29_1e02_2ece_ef64_1e60_8704_30f5_cebc_6d13_194a_1eb6_c51b_a0f3_4e11int);
    assert(half_gcd_from(0xc29_ac91_02fc_32ba_8719_e5c5_a4fc_a7ed_0abf_e500_84e7_cd51_206e_11b9int, 0x80_05f0_9e2c_8d78_ef07_b948_0f80_490c_b13c_887c_eeec_b5ac_e54f_c827int, 0x14_279b_b568int, -0x14_3817_ca31int, 53) == half_gcd_from(0x80_05f0_9e2c_8d78_ef07_b948_0f80_490c_b13c_887c_eeec_b5ac_e54f_c827int, 0x29_1e02_2ece_ef64_1e60_8704_30f5_cebc_6d13_194a_1eb6_c51b_a0f3_4e11int, -0x14_3817_ca31int, 0x1f9_69d6_aa00int, 52));
    lemma_fundamental_div_mod_converse(0x80_05f0_9e2c_8d78_ef07_b948_0f80_490c_b13c_887c_eeec_b5ac_e54f_c827int, 0x29_1e02_2ece_ef64_1e60_8704_30f5_cebc_6d13_194a_1eb6_c51b_a0f3_4e11int, 0x3int, 0x4_abea_11bf_bf4c_93e6_243b_7c9e_dcd7_6a03_3c9e_92c8_665a_0275_ddf4int);
    assert(half_gcd_from(0x80_05f0_9e2c_8d78_ef07_b948_0f80_490c_b13c_887c_eeec_b5ac_e54f_c827int, 0x29_1e02_2ece_ef64_1e60_8704_30f5_cebc_6d13_194a_1eb6_c51b_a0f3_4e11int, -0x14_3817_ca31int, 0x1f9_69d6_aa00int, 52) == half_gcd_from(0x29_1e02_2ece_ef64_1e60_8704_30f5_cebc_6d13_194a_1eb6_c51b_a0f3_4e11int, 0x4_abea_11bf_bf4c_93e6_243b_7c9e_dcd7_6a03_3c9e_92c8_665a_0275_ddf4int, 0x1f9_69d6_aa00int, -0x600_759b_c831int, 51));
    lemma_fundamental_div_mod_converse(0x29_1e02_2ece_ef64_1e60_8704_30f5_cebc_6d13_194a_1eb6_c51b_a0f3_4e11int, 0x4_abea_11bf_bf4c_93e6_243b_7c9e_dcd7_6a03_3c9e_92c8_665a_0275_ddf4int, 0x8int, 0x3_beb1_a0d0_f4ff_7f2f_6528_4bfe_e801_1cf9_3455_8873_924b_8d44_5e71int);
    assert(half_gcd_from(0x29_1e02_2ece_ef64_1e60_8704_30f5_cebc_6d13_194a_1eb6_c51b_a0f3_4e11int, 0x4_abea_11bf_bf4c_93e6_243b_7c9e_dcd7_6a03_3c9e_92c8_665a_0275_ddf4int, 0x1f9_69d6_aa00int, -0x600_759b_c831int, 51) == half_gcd_from(0x4_abea_11bf_bf4c_93e6_243b_7c9e_dcd7_6a03_3c9e_92c8_665a_0275_ddf4int, 0x3_beb1_a0d0_f4ff_7f2f_6528_4bfe_e801_1cf9_3455_8873_924b_8d44_5e71int, -0x600_759b_c831int, 0x31fd_16b4_eb88int, 50));
    lemma_fundamental_div_mod_converse(0x4_abea_11bf_bf4c_93e6_243b_7c9e_dcd7_6a03_3c9e_92c8_665a_0275_ddf4int, 0x3_beb1_a0d0_f4ff_7f2f_6528_4bfe_e801_1cf9_3455_8873_924b_8d44_5e71int, 0x1int, 0xed38_70ee_ca4d_14b6_bf13_309f_f4d6_4d0a_0849_0a54_d40e_7531_7f83int);
    assert(half_gcd_from(0x4_abea_11bf_bf4c_93e6_243b_7c9e_dcd7_6a03_3c9e_92c8_665a_0275_ddf4int, 0x3_beb1_a0d0_f4ff_7f2f_6528_4bfe_e801_1cf9_3455_8873_924b_8d44_5e71int, -0x600_759b_c831int, 0x31fd_16b4_eb88int, 50) == half_gcd_from(0x3_beb1_a0d0_f4ff_7f2f_6528_4bfe_e801_1cf9_3455_8873_924b_8d44_5e71int, 0xed38_70ee_ca4d_14b6_bf13_309f_f4d6_4d0a_0849_0a54_d40e_7531_7f83int, 0x31fd_16b4_eb88int, -0x37fd_8c50_b3b9int, 49));
    lemma_fundamental_div_mod_converse(0x3_beb1_a0d0_f4ff_7f2f_6528_4bfe_e801_1cf9_3455_8873_924b_8d44_5e71int, 0xed38_70ee_ca4d_14b6_bf13_309f_f4d6_4d0a_0849_0a54_d40e_7531_7f83int, 0x4int, 0x9cf_dd15_cbcb_2c54_68db_897f_14a7_e8d1_1331_5f20_4211_b87e_6065int);
    assert(half_gcd_from(0x3_beb1_a0d0_f4ff_7f2f_6528_4bfe_e801_1cf9_3455_8873_924b_8d44_5e71int, 0xed38_70ee_ca4d_14b6_bf13_309f_f4d6_4d0a_0849_0a54_d40e_7531_7f83int, 0x31fd_16b4_eb88int, -0x37fd_8c50_b3b9int, 49) == half_gcd_from(0xed38_70ee_ca4d_14b6_bf13_309f_f4d6_4d0a_0849_0a54_d40e_7531_7f83int, 0x9cf_dd15_cbcb_2c54_68db_897f_14a7_e8d1_1331_5f20_4211_b87e_6065int, -0x37fd_8c50_b3b9int, 0x1_11f3_47f7_ba6cint, 48));
    lemma_fundamental_div_mod_converse(0xed38_70ee_ca4d_14b6_bf13_309f_f4d6_4d0a_0849_0a54_d40e_7531_7f83int, 0x9cf_dd15_cbcb_2c54_68db_897f_14a7_e8d1_1331_5f20_4211_b87e_6065int, 0x18int, 0x1bb_b6e3_af40_eccc_ea7e_4cb6_0518_7970_3ba8_1f4e_a265_2958_760bint);
    assert(half_gcd_from(0xed38_70ee_ca4d_14b6_bf13_309f_f4d6_4d0a_0849_0a54_d40e_7531_7f83int, 0x9cf_dd15_cbcb_2c54_68db_897f_14a7_e8d1_1331_5f20_4211_b87e_6065int, -0x37fd_8c50_b3b9int, 0x1_11f3_47f7_ba6cint, 48) == half_gcd_from(0x9cf_dd15_cbcb_2c54_68db_897f_14a7_e8d1_1331_5f20_4211_b87e_6065int, 0x1bb_b6e3_af40_eccc_ea7e_4cb6_0518_7970_3ba8_1f4e_a265_2958_760bint, 0x1_11f3_47f7_ba6cint, -0x19_e6cc_4b8a_2dd9int, 47));
    lemma_fundamental_div_mod_converse(0x9cf_dd15_cbcb_2c54_68db_897f_14a7_e8d1_1331_5f20_4211_b87e_6065int, 0x1bb_b6e3_af40_eccc_ea7e_4cb6_0518_7970_3ba8_1f4e_a265_2958_760bint, 0x5int, 0x125_4aa3_5f86_8c53_d464_09f0_fb2d_899f_e8e8_c297_1617_e9c4_122eint);
    assert(half_gcd_from(0x9cf_dd15_cbcb_2c54_68db_897f_14a7_e8d1_1331_5f20_4211_b87e_6065int, 0x1bb_b6e3_af40_eccc_ea7e_4cb6_0518_7970_3ba8_1f4e_a265_2958_760bint, 0x1_11f3_47f7_ba6cint, -0x19_e6cc_4b8a_2dd9int, 47) == half_gcd_from(0x1bb_b6e3_af40_eccc_ea7e_4cb6_0518_7970_3ba8_1f4e_a265_2958_760bint, 0x125_4aa3_5f86_8c53_d464_09f0_fb2d_899f_e8e8_c297_1617_e9c4_122eint, -0x19_e6cc_4b8a_2dd9int, 0x82_93f0_c1aa_9fa9int, 46));
    lemma_fundamental_div_mod_converse(0x1bb_b6e3_af40_eccc_ea7e_4cb6_0518_7970_3ba8_1f4e_a265_2958_760bint, 0x125_4aa3_5f86_8c53_d464_09f0_fb2d_899f_e8e8_c297_1617_e9c4_122eint, 0x1int, 0x96_6c40_4fba_6079_161a_42c5_09ea_efd0_52bf_5cb7_8c4d_3f94_63ddint);
    assert(half_gcd_from(0x1bb_b6e3_af40_eccc_ea7e_4cb6_0518_7970_3ba8_1f4e_a265_2958_760bint, 0x125_4aa3_5f86_8c53_d464_09f0_fb2d_899f_e8e8_c297_1617_e9c4_122eint, -0x19_e6cc_4b8a_2dd9int, 0x82_93f0_c1aa_9fa9int, 46) == half_gcd_from(0x125_4aa3_5f86_8c53_d464_09f0_fb2d_899f_e8e8_c297_1617_e9c4_122eint, 0x96_6c40_4fba_6079_161a_42c5_09ea_efd0_52bf_5cb7_8c4d_3f94_63ddint, 0x82_93f0_c1aa_9fa9int, -0x9c_7abd_0d34_cd82int, 45));
    lemma_fundamental_div_mod_converse(0x125_4aa3_5f86_8c53_d464_09f0_fb2d_899f_e8e8_c297_1617_e9c4_122eint, 0x96_6c40_4fba_6079_161a_42c5_09ea_efd0_52bf_5cb7_8c4d_3f94_63ddint, 0x1int, 0x8e_de63_0fcc_2bda_be49_c72b_f142_99cf_9629_65df_89ca_aa2f_ae51int);
    assert(half_gcd_from(0x125_4aa3_5f86_8c53_d464_09f0_fb2d_899f_e8e8_c297_1617_e9c4_122eint, 0x96_6c40_4fba_6079_161a_42c5_09ea_efd0_52bf_5cb7_8c4d_3f94_63ddint, 0x82_93f0_c1aa_9fa9int, -0x9c_7abd_0d34_cd82int, 45) == half_gcd_from(0x96_6c40_4fba_6079_161a_42c5_09ea_efd0_52bf_5cb7_8c4d_3f94_63ddint, 0x8e_de63_0fcc_2bda_be49_c72b_f142_99cf_9629_65df_89ca_aa2f_ae51int, -0x9c_7abd_0d34_cd82int, 0x11f_0ead_cedf_6d2bint, 44));
    lemma_fundamental_div_mod_converse(0x96_6c40_4fba_6079_161a_42c5_09ea_efd0_52bf_5cb7_8c4d_3f94_63ddint, 0x8e_de63_0fcc_2bda_be49_c72b_f142_99cf_9629_65df_89ca_aa2f_ae51int, 0x1int, 0x7_8ddd_3fee_349e_57d0_7b99_18a8_5600_bc95_f6d8_0282_9564_b58cint);
    assert(half_gcd_from(0x96_6c40_4fba_6079_161a_42c5_09ea_efd0_52bf_5cb7_8c4d_3f94_63ddint, 0x8e_de63_0fcc_2bda_be49_c72b_f142_99cf_9629_65df_89ca_aa2f_ae51int, -0x9c_7abd_0d34_cd82int, 0x11f_0ead_cedf_6d2bint, 44) == half_gcd_from(0x8e_de63_0fcc_2bda_be49_c72b_f142_99cf_9629_65df_89ca_aa2f_ae51int, 0x7_8ddd_3fee_349e_57d0_7b99_18a8_5600_bc95_f6d8_0282_9564_b58cint, 0x11f_0ead_cedf_6d2bint, -0x1bb_896a_dc14_3aadint, 43));
    lemma_fundamental_div_mod_converse(0x8e_de63_0fcc_2bda_be49_c72b_f142_99cf_9629_65df_89ca_aa2f_ae51int, 0x7_8ddd_3fee_349e_57d0_7b99_18a8_5600_bc95_f6d8_0282_9564_b58cint, 0x12int, 0x6_e4d4_910c_78b8_91a1_1668_356c_8dc2_539e_0aaf_5c9c_291a_ea79int);
    assert(half_gcd_from(0x8e_de63_0fcc_2bda_be49_c72b_f142_99cf_9629_65df_89ca_aa2f_ae51int, 0x7_8ddd_3fee_349e_57d0_7b99_18a8_5600_bc95_f6d8_0282_9564_b58cint, 0x11f_0ead_cedf_6d2bint, -0x1bb_896a_dc14_3aadint, 43) == half_gcd_from(0x7_8ddd_3fee_349e_57d0_7b99_18a8_5600_bc95_f6d8_0282_9564_b58cint, 0x6_e4d4_910c_78b8_91a1_1668_356c_8dc2_539e_0aaf_5c9c_291a_ea79int, -0x1bb_896a_dc14_3aadint, 0x204e_b831_484b_8d55int, 42));
    lemma_fundamental_div_mod_converse(0x7_8ddd_3fee_349e_57d0_7b99_18a8_5600_bc95_f6d8_0282_9564_b58cint, 0x6_e4d4_910c_78b8_91a1_1668_356c_8dc2_539e_0aaf_5c9c_291a_ea79int, 0x1int, 0xa908_aee1_bbe5_c62f_6530_e33b_c83e_68f7_ec28_a5e6_6c49_cb13int);
    assert(half_gcd_from(0x7_8ddd_3fee_349e_57d0_7b99_18a8_5600_bc95_f6d8_0282_9564_b58cint, 0x6_e4d4_910c_78b8_91a1_1668_356c_8dc2_539e_0aaf_5c9c_291a_ea79int, -0x1bb_896a_dc14_3aadint, 0x204e_b831_484b_8d55int, 42) == half_gcd_from(0x6_e4d4_910c_78b8_91a1_1668_356c_8dc2_539e_0aaf_5c9c_291a_ea79int, 0xa908_aee1_bbe5_c62f_6530_e33b_c83e_68f7_ec28_a5e6_6c49_cb13int, 0x204e_b831_484b_8d55int, -0x220a_419c_245f_c802int, 41));
    lemma_fundamental_div_mod_converse(0x6_e4d4_910c_78b8_91a1_1668_356c_8dc2_539e_0aaf_5c9c_291a_ea79int, 0xa908_aee1_bbe5_c62f_6530_e33b_c83e_68f7_ec28_a5e6_6c49_cb13int, 0xaint, 0x4a7d_bc3b_21be_d3c7_227f_5516_bb52_39ee_d118_e19b_ee38_fbbbint);
    assert(half_gcd_from(0x6_e4d4_910c_78b8_91a1_1668_356c_8dc2_539e_0aaf_5c9c_291a_ea79int, 0xa908_aee1_bbe5_c62f_6530_e33b_c83e_68f7_ec28_a5e6_6c49_cb13int, 0x204e_b831_484b_8d55int, -0x220a_419c_245f_c802int, 41) == half_gcd_from(0xa908_aee1_bbe5_c62f_6530_e33b_c83e_68f7_ec28_a5e6_6c49_cb13int, 0x4a7d_bc3b_21be_d3c7_227f_5516_bb52_39ee_d118_e19b_ee38_fbbbint, -0x220a_419c_245f_c802int, 0x1_74b5_484a_b409_5d69int, 40));
    lemma_fundamental_div_mod_converse(0xa908_aee1_bbe5_c62f_6530_e33b_c83e_68f7_ec28_a5e6_6c49_cb13int, 0x4a7d_bc3b_21be_d3c7_227f_5516_bb52_39ee_d118_e19b_ee38_fbbbint, 0x2int, 0x140d_366b_7868_1ea1_2032_390e_5199_f51a_49f6_e2ae_8fd7_d39dint);
    assert(half_gcd_from(0xa908_aee1_bbe5_c62f_6530_e33b_c83e_68f7_ec28_a5e6_6c49_cb13int, 0x4a7d_bc3b_21be_d3c7_227f_5516_bb52_39ee_d118_e19b_ee38_fbbbint, -0x220a_419c_245f_c802int, 0x1_74b5_484a_b409_5d69int, 40) == half_gcd_from(0x4a7d_bc3b_21be_d3c7_227f_5516_bb52_39ee_d118_e19b_ee38_fbbbint, 0x140d_366b_7868_1ea1_2032_390e_5199_f51a_49f6_e2ae_8fd7_d39dint, 0x1_74b5_484a_b409_5d69int, -0x3_0b74_d231_8c72_82d4int, 39));
    lemma_fundamental_div_mod_converse(0x4a7d_bc3b_21be_d3c7_227f_5516_bb52_39ee_d118_e19b_ee38_fbbbint, 0x140d_366b_7868_1ea1_2032_390e_5199_f51a_49f6_e2ae_8fd7_d39dint, 0x3int, 0xe56_18f8_b886_77e3_c1e8_a9eb_c684_5a9f_f334_3990_3eb1_80e4int);
    assert(half_gcd_from(0x4a7d_bc3b_21be_d3c7_227f_5516_bb52_39ee_d118_e19b_ee38_fbbbint, 0x140d_366b_7868_1ea1_2032_390e_5199_f51a_49f6_e2ae_8fd7_d39dint, 0x1_74b5_484a_b409_5d69int, -0x3_0b74_d231_8c72_82d4int, 39) == half_gcd_from(0x140d_366b_7868_1ea1_2032_390e_5199_f51a_49f6_e2ae_8fd7_d39dint, 0xe56_18f8_b886_77e3_c1e8_a9eb_c684_5a9f_f334_3990_3eb1_80e4int, -0x3_0b74_d231_8c72_82d4int, 0xa_9713_bedf_5960_e5e5int, 38));
    lemma_fundamental_div_mod_converse(0x140d_366b_7868_1ea1_2032_390e_5199_f51a_49f6_e2ae_8fd7_d39dint, 0xe56_18f8_b886_77e3_c1e8_a9eb_c684_5a9f_f334_3990_3eb1_80e4int, 0x1int, 0x5b7_1d72_bfe1_a6bd_5e49_8f22_8b15_9a7a_56c2_a91e_5126_52b9int);
    assert(half_gcd_from(0x140d_366b_7868_1ea1_2032_390e_5199_f51a_49f6_e2ae_8fd7_d39dint, 0xe56_18f8_b886_77e3_c1e8_a9eb_c684_5a9f_f334_3990_3eb1_80e4int, -0x3_0b74_d231_8c72_82d4int, 0xa_9713_bedf_5960_e5e5int, 38) == half_gcd_from(0xe56_18f8_b886_77e3_c1e8_a9eb_c684_5a9f_f334_3990_3eb1_80e4int, 0x5b7_1d72_bfe1_a6bd_5e49_8f22_8b15_9a7a_56c2_a91e_5126_52b9int, 0xa_9713_bedf_5960_e5e5int, -0xd_a288_9110_e5d3_68b9int, 37));
    lemma_fundamental_div_mod_converse(0xe56_18f8_b886_77e3_c1e8_a9eb_c684_5a9f_f334_3990_3eb1_80e4int, 0x5b7_1d72_bfe1_a6bd_5e49_8f22_8b15_9a7a_56c2_a91e_5126_52b9int, 0x2int, 0x2e7_de13_38c3_2a69_0555_8ba6_b059_25ab_45ae_e753_9c64_db72int);
    assert(half_gcd_from(0xe56_18f8_b886_77e3_c1e8_a9eb_c684_5a9f_f334_3990_3eb1_80e4int, 0x5b7_1d72_bfe1_a6bd_5e49_8f22_8b15_9a7a_56c2_a91e_5126_52b9int, 0xa_9713_bedf_5960_e5e5int, -0xd_a288_9110_e5d3_68b9int, 37) == half_gcd_from(0x5b7_1d72_bfe1_a6bd_5e49_8f22_8b15_9a7a_56c2_a91e_5126_52b9int, 0x2e7_de13_38c3_2a69_0555_8ba6_b059_25ab_45ae_e753_9c64_db72int, -0xd_a288_9110_e5d3_68b9int, 0x25_dc24_e101_2507_b757int, 36));
    lemma_fundamental_div_mod_converse(0x5b7_1d72_bfe1_a6bd_5e49_8f22_8b15_9a7a_56c2_a91e_5126_52b9int, 0x2e7_de13_38c3_2a69_0555_8ba6_b059_25ab_45ae_e753_9c64_db72int, 0x1int, 0x2cf_3f5f_871e_7c54_58f4_037b_dabc_74cf_1113_c1ca_b4c1_7747int);
    assert(half_gcd_from(0x5b7_1d72_bfe1_a6bd_5e49_8f22_8b15_9a7a_56c2_a91e_5126_52b9int, 0x2e7_de13_38c3_2a69_0555_8ba6_b059_25ab_45ae_e753_9c64_db72int, -0xd_a288_9110_e5d3_68b9int, 0x25_dc24_e101_2507_b757int, 36) == half_gcd_from(0x2e7_de13_38c3_2a69_0555_8ba6_b059_25ab_45ae_e753_9c64_db72int, 0x2cf_3f5f_871e_7c54_58f4_037b_dabc_74cf_1113_c1ca_b4c1_7747int, 0x25_dc24_e101_2507_b757int, -0x33_7ead_7212_0adb_2010int, 35));
    lemma_fundamental_div_mod_converse(0x2e7_de13_38c3_2a69_0555_8ba6_b059_25ab_45ae_e753_9c64_db72int, 0x2cf_3f5f_871e_7c54_58f4_037b_dabc_74cf_1113_c1ca_b4c1_7747int, 0x1int, 0x18_9eb3_b1a4_ae14_ac61_882a_d59c_b0dc_349b_2588_e7a3_642bint);
    assert(half_gcd_from(0x2e7_de13_38c3_2a69_0555_8ba6_b059_25ab_45ae_e753_9c64_db72int, 0x2cf_3f5f_871e_7c54_58f4_037b_dabc_74cf_1113_c1ca_b4c1_7747int, 0x25_dc24_e101_2507_b757int, -0x33_7ead_7212_0adb_2010int, 35) == half_gcd_from(0x2cf_3f5f_871e_7c54_58f4_037b_dabc_74cf_1113_c1ca_b4c1_7747int, 0x18_9eb3_b1a4_ae14_ac61_882a_d59c_b0dc_349b_2588_e7a3_642bint, -0x33_7ead_7212_0adb_2010int, 0x59_5ad2_5313_2fe2_d767int, 34));
    lemma_fundamental_div_mod_converse(0x2cf_3f5f_871e_7c54_58f4_037b_dabc_74cf_1113_c1ca_b4c1_7747int, 0x18_9eb3_b1a4_ae14_ac61_882a_d59c_b0dc_349b_2588_e7a3_642bint, 0x1dint, 0x5_4504_6776_c3fc_d1e7_96a1_a7fc_6bdd_1b80_8148_773f_1e68int);
    assert(half_gcd_from(0x2cf_3f5f_871e_7c54_58f4_037b_dabc_74cf_1113_c1ca_b4c1_7747int, 0x18_9eb3_b1a4_ae14_ac61_882a_d59c_b0dc_349b_2588_e7a3_642bint, -0x33_7ead_7212_0adb_2010int, 0x59_5ad2_5313_2fe2_d767int, 34) == half_gcd_from(0x18_9eb3_b1a4_ae14_ac61_882a_d59c_b0dc_349b_2588_e7a3_642bint, 0x5_4504_6776_c3fc_d1e7_96a1_a7fc_6bdd_1b80_8148_773f_1e68int, 0x59_5ad2_5313_2fe2_d767int, -0xa52_c880_db3e_778d_86bbint, 33));
    lemma_fundamental_div_mod_converse(0x18_9eb3_b1a4_ae14_ac61_882a_d59c_b0dc_349b_2588_e7a3_642bint, 0x5_4504_6776_c3fc_d1e7_96a1_a7fc_6bdd_1b80_8148_773f_1e68int, 0x4int, 0x3_8aa2_13c9_9e21_64c3_2da4_35ab_0167_c699_2067_0aa6_ea8bint);
    assert(half_gcd_from(0x18_9eb3_b1a4_ae14_ac61_882a_d59c_b0dc_349b_2588_e7a3_642bint, 0x5_4504_6776_c3fc_d1e7_96a1_a7fc_6bdd_1b80_8148_773f_1e68int, 0x59_5ad2_5313_2fe2_d767int, -0xa52_c880_db3e_778d_86bbint, 33) == half_gcd_from(0x5_4504_6776_c3fc_d1e7_96a1_a7fc_6bdd_1b80_8148_773f_1e68int, 0x3_8aa2_13c9_9e21_64c3_2da4_35ab_0167_c699_2067_0aa6_ea8bint, -0xa52_c880_db3e_778d_86bbint, 0x29a4_7cd5_c00d_0e18_f253int, 32));
    lemma_fundamental_div_mod_converse(0x5_4504_6776_c3fc_d1e7_96a1_a7fc_6bdd_1b80_8148_773f_1e68int, 0x3_8aa2_13c9_9e21_64c3_2da4_35ab_0167_c699_2067_0aa6_ea8bint, 0x1int, 0x1_ba62_53ad_25db_6d24_68fd_7251_6a75_54e7_60e1_6c98_33ddint);
    assert(half_gcd_from(0x5_4504_6776_c3fc_d1e7_96a1_a7fc_6bdd_1b80_8148_773f_1e68int, 0x3_8aa2_13c9_9e21_64c3_2da4_35ab_0167_c699_2067_0aa6_ea8bint, -0xa52_c880_db3e_778d_86bbint, 0x29a4_7cd5_c00d_0e18_f253int, 32) == half_gcd_from(0x3_8aa2_13c9_9e21_64c3_2da4_35ab_0167_c699_2067_0aa6_ea8bint, 0x1_ba62_53ad_25db_6d24_68fd_7251_6a75_54e7_60e1_6c98_33ddint, 0x29a4_7cd5_c00d_0e18_f253int, -0x33f7_4556_9b4b_85a6_790eint, 31));
    lemma_fundamental_div_mod_converse(0x3_8aa2_13c9_9e21_64c3_2da4_35ab_0167_c699_2067_0aa6_ea8bint, 0x1_ba62_53ad_25db_6d24_68fd_7251_6a75_54e7_60e1_6c98_33ddint, 0x2int, 0x15dd_6c6f_526a_8a7a_5ba9_5108_2c7d_1cca_5ea4_3176_82d1int);
    assert(half_gcd_from(0x3_8aa2_13c9_9e21_64c3_2da4_35ab_0167_c699_2067_0aa6_ea8bint, 0x1_ba62_53ad_25db_6d24_68fd_7251_6a75_54e7_60e1_6c98_33ddint, 0x29a4_7cd5_c00d_0e18_f253int, -0x33f7_4556_9b4b_85a6_790eint, 31) == half_gcd_from(0x1_ba62_53ad_25db_6d24_68fd_7251_6a75_54e7_60e1_6c98_33ddint, 0x15dd_6c6f_526a_8a7a_5ba9_5108_2c7d_1cca_5ea4_3176_82d1int, -0x33f7_4556_9b4b_85a6_790eint, 0x9193_0782_f6a4_1965_e46fint, 30));
    lemma_fundamental_div_mod_converse(0x1_ba62_53ad_25db_6d24_68fd_7251_6a75_54e7_60e1_6c98_33ddint, 0x15dd_6c6f_526a_8a7a_5ba9_5108_2c7d_1cca_5ea4_3176_82d1int, 0x14int, 0x515_dafa_b588_9b95_3fc3_1dad_f0af_1517_fc0d_8f55_fb89int);
    assert(half_gcd_from(0x1_ba62_53ad_25db_6d24_68fd_7251_6a75_54e7_60e1_6c98_33ddint, 0x15dd_6c6f_526a_8a7a_5ba9_5108_2c7d_1cca_5ea4_3176_82d1int, -0x33f7_4556_9b4b_85a6_790eint, 0x9193_0782_f6a4_1965_e46fint, 30) == half_gcd_from(0x15dd_6c6f_526a_8a7a_5ba9_5108_2c7d_1cca_5ea4_3176_82d1int, 0x515_dafa_b588_9b95_3fc3_1dad_f0af_1517_fc0d_8f55_fb89int, 0x9193_0782_f6a4_1965_e46fint, -0xb_9373_db91_e01d_819c_51baint, 29));
    lemma_fundamental_div_mod_converse(0x15dd_6c6f_526a_8a7a_5ba9_5108_2c7d_1cca_5ea4_3176_82d1int, 0x515_dafa_b588_9b95_3fc3_1dad_f0af_1517_fc0d_8f55_fb89int, 0x4int, 0x186_0084_7c48_1c25_5c9c_da50_69c0_c86a_6e6d_f41e_94adint);
    assert(half_gcd_from(0x15dd_6c6f_526a_8a7a_5ba9_5108_2c7d_1cca_5ea4_3176_82d1int, 0x515_dafa_b588_9b95_3fc3_1dad_f0af_1517_fc0d_8f55_fb89int, 0x9193_0782_f6a4_1965_e46fint, -0xb_9373_db91_e01d_819c_51baint, 29) == half_gcd_from(0x515_dafa_b588_9b95_3fc3_1dad_f0af_1517_fc0d_8f55_fb89int, 0x186_0084_7c48_1c25_5c9c_da50_69c0_c86a_6e6d_f41e_94adint, -0xb_9373_db91_e01d_819c_51baint, 0x2e_df62_75ca_771a_1fd7_2b57int, 28));
    lemma_fundamental_div_mod_converse(0x515_dafa_b588_9b95_3fc3_1dad_f0af_1517_fc0d_8f55_fb89int, 0x186_0084_7c48_1c25_5c9c_da50_69c0_c86a_6e6d_f41e_94adint, 0x3int, 0x83_d96d_40b0_4725_29ec_8ebc_b36c_bbd8_b0c3_b2fa_3d82int);
    assert(half_gcd_from(0x515_dafa_b588_9b95_3fc3_1dad_f0af_1517_fc0d_8f55_fb89int, 0x186_0084_7c48_1c25_5c9c_da50_69c0_c86a_6e6d_f41e_94adint, -0xb_9373_db91_e01d_819c_51baint, 0x2e_df62_75ca_771a_1fd7_2b57int, 28) == half_gcd_from(0x186_0084_7c48_1c25_5c9c_da50_69c0_c86a_6e6d_f41e_94adint, 0x83_d96d_40b0_4725_29ec_8ebc_b36c_bbd8_b0c3_b2fa_3d82int, 0x2e_df62_75ca_771a_1fd7_2b57int, -0x98_319b_3cf1_456b_e121_d3bfint, 27));
    lemma_fundamental_div_mod_converse(0x186_0084_7c48_1c25_5c9c_da50_69c0_c86a_6e6d_f41e_94adint, 0x83_d96d_40b0_4725_29ec_8ebc_b36c_bbd8_b0c3_b2fa_3d82int, 0x2int, 0x7e_4da9_fae7_8ddb_08c3_bcd7_02e7_50b9_0ce6_8e2a_19a9int);
    assert(half_gcd_from(0x186_0084_7c48_1c25_5c9c_da50_69c0_c86a_6e6d_f41e_94adint, 0x83_d96d_40b0_4725_29ec_8ebc_b36c_bbd8_b0c3_b2fa_3d82int, 0x2e_df62_75ca_771a_1fd7_2b57int, -0x98_319b_3cf1_456b_e121_d3bfint, 27) == half_gcd_from(0x83_d96d_40b0_4725_29ec_8ebc_b36c_bbd8_b0c3_b2fa_3d82int, 0x7e_4da9_fae7_8ddb_08c3_bcd7_02e7_50b9_0ce6_8e2a_19a9int, -0x98_319b_3cf1_456b_e121_d3bfint, 0x15f_4298_efad_01f1_e21a_d2d5int, 26));
    lemma_fundamental_div_mod_converse(0x83_d96d_40b0_4725_29ec_8ebc_b36c_bbd8_b0c3_b2fa_3d82int, 0x7e_4da9_fae7_8ddb_08c3_bcd7_02e7_50b9_0ce6_8e2a_19a9int, 0x1int, 0x5_8bc3_45c8_b94a_2128_d1e5_b085_6b1f_a3dd_24d0_23d9int);
    assert(half_gcd_from(0x83_d96d_40b0_4725_29ec_8ebc_b36c_bbd8_b0c3_b2fa_3d82int, 0x7e_4da9_fae7_8ddb_08c3_bcd7_02e7_50b9_0ce6_8e2a_19a9int, -0x98_319b_3cf1_456b_e121_d3bfint, 0x15f_4298_efad_01f1_e21a_d2d5int, 26) == half_gcd_from(0x7e_4da9_fae7_8ddb_08c3_bcd7_02e7_50b9_0ce6_8e2a_19a9int, 0x5_8bc3_45c8_b94a_2128_d1e5_b085_6b1f_a3dd_24d0_23d9int, 0x15f_4298_efad_01f1_e21a_d2d5int, -0x1f7_7434_2c9e_475d_c33c_a694int, 25));
    lemma_fundamental_div_mod_converse(0x7e_4da9_fae7_8ddb_08c3_bcd7_02e7_50b9_0ce6_8e2a_19a9int, 0x5_8bc3_45c8_b94a_2128_d1e5_b085_6b1f_a3dd_24d0_23d9int, 0x16int, 0x4_4ae1_fba7_a17c_2f41_b319_d770_1c00_f7e5_6447_0503int);
    assert(half_gcd_from(0x7e_4da9_fae7_8ddb_08c3_bcd7_02e7_50b9_0ce6_8e2a_19a9int, 0x5_8bc3_45c8_b94a_2128_d1e5_b085_6b1f_a3dd_24d0_23d9int, 0x15f_4298_efad_01f1_e21a_d2d5int, -0x1f7_7434_2c9e_475d_c33c_a694int, 25) == half_gcd_from(0x5_8bc3_45c8_b94a_2128_d1e5_b085_6b1f_a3dd_24d0_23d9int, 0x4_4ae1_fba7_a17c_2f41_b319_d770_1c00_f7e5_6447_0503int, -0x1f7_7434_2c9e_475d_c33c_a694int, 0x2ca3_3f14_c547_2400_a951_238dint, 24));
    lemma_fundamental_div_mod_converse(0x5_8bc3_45c8_b94a_2128_d1e5_b085_6b1f_a3dd_24d0_23d9int, 0x4_4ae1_fba7_a17c_2f41_b319_d770_1c00_f7e5_6447_0503int, 0x1int, 0x1_40e1_4a21_17cd_f1e7_1ecb_d915_4f1e_abf7_c089_1ed6int);
    assert(half_gcd_from(0x5_8bc3_45c8_b94a_2128_d1e5_b085_6b1f_a3dd_24d0_23d9int, 0x4_4ae1_fba7_a17c_2f41_b319_d770_1c00_f7e5_6447_0503int, -0x1f7_7434_2c9e_475d_c33c_a694int, 0x2ca3_3f14_c547_2400_a951_238dint, 24) == half_gcd_from(0x4_4ae1_fba7_a17c_2f41_b319_d770_1c00_f7e5_6447_0503int, 0x1_40e1_4a21_17cd_f1e7_1ecb_d915_4f1e_abf7_c089_1ed6int, 0x2ca3_3f14_c547_2400_a951_238dint, -0x2e9a_b348_f1e5_6b5e_6c8d_ca21int, 23));
    lemma_fundamental_div_mod_converse(0x4_4ae1_fba7_a17c_2f41_b319_d770_1c00_f7e5_6447_0503int, 0x1_40e1_4a21_17cd_f1e7_1ecb_d915_4f1e_abf7_c089_1ed6int, 0x3int, 0x883e_1d44_5a12_598c_56b6_4c30_2ea4_f3fe_22ab_a881int);
    assert(half_gcd_from(0x4_4ae1_fba7_a17c_2f41_b319_d770_1c00_f7e5_6447_0503int, 0x1_40e1_4a21_17cd_f1e7_1ecb_d915_4f1e_abf7_c089_1ed6int, 0x2ca3_3f14_c547_2400_a951_238dint, -0x2e9a_b348_f1e5_6b5e_6c8d_ca21int, 23) == half_gcd_from(0x1_40e1_4a21_17cd_f1e7_1ecb_d915_4f1e_abf7_c089_1ed6int, 0x883e_1d44_5a12_598c_56b6_4c30_2ea4_f3fe_22ab_a881int, -0x2e9a_b348_f1e5_6b5e_6c8d_ca21int, 0xb873_58ef_9af7_661b_eefa_81f0int, 22));
    lemma_fundamental_div_mod_converse(0x1_40e1_4a21_17cd_f1e7_1ecb_d915_4f1e_abf7_c089_1ed6int, 0x883e_1d44_5a12_598c_56b6_4c30_2ea4_f3fe_22ab_a881int, 0x2int, 0x3065_0f98_63a9_3ece_715f_40b4_f1d4_c3fb_7b31_cdd4int);
    assert(half_gcd_from(0x1_40e1_4a21_17cd_f1e7_1ecb_d915_4f1e_abf7_c089_1ed6int, 0x883e_1d44_5a12_598c_56b6_4c30_2ea4_f3fe_22ab_a881int, -0x2e9a_b348_f1e5_6b5e_6c8d_ca21int, 0xb873_58ef_9af7_661b_eefa_81f0int, 22) == half_gcd_from(0x883e_1d44_5a12_598c_56b6_4c30_2ea4_f3fe_22ab_a881int, 0x3065_0f98_63a9_3ece_715f_40b4_f1d4_c3fb_7b31_cdd4int, 0xb873_58ef_9af7_661b_eefa_81f0int, -0x1_9f81_6528_27d4_3796_4a82_ce01int, 21));
    lemma_fundamental_div_mod_converse(0x883e_1d44_5a12_598c_56b6_4c30_2ea4_f3fe_22ab_a881int, 0x3065_0f98_63a9_3ece_715f_40b4_f1d4_c3fb_7b31_cdd4int, 0x2int, 0x2773_fe13_92bf_dbef_73f7_cac6_4afb_6c07_2c48_0cd9int);
    assert(half_gcd_from(0x883e_1d44_5a12_598c_56b6_4c30_2ea4_f3fe_22ab_a881int, 0x3065_0f98_63a9_3ece_715f_40b4_f1d4_c3fb_7b31_cdd4int, 0xb873_58ef_9af7_661b_eefa_81f0int, -0x1_9f81_6528_27d4_3796_4a82_ce01int, 21) == half_gcd_from(0x3065_0f98_63a9_3ece_715f_40b4_f1d4_c3fb_7b31_cdd4int, 0x2773_fe13_92bf_dbef_73f7_cac6_4afb_6c07_2c48_0cd9int, -0x1_9f81_6528_27d4_3796_4a82_ce01int, 0x3_f776_233f_ea9f_d548_8400_1df2int, 20));
    lemma_fundamental_div_mod_converse(0x3065_0f98_63a9_3ece_715f_40b4_f1d4_c3fb_7b31_cdd4int, 0x2773_fe13_92bf_dbef_73f7_cac6_4afb_6c07_2c48_0cd9int, 0x1int, 0x8f1_1184_d0e9_62de_fd67_75ee_a6d9_57f4_4ee9_c0fbint);
    assert(half_gcd_from(0x3065_0f98_63a9_3ece_715f_40b4_f1d4_c3fb_7b31_cdd4int, 0x2773_fe13_92bf_dbef_73f7_cac6_4afb_6c07_2c48_0cd9int, -0x1_9f81_6528_27d4_3796_4a82_ce01int, 0x3_f776_233f_ea9f_d548_8400_1df2int, 20) == half_gcd_from(0x2773_fe13_92bf_dbef_73f7_cac6_4afb_6c07_2c48_0cd9int, 0x8f1_1184_d0e9_62de_fd67_75ee_a6d9_57f4_4ee9_c0fbint, 0x3_f776_233f_ea9f_d548_8400_1df2int, -0x5_96f7_8868_1274_0cde_ce82_ebf3int, 19));
    lemma_fundamental_div_mod_converse(0x2773_fe13_92bf_dbef_73f7_cac6_4afb_6c07_2c48_0cd9int, 0x8f1_1184_d0e9_62de_fd67_75ee_a6d9_57f4_4ee9_c0fbint, 0x4int, 0x3af_b800_4f1a_5073_7e59_f30b_af96_0c35_f0a1_08edint);
    assert(half_gcd_from(0x2773_fe13_92bf_dbef_73f7_cac6_4afb_6c07_2c48_0cd9int, 0x8f1_1184_d0e9_62de_fd67_75ee_a6d9_57f4_4ee9_c0fbint, 0x3_f776_233f_ea9f_d548_8400_1df2int, -0x5_96f7_8868_1274_0cde_ce82_ebf3int, 19) == half_gcd_from(0x8f1_1184_d0e9_62de_fd67_75ee_a6d9_57f4_4ee9_c0fbint, 0x3af_b800_4f1a_5073_7e59_f30b_af96_0c35_f0a1_08edint, -0x5_96f7_8868_1274_0cde_ce82_ebf3int, 0x1a_5354_44e0_3470_08c3_be0b_cdbeint, 18));
    lemma_fundamental_div_mod_converse(0x8f1_1184_d0e9_62de_fd67_75ee_a6d9_57f4_4ee9_c0fbint, 0x3af_b800_4f1a_5073_7e59_f30b_af96_0c35_f0a1_08edint, 0x2int, 0x191_a184_32b4_c1f8_00b3_8fd7_47ad_3f88_6da7_af21int);
    assert(half_gcd_from(0x8f1_1184_d0e9_62de_fd67_75ee_a6d9_57f4_4ee9_c0fbint, 0x3af_b800_4f1a_5073_7e59_f30b_af96_0c35_f0a1_08edint, -0x5_96f7_8868_1274_0cde_ce82_ebf3int, 0x1a_5354_44e0_3470_08c3_be0b_cdbeint, 18) == half_gcd_from(0x3af_b800_4f1a_5073_7e59_f30b_af96_0c35_f0a1_08edint, 0x191_a184_32b4_c1f8_00b3_8fd7_47ad_3f88_6da7_af21int, 0x1a_5354_44e0_3470_08c3_be0b_cdbeint, -0x3a_3da0_1228_7b54_1e66_4a9a_876fint, 17));
    lemma_fundamental_div_mod_converse(0x3af_b800_4f1a_5073_7e59_f30b_af96_0c35_f0a1_08edint, 0x191_a184_32b4_c1f8_00b3_8fd7_47ad_3f88_6da7_af21int, 0x2int, 0x8c_74f7_e9b0_cc83_7cf2_d35d_203b_8d25_1551_aaabint);
    assert(half_gcd_from(0x3af_b800_4f1a_5073_7e59_f30b_af96_0c35_f0a1_08edint, 0x191_a184_32b4_c1f8_00b3_8fd7_47ad_3f88_6da7_af21int, 0x1a_5354_44e0_3470_08c3_be0b_cdbeint, -0x3a_3da0_1228_7b54_1e66_4a9a_876fint, 17) == half_gcd_from(0x191_a184_32b4_c1f8_00b3_8fd7_47ad_3f88_6da7_af21int, 0x8c_74f7_e9b0_cc83_7cf2_d35d_203b_8d25_1551_aaabint, -0x3a_3da0_1228_7b54_1e66_4a9a_876fint, 0x8e_ce94_6931_2b18_4590_5340_dc9cint, 16));
    lemma_fundamental_div_mod_converse(0x191_a184_32b4_c1f8_00b3_8fd7_47ad_3f88_6da7_af21int, 0x8c_74f7_e9b0_cc83_7cf2_d35d_203b_8d25_1551_aaabint, 0x2int, 0x78_b794_5f53_28f1_06cd_e91d_0736_253e_4304_59cbint);
    assert(half_gcd_from(0x191_a184_32b4_c1f8_00b3_8fd7_47ad_3f88_6da7_af21int, 0x8c_74f7_e9b0_cc83_7cf2_d35d_203b_8d25_1551_aaabint, -0x3a_3da0_1228_7b54_1e66_4a9a_876fint, 0x8e_ce94_6931_2b18_4590_5340_dc9cint, 16) == half_gcd_from(0x8c_74f7_e9b0_cc83_7cf2_d35d_203b_8d25_1551_aaabint, 0x78_b794_5f53_28f1_06cd_e91d_0736_253e_4304_59cbint, 0x8e_ce94_6931_2b18_4590_5340_dc9cint, -0x157_dac8_e48a_d184_a986_f11c_40a7int, 15));
    lemma_fundamental_div_mod_converse(0x8c_74f7_e9b0_cc83_7cf2_d35d_203b_8d25_1551_aaabint, 0x78_b794_5f53_28f1_06cd_e91d_0736_253e_4304_59cbint, 0x1int, 0x13_bd63_8a5d_a392_7624_ea40_1905_67e6_d24d_50e0int);
    assert(half_gcd_from(0x8c_74f7_e9b0_cc83_7cf2_d35d_203b_8d25_1551_aaabint, 0x78_b794_5f53_28f1_06cd_e91d_0736_253e_4304_59cbint, 0x8e_ce94_6931_2b18_4590_5340_dc9cint, -0x157_dac8_e48a_d184_a986_f11c_40a7int, 15) == half_gcd_from(0x78_b794_5f53_28f1_06cd_e91d_0736_253e_4304_59cbint, 0x13_bd63_8a5d_a392_7624_ea40_1905_67e6_d24d_50e0int, -0x157_dac8_e48a_d184_a986_f11c_40a7int, 0x1e6_a95d_4dbb_fc9c_ef17_445d_1d43int, 14));
    lemma_fundamental_div_mod_converse(0x78_b794_5f53_28f1_06cd_e91d_0736_253e_4304_59cbint, 0x13_bd63_8a5d_a392_7624_ea40_1905_67e6_d24d_50e0int, 0x6int, 0x2_473f_2121_5382_41f0_6b9c_7115_b5d5_5534_748bint);
    assert(half_gcd_from(0x78_b794_5f53_28f1_06cd_e91d_0736_253e_4304_59cbint, 0x13_bd63_8a5d_a392_7624_ea40_1905_67e6_d24d_50e0int, -0x157_dac8_e48a_d184_a986_f11c_40a7int, 0x1e6_a95d_4dbb_fc9c_ef17_445d_1d43int, 14) == half_gcd_from(0x13_bd63_8a5d_a392_7624_ea40_1905_67e6_d24d_50e0int, 0x2_473f_2121_5382_41f0_6b9c_7115_b5d5_5534_748bint, 0x1e6_a95d_4dbb_fc9c_ef17_445d_1d43int, -0xcbf_d2f8_b6f2_bd32_4412_8b4a_f039int, 13));
    lemma_fundamental_div_mod_converse(0x13_bd63_8a5d_a392_7624_ea40_1905_67e6_d24d_50e0int, 0x2_473f_2121_5382_41f0_6b9c_7115_b5d5_5534_748bint, 0x8int, 0x1_836a_8153_0780_66a1_8d5c_9057_b93c_28a9_ac88int);
    assert(half_gcd_from(0x13_bd63_8a5d_a392_7624_ea40_1905_67e6_d24d_50e0int, 0x2_473f_2121_5382_41f0_6b9c_7115_b5d5_5534_748bint, 0x1e6_a95d_4dbb_fc9c_ef17_445d_1d43int, -0xcbf_d2f8_b6f2_bd32_4412_8b4a_f039int, 13) == half_gcd_from(0x2_473f_2121_5382_41f0_6b9c_7115_b5d5_5534_748bint, 0x1_836a_8153_0780_66a1_8d5c_9057_b93c_28a9_ac88int, -0xcbf_d2f8_b6f2_bd32_4412_8b4a_f039int, 0x67e5_4123_0551_e62f_0fab_9eb4_9f0bint, 12));
    lemma_fundamental_div_mod_converse(0x2_473f_2121_5382_41f0_6b9c_7115_b5d5_5534_748bint, 0x1_836a_8153_0780_66a1_8d5c_9057_b93c_28a9_ac88int, 0x1int, 0xc3d4_9fce_4c01_db4e_de3f_e0bd_fc99_2c8a_c803int);
    assert(half_gcd_from(0x2_473f_2121_5382_41f0_6b9c_7115_b5d5_5534_748bint, 0x1_836a_8153_0780_66a1_8d5c_9057_b93c_28a9_ac88int, -0xcbf_d2f8_b6f2_bd32_4412_8b4a_f039int, 0x67e5_4123_0551_e62f_0fab_9eb4_9f0bint, 12) == half_gcd_from(0x1_836a_8153_0780_66a1_8d5c_9057_b93c_28a9_ac88int, 0xc3d4_9fce_4c01_db4e_de3f_e0bd_fc99_2c8a_c803int, 0x67e5_4123_0551_e62f_0fab_9eb4_9f0bint, -0x74a5_141b_bc44_a361_53be_29ff_8f44int, 11));
    lemma_fundamental_div_mod_converse(0x1_836a_8153_0780_66a1_8d5c_9057_b93c_28a9_ac88int, 0xc3d4_9fce_4c01_db4e_de3f_e0bd_fc99_2c8a_c803int, 0x1int, 0xbf95_e184_bb7e_8b52_af1c_af99_bca2_fc1e_e485int);
    assert(half_gcd_from(0x1_836a_8153_0780_66a1_8d5c_9057_b93c_28a9_ac88int, 0xc3d4_9fce_4c01_db4e_de3f_e0bd_fc99_2c8a_c803int, 0x67e5_4123_0551_e62f_0fab_9eb4_9f0bint, -0x74a5_141b_bc44_a361_53be_29ff_8f44int, 11) == half_gcd_from(0xc3d4_9fce_4c01_db4e_de3f_e0bd_fc99_2c8a_c803int, 0xbf95_e184_bb7e_8b52_af1c_af99_bca2_fc1e_e485int, -0x74a5_141b_bc44_a361_53be_29ff_8f44int, 0xdc8a_553e_c196_8990_6369_c8b4_2e4fint, 10));
    lemma_fundamental_div_mod_converse(0xc3d4_9fce_4c01_db4e_de3f_e0bd_fc99_2c8a_c803int, 0xbf95_e184_bb7e_8b52_af1c_af99_bca2_fc1e_e485int, 0x1int, 0x43e_be49_9083_4ffc_2f23_3124_3ff6_306b_e37eint);
    assert(half_gcd_from(0xc3d4_9fce_4c01_db4e_de3f_e0bd_fc99_2c8a_c803int, 0xbf95_e184_bb7e_8b52_af1c_af99_bca2_fc1e_e485int, -0x74a5_141b_bc44_a361_53be_29ff_8f44int, 0xdc8a_553e_c196_8990_6369_c8b4_2e4fint, 10) == half_gcd_from(0xbf95_e184_bb7e_8b52_af1c_af99_bca2_fc1e_e485int, 0x43e_be49_9083_4ffc_2f23_3124_3ff6_306b_e37eint, 0xdc8a_553e_c196_8990_6369_c8b4_2e4fint, -0x1_512f_695a_7ddb_2cf1_b727_f2b3_bd93int, 9));
    lemma_fundamental_div_mod_converse(0xbf95_e184_bb7e_8b52_af1c_af99_bca2_fc1e_e485int, 0x43e_be49_9083_4ffc_2f23_3124_3ff6_306b_e37eint, 0x2dint, 0x8e_6e96_5469_7bfe_65ed_0c3a_7e5c_7927_e75fint);
    assert(half_gcd_from(0xbf95_e184_bb7e_8b52_af1c_af99_bca2_fc1e_e485int, 0x43e_be49_9083_4ffc_2f23_3124_3ff6_306b_e37eint, 0xdc8a_553e_c196_8990_6369_c8b4_2e4fint, -0x1_512f_695a_7ddb_2cf1_b727_f2b3_bd93int, 9) == half_gcd_from(0x43e_be49_9083_4ffc_2f23_3124_3ff6_306b_e37eint, 0x8e_6e96_5469_7bfe_65ed_0c3a_7e5c_7927_e75fint, -0x1_512f_695a_7ddb_2cf1_b727_f2b3_bd93int, 0x3c_21df_da26_e11d_700d_956f_724c_8126int, 8));
    lemma_fundamental_div_mod_converse(0x43e_be49_9083_4ffc_2f23_3124_3ff6_306b_e37eint, 0x8e_6e96_5469_7bfe_65ed_0c3a_7e5c_7927_e75fint, 0x7int, 0x59_b82d_41a0_ec07_65a7_db8a_cb6e_e054_8fe5int);
    assert(half_gcd_from(0x43e_be49_9083_4ffc_2f23_3124_3ff6_306b_e37eint, 0x8e_6e96_5469_7bfe_65ed_0c3a_7e5c_7927_e75fint, -0x1_512f_695a_7ddb_2cf1_b727_f2b3_bd93int, 0x3c_21df_da26_e11d_700d_956f_724c_8126int, 8) == half_gcd_from(0x8e_6e96_5469_7bfe_65ed_0c3a_7e5c_7927_e75fint, 0x59_b82d_41a0_ec07_65a7_db8a_cb6e_e054_8fe5int, 0x3c_21df_da26_e11d_700d_956f_724c_8126int, -0x1a6_3e4e_606a_a5a9_3d50_cd34_12cb_459dint, 7));
    lemma_fundamental_div_mod_converse(0x8e_6e96_5469_7bfe_65ed_0c3a_7e5c_7927_e75fint, 0x59_b82d_41a0_ec07_65a7_db8a_cb6e_e054_8fe5int, 0x1int, 0x34_b669_12c8_8ff7_0045_30af_b2ed_98d3_577aint);
    assert(half_gcd_from(0x8e_6e96_5469_7bfe_65ed_0c3a_7e5c_7927_e75fint, 0x59_b82d_41a0_ec07_65a7_db8a_cb6e_e054_8fe5int, 0x3c_21df_da26_e11d_700d_956f_724c_8126int, -0x1a6_3e4e_606a_a5a9_3d50_cd34_12cb_459dint, 7) == half_gcd_from(0x59_b82d_41a0_ec07_65a7_db8a_cb6e_e054_8fe5int, 0x34_b669_12c8_8ff7_0045_30af_b2ed_98d3_577aint, -0x1a6_3e4e_606a_a5a9_3d50_cd34_12cb_459dint, 0x1e2_602e_3a91_86c6_ad5e_62a3_8517_c6c3int, 6));
    lemma_fundamental_div_mod_converse(0x59_b82d_41a0_ec07_65a7_db8a_cb6e_e054_8fe5int, 0x34_b669_12c8_8ff7_0045_30af_b2ed_98d3_577aint, 0x1int, 0x25_01c4_2ed8_5c10_6562_aadb_1881_4781_386bint);
    assert(half_gcd_from(0x59_b82d_41a0_ec07_65a7_db8a_cb6e_e054_8fe5int, 0x34_b669_12c8_8ff7_0045_30af_b2ed_98d3_577aint, -0x1a6_3e4e_606a_a5a9_3d50_cd34_12cb_459dint, 0x1e2_602e_3a91_86c6_ad5e_62a3_8517_c6c3int, 6) == half_gcd_from(0x34_b669_12c8_8ff7_0045_30af_b2ed_98d3_577aint, 0x25_01c4_2ed8_5c10_6562_aadb_1881_4781_386bint, 0x1e2_602e_3a91_86c6_ad5e_62a3_8517_c6c3int, -0x388_9e7c_9afc_2c6f_eaaf_2fd7_97e3_0c60int, 5));
    lemma_fundamental_div_mod_converse(0x34_b669_12c8_8ff7_0045_30af_b2ed_98d3_577aint, 0x25_01c4_2ed8_5c10_6562_aadb_1881_4781_386bint, 0x1int, 0xf_b4a4_e3f0_33e6_9ae2_85d4_9a6c_5152_1f0fint);
    assert(half_gcd_from(0x34_b669_12c8_8ff7_0045_30af_b2ed_98d3_577aint, 0x25_01c4_2ed8_5c10_6562_aadb_1881_4781_386bint, 0x1e2_602e_3a91_86c6_ad5e_62a3_8517_c6c3int, -0x388_9e7c_9afc_2c6f_eaaf_2fd7_97e3_0c60int, 5) == half_gcd_from(0x25_01c4_2ed8_5c10_6562_aadb_1881_4781_386bint, 0xf_b4a4_e3f0_33e6_9ae2_85d4_9a6c_5152_1f0fint, -0x388_9e7c_9afc_2c6f_eaaf_2fd7_97e3_0c60int, 0x56a_feaa_d58d_b336_980d_927b_1cfa_d323int, 4));
    lemma_fundamental_div_mod_converse(0x25_01c4_2ed8_5c10_6562_aadb_1881_4781_386bint, 0xf_b4a4_e3f0_33e6_9ae2_85d4_9a6c_5152_1f0fint, 0x2int, 0x5_987a_66f7_f443_2f9d_9f31_e3a8_a4dc_fa4dint);
    assert(half_gcd_from(0x25_01c4_2ed8_5c10_6562_aadb_1881_4781_386bint, 0xf_b4a4_e3f0_33e6_9ae2_85d4_9a6c_5152_1f0fint, -0x388_9e7c_9afc_2c6f_eaaf_2fd7_97e3_0c60int, 0x56a_feaa_d58d_b336_980d_927b_1cfa_d323int, 4) == half_gcd_from(0xf_b4a4_e3f0_33e6_9ae2_85d4_9a6c_5152_1f0fint, 0x5_987a_66f7_f443_2f9d_9f31_e3a8_a4dc_fa4dint, 0x56a_feaa_d58d_b336_980d_927b_1cfa_d323int, -0xe5e_9bd2_4617_92dd_1aca_54cd_d1d8_b2a6int, 3));
    lemma_fundamental_div_mod_converse(0xf_b4a4_e3f0_33e6_9ae2_85d4_9a6c_5152_1f0fint, 0x5_987a_66f7_f443_2f9d_9f31_e3a8_a4dc_fa4dint, 0x2int, 0x4_83b0_1600_4b60_3ba7_4770_d31b_0798_2a75int);
    assert(half_gcd_from(0xf_b4a4_e3f0_33e6_9ae2_85d4_9a6c_5152_1f0fint, 0x5_987a_66f7_f443_2f9d_9f31_e3a8_a4dc_fa4dint, 0x56a_feaa_d58d_b336_980d_927b_1cfa_d323int, -0xe5e_9bd2_4617_92dd_1aca_54cd_d1d8_b2a6int, 3) == half_gcd_from(0x5_987a_66f7_f443_2f9d_9f31_e3a8_a4dc_fa4dint, 0x4_83b0_1600_4b60_3ba7_4770_d31b_0798_2a75int, -0xe5e_9bd2_4617_92dd_1aca_54cd_d1d8_b2a6int, 0x2228_364f_61bc_d8f0_cda2_3c16_c0ac_386fint, 2));
    lemma_fundamental_div_mod_converse(0x5_987a_66f7_f443_2f9d_9f31_e3a8_a4dc_fa4dint, 0x4_83b0_1600_4b60_3ba7_4770_d31b_0798_2a75int, 0x1int, 0x1_14ca_50f7_a8e2_f3f6_57c1_108d_9d44_cfd8int);
    assert(half_gcd_from(0x5_987a_66f7_f443_2f9d_9f31_e3a8_a4dc_fa4dint, 0x4_83b0_1600_4b60_3ba7_4770_d31b_0798_2a75int, -0xe5e_9bd2_4617_92dd_1aca_54cd_d1d8_b2a6int, 0x2228_364f_61bc_d8f0_cda2_3c16_c0ac_386fint, 2) == half_gcd_from(0x4_83b0_1600_4b60_3ba7_4770_d31b_0798_2a75int, 0x1_14ca_50f7_a8e2_f3f6_57c1_108d_9d44_cfd8int, 0x2228_364f_61bc_d8f0_cda2_3c16_c0ac_386fint, -0x3086_d221_a7d4_6bcd_e86c_90e4_9284_eb15int, 1));
    lemma_fundamental_div_mod_converse(0x4_83b0_1600_4b60_3ba7_4770_d31b_0798_2a75int, 0x1_14ca_50f7_a8e2_f3f6_57c1_108d_9d44_cfd8int, 0x4int, 0x3086_d221_a7d4_6bcd_e86c_90e4_9284_eb15int);
    assert(half_gcd_from(0x4_83b0_1600_4b60_3ba7_4770_d31b_0798_2a75int, 0x1_14ca_50f7_a8e2_f3f6_57c1_108d_9d44_cfd8int, 0x2228_364f_61bc_d8f0_cda2_3c16_c0ac_386fint, -0x3086_d221_a7d4_6bcd_e86c_90e4_9284_eb15int, 1) == half_gcd_from(0x1_14ca_50f7_a8e2_f3f6_57c1_108d_9d44_cfd8int, 0x3086_d221_a7d4_6bcd_e86c_90e4_9284_eb15int, -0x3086_d221_a7d4_6bcd_e86c_90e4_9284_eb15int, 0xe443_7ed6_010e_8828_6f54_7fa9_0abf_e4c3int, 0));
}

/// The basis vectors are lattice vectors (`a + b·λ ≡ 0 (mod n)`, witnessed by their quotients),
/// their determinant is `n`, and they are short.
pub proof fn lemma_basis_facts()
    ensures
        glv_a1() + lambda_val() * glv_b1() == -0x4a5a_c2bf_7b5f_37f9_f1db_10d7_a2a9_c981int * n_val(),
        glv_a2() + lambda_val() * glv_b2() == 0xfce_9b1d_d4eb_7dd2_718a_2906_7870_61b2int * n_val(),
        glv_a1() * glv_b2() - glv_a2() * glv_b1() == n_val(),
        0 < glv_a1() && 0 < glv_a2() && glv_b1() < 0 && 0 < glv_b2(),
        glv_a1() + glv_a2() < 0x2_0000_0000_0000_0000_0000_0000_0000_0000int,
        glv_b2() - glv_b1() < 0x2_0000_0000_0000_0000_0000_0000_0000_0000int,
{
}

} // verus!
