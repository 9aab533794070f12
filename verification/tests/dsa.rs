use miden_crypto::dsa::ecdsa_k256_keccak::SigningKey;
use miden_crypto::dsa::falcon512_poseidon2::SecretKey;
use miden_crypto::hash::keccak::Keccak256;
use miden_crypto::{Felt, SequentialCommit, Word};
use miden_helpers::dsa::{ecdsa_k256_keccak, falcon512_poseidon2};
use miden_helpers::glv::{
    glv_decompose, reduce_mod_n, scalar_inv_mod_n, scalar_mul_mod_n, SECP256K1_LAMBDA, SECP256K1_N,
};
use miden_helpers::wide::Limbs;
use ruint::aliases::U512;

fn word(values: [u32; 4]) -> Word {
    Word::new(values.map(Felt::from_u32))
}

#[test]
fn be_bytes_to_le_limbs_reads_big_endian_limbs() {
    let mut bytes = [0u8; 32];
    for (i, b) in bytes.iter_mut().enumerate() {
        *b = i as u8;
    }
    let limbs = ecdsa_k256_keccak::be_bytes_to_le_limbs(&bytes);
    assert_eq!(limbs[0], 0x1c1d1e1f);
    assert_eq!(limbs[7], 0x00010203);
    assert_eq!(limbs[3], 0x10111213);
}

#[test]
fn z_from_message_is_the_reduced_keccak_prehash() {
    let msg = [1u64, 2, 3, 0xffff_ffff_0000_0000];
    let mut preimage = Vec::new();
    for v in msg {
        preimage.extend_from_slice(&v.to_le_bytes());
    }
    let digest: [u8; 32] = Keccak256::hash(&preimage).into();
    let expected = reduce_mod_n(ecdsa_k256_keccak::be_bytes_to_le_limbs(&digest));
    assert_eq!(ecdsa_k256_keccak::z_from_message(msg), expected);
    assert_ne!(ecdsa_k256_keccak::z_from_message(msg), ecdsa_k256_keccak::z_from_message([1, 2, 3, 4]));
}

fn to_u512(limbs: Limbs) -> U512 {
    let mut words = [0u64; 8];
    for i in 0..4 {
        words[i] = (limbs[2 * i] as u64) | ((limbs[2 * i + 1] as u64) << 32);
    }
    U512::from_limbs(words)
}

/// Reads a nine-element GLV half back as a value modulo `n`: eight limbs, then a sign element.
fn decode_half_mod_n(half: &[u64]) -> U512 {
    assert_eq!(half.len(), 9);
    assert!(half[8] == 0 || half[8] == 1);
    let mut limbs: Limbs = [0; 8];
    for i in 0..8 {
        assert!(half[i] <= u32::MAX as u64);
        limbs[i] = half[i] as u32;
    }
    let n = to_u512(SECP256K1_N);
    let m = to_u512(limbs) % n;
    if half[8] == 1 && m != U512::ZERO {
        n - m
    } else {
        m
    }
}

#[test]
fn advice_halves_recompose_to_the_verifier_scalars() {
    let sk = SigningKey::new();
    let pk = sk.public_key();
    let msg = word([11, 22, 33, 44]);
    let sig = sk.sign(msg);
    let encoded = ecdsa_k256_keccak::encode_signature(&pk, &sig, &msg).unwrap();
    let n = to_u512(SECP256K1_N);
    let lambda = to_u512(SECP256K1_LAMBDA);
    let r = ecdsa_k256_keccak::be_bytes_to_le_limbs(sig.r());
    let s = ecdsa_k256_keccak::be_bytes_to_le_limbs(sig.s());
    let s_inv = scalar_inv_mod_n(s);
    let z = ecdsa_k256_keccak::z_from_message(msg.into());
    let u1 = to_u512(scalar_mul_mod_n(z, s_inv));
    let u2 = to_u512(scalar_mul_mod_n(r, s_inv));
    let recombine = |at: usize| {
        let a = decode_half_mod_n(&encoded[at..at + 9]);
        let b = decode_half_mod_n(&encoded[at + 9..at + 18]);
        (a + (lambda * b) % n) % n
    };
    assert_eq!(recombine(32), u1);
    assert_eq!(recombine(50), u2);
    assert_eq!(&encoded[68..], &[0, 0, 0, 0]);
}

#[test]
fn encode_signature_parts_lays_out_the_advice() {
    let pk: Vec<u64> = (0..16).collect();
    let mut r = [0u8; 32];
    r[31] = 5;
    let mut s = [0u8; 32];
    s[31] = 1;
    let msg = [9u64, 8, 7, 6];
    let out = ecdsa_k256_keccak::encode_signature_parts(&pk, &r, &s, msg).unwrap();
    assert_eq!(out.len(), 72);
    assert_eq!(&out[..16], &pk[..]);
    assert_eq!(&out[16..24], &[5, 0, 0, 0, 0, 0, 0, 0]);
    assert_eq!(&out[24..32], &[1, 0, 0, 0, 0, 0, 0, 0]);
    // s = 1, so u1 = z and u2 = r.
    let z = ecdsa_k256_keccak::z_from_message(msg);
    let mut expected = Vec::new();
    for k in [glv_decompose(z), glv_decompose([5, 0, 0, 0, 0, 0, 0, 0])] {
        for (neg, mag) in k {
            expected.extend(mag.iter().map(|&l| l as u64));
            expected.push(neg as u64);
        }
    }
    expected.extend([0, 0, 0, 0]);
    assert_eq!(&out[32..], &expected[..]);
}

#[test]
fn ecdsa_sign_matches_encode_signature() {
    let sk = SigningKey::new();
    let pk = sk.public_key();
    let msg = word([1, 2, 3, 4]);
    let sig = sk.sign(msg);
    let encoded = ecdsa_k256_keccak::encode_signature(&pk, &sig, &msg).unwrap();
    assert_eq!(ecdsa_k256_keccak::sign(&sk, &msg), encoded);
    assert_eq!(encoded.len(), 72);
    let pk_elements: Vec<u64> = pk.to_elements().iter().map(|e| e.as_canonical_u64()).collect();
    assert_eq!(&encoded[..16], &pk_elements[..]);
    let r = ecdsa_k256_keccak::be_bytes_to_le_limbs(sig.r());
    let s = ecdsa_k256_keccak::be_bytes_to_le_limbs(sig.s());
    assert_eq!(&encoded[16..24], &r.map(|l| l as u64)[..]);
    assert_eq!(&encoded[24..32], &s.map(|l| l as u64)[..]);
    let s_inv = scalar_inv_mod_n(s);
    let z = ecdsa_k256_keccak::z_from_message(msg.into());
    let u1 = glv_decompose(scalar_mul_mod_n(z, s_inv));
    assert_eq!(&encoded[32..40], &u1[0].1.map(|l| l as u64)[..]);
    assert_eq!(&encoded[68..], &[0, 0, 0, 0]);
    assert_eq!(ecdsa_k256_keccak::public_key_commitment(&pk), pk.to_commitment());
}

#[test]
fn falcon_sign_matches_encode_signature() {
    let sk = SecretKey::new();
    let msg = word([5, 6, 7, 8]);
    let sig = sk.sign(msg);
    let encoded = falcon512_poseidon2::sign(&sk, &msg).unwrap();
    assert_eq!(encoded, falcon512_poseidon2::encode_signature(sig.public_key(), &sig));
    let nonce: Vec<u64> = sig.nonce().to_elements().iter().map(|e| e.as_canonical_u64()).collect();
    assert_eq!(&encoded[encoded.len() - 8..], &nonce[..]);
    // Challenge, public key, s2, their product, nonce.
    assert_eq!(encoded.len(), 2 + 512 + 512 + 1024 + 8);
    let p = 0xffff_ffff_0000_0001u64;
    assert!(encoded[1026..2050].iter().all(|&c| c < p));
}

#[test]
fn falcon_encode_signature_parts_prefixes_the_challenge() {
    let pk = vec![1u64, 2];
    let s2 = vec![3u64];
    let product = vec![4u64, 5];
    let nonce = [10u64, 11, 12, 13, 14, 15, 16, 17];
    let out = falcon512_poseidon2::encode_signature_parts(&pk, &s2, &product, nonce);
    let felts: Vec<Felt> = [1u64, 2, 3, 4, 5].iter().map(|&v| Felt::new_unchecked(v)).collect();
    let digest = miden_crypto::hash::poseidon2::Poseidon2::hash_elements(&felts);
    assert_eq!(out[0], digest[1].as_canonical_u64());
    assert_eq!(out[1], digest[0].as_canonical_u64());
    assert_eq!(&out[2..7], &[1, 2, 3, 4, 5]);
    assert_eq!(&out[7..], &nonce[..]);
}

#[test]
fn encode_signature_parts_refuses_an_unusable_s() {
    let pk: Vec<u64> = vec![0; 16];
    let r = [1u8; 32];
    assert_eq!(ecdsa_k256_keccak::encode_signature_parts(&pk, &r, &[0u8; 32], [0; 4]), None);
    // n itself, big-endian.
    let n_be: [u8; 32] = [
        0xff, 0xff, 0xff, 0xff, 0xff, 0xff, 0xff, 0xff, 0xff, 0xff, 0xff, 0xff, 0xff, 0xff, 0xff, 0xfe,
        0xba, 0xae, 0xdc, 0xe6, 0xaf, 0x48, 0xa0, 0x3b, 0xbf, 0xd2, 0x5e, 0x8c, 0xd0, 0x36, 0x41, 0x41,
    ];
    assert_eq!(ecdsa_k256_keccak::encode_signature_parts(&pk, &r, &n_be, [0; 4]), None);
    let mut n_minus_one = n_be;
    n_minus_one[31] -= 1;
    assert!(ecdsa_k256_keccak::encode_signature_parts(&pk, &r, &n_minus_one, [0; 4]).is_some());
}
