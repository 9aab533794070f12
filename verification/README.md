# miden_helpers

Verified helpers of the Miden toolchain, written in Verus.

- `wide`, `glv_basis`, `glv`: secp256k1 scalar arithmetic modulo the group order `n`
  (reduction, multiplication, inversion by `a^(n-2)`) and the GLV decomposition of a scalar
  into two short signed halves, proved to recompose to the scalar modulo `n` and to stay below
  `2^128` in magnitude.
- `prime_field`: Euclid's lemma and Fermat's little theorem, from which `a^(p-2) mod p` is the
  inverse of a nonzero residue modulo a prime `p`; `glv` applies it to `n`, whose primality is
  taken as a premise of that law rather than proved here.
- `dsa`: the advice encodings that the ECDSA (secp256k1/Keccak256) and Falcon-512 (Poseidon2)
  verifiers consume, built from `miden-crypto` keys and signatures.
- `debug_types`, `debug_info`, `debug_builder`, `debug_merge`: source-level debug information
  (string, file, location, type and function tables and the graph of source nodes), its lookups,
  a builder, and the merge of the debug information of several MAST forests after a forest merge.

`src/` is the verified library; `app/` holds what depends on the file system or on derives of
outside crates (error messages, serde forms, source-path trimming); `tests/` runs the library.
