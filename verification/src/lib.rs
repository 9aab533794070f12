//! Verified helpers of the Miden toolchain: secp256k1 scalar arithmetic and GLV decomposition,
//! signature advice encoding, and source-level debug information tables.

pub mod wide;
pub mod glv;
pub mod glv_basis;
pub mod prime_field;
pub mod debug_info;
pub mod debug_builder;
pub mod debug_merge;
pub mod debug_types;
pub mod dsa;
