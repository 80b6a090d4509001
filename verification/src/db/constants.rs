//! Fixed parameters of the stores.

use vstd::prelude::*;

verus! {

/// Name of the collection of signing entries.
pub const SIG_COLLECTION: &'static str = "signatures";

/// Name of the collection that maps identifiers to signing entries.
pub const SIG_ID_COLLECTION: &'static str = "sig_ids";

/// Advisory lifetime of a signing entry, in seconds.
pub const SIG_TTL: u32 = 3600;

/// Name of the collection of content keys.
pub const SECRET_COLLECTION: &'static str = "secrets";

/// Iteration count of the key derivation.
pub const PBKDF2_ITERATIONS: u32 = 100_000;

/// Length of the fixed part of every salt.
pub const SALT_BASE_LEN: usize = 16;

/// Fixed part of every salt, drawn once from a secure generator.
pub const SALT_BASE: [u8; 16] = [
    0xd6, 0x26, 0x98, 0xda, 0xf4, 0xdc, 0x50, 0x52, 0x24, 0xf2, 0x27, 0xd1, 0xfe, 0x39, 0x01, 0x8a,
];

} // verus!
