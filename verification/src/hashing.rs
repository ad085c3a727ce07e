//! Storage-key hashing: stable XXH32 digests of path strings, used to derive
//! unique storage keys for contract data structs.

use vstd::prelude::*;

verus! {

/// The XXH32 digest of a string under a seed; it depends on the characters
/// and the seed alone.
pub uninterp spec fn xxh32_of(s: Seq<char>, seed: u32) -> u32;

/// Relies on xxhash's `const_xxh32::xxh32`: the digest of the string's UTF-8
/// bytes, a pure function of string and seed.
#[verifier::external_body]
fn xxh32_str(s: &str, seed: u32) -> (r: u32)
    ensures
        r == xxh32_of(s@, seed),
{
    xxhash_rust::const_xxh32::xxh32(s.as_bytes(), seed)
}

/// The seed every storage key uses; zero is a valid XXH32 seed.
const XXH32_SEED: u32 = 0;

/// Hashes path strings to storage keys.
pub struct ConstHasher;

impl ConstHasher {
    /// The storage-key hash of a path string.
    pub fn hash(string: &str) -> (r: u32)
        ensures
            r == xxh32_of(string@, 0),
    {
        xxh32_str(string, XXH32_SEED)
    }
}

} // verus!
