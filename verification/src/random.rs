//! A seeded deterministic random generator: the same seed gives the same
//! number on every replica, as the ledger's randomness contract demands.
//! Numbers are drawn from the digest of a domain tag and the seed, and the
//! ranged draw retries a bounded number of times to remove the modulus
//! bias.

use vstd::prelude::*;
use crate::hashing::{blake2b_of, hash_message, u64_le_bytes};
use crate::support::RandomNumber;

verus! {

/// Domain tag mixed into every draw.
pub const RANDOM_DOMAIN: u64 = 0x6d63_7261_6e64_6f6d;

/// How many draws the ranged generator tries before settling.  The larger
/// the bound, the less likely the modulus bias survives.
pub const MAX_GENERATE_RANDOM: u32 = 100;

/// The first four digest bytes read as a little-endian number.
pub open spec fn u32_from_le(s: Seq<u8>) -> u32 {
    (s[0] as u32) | ((s[1] as u32) << 8) | ((s[2] as u32) << 16) | ((s[3] as u32) << 24)
}

/// The number drawn for a seed: a function of the seed alone, so every
/// replica draws the same.
pub open spec fn random_u32_of(seed: u32) -> u32 {
    u32_from_le(blake2b_of(u64_le_bytes(RANDOM_DOMAIN) + u64_le_bytes(seed as u64)))
}

/// Largest draw the ranged generator accepts without bias: below it, the
/// modulus maps the draws onto `0..total` evenly.
pub open spec fn unbiased_threshold(total: u32) -> u32 {
    (u32::MAX - u32::MAX % total) as u32
}

/// The draw the retry loop settles on: the first unbiased draw, or the
/// last draw of the budget.
pub open spec fn search_draw(total: u32, i: u32) -> u32
    decreases MAX_GENERATE_RANDOM - i,
{
    if i >= MAX_GENERATE_RANDOM - 1 {
        random_u32_of((MAX_GENERATE_RANDOM - 1) as u32)
    } else if random_u32_of(i) < unbiased_threshold(total) {
        random_u32_of(i)
    } else {
        search_draw(total, (i + 1) as u32)
    }
}

/// The digest-backed implementation of the randomness interface.
pub struct HashRandom;

impl HashRandom {
    /// Draw the number for a seed.
    pub fn random_from_seed(seed: u32) -> (r: u32)
        ensures
            r == random_u32_of(seed),
    {
        let digest = hash_message(RANDOM_DOMAIN, seed as u64);
        (digest[0] as u32) | ((digest[1] as u32) << 8) | ((digest[2] as u32) << 16) | ((
        digest[3] as u32) << 24)
    }

    /// Draw a number below `total`, retrying a bounded number of times to
    /// remove the modulus bias.  A bound of zero has no numbers below it;
    /// the draw is then zero.
    pub fn random_in_range(total: u32) -> (r: u32)
        ensures
            total > 0 ==> r == search_draw(total, 0) % total && r < total,
            total == 0 ==> r == 0,
    {
        if total == 0 {
            return 0;
        }
        let threshold = u32::MAX - u32::MAX % total;
        let mut i: u32 = 0;
        while i < MAX_GENERATE_RANDOM - 1
            invariant
                total > 0,
                threshold == unbiased_threshold(total),
                0 <= i <= MAX_GENERATE_RANDOM - 1,
                search_draw(total, 0) == search_draw(total, i),
            decreases MAX_GENERATE_RANDOM - 1 - i,
        {
            let r = Self::random_from_seed(i);
            if r < threshold {
                return r % total;
            }
            i = i + 1;
        }
        let r = Self::random_from_seed(MAX_GENERATE_RANDOM - 1);
        r % total
    }
}

impl RandomNumber<u32> for HashRandom {
    fn generate_random(seed: u32) -> u32 {
        Self::random_from_seed(seed)
    }

    fn generate_random_in_range(total: u32) -> u32 {
        Self::random_in_range(total)
    }
}

} // verus!
