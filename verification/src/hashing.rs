//! Content-addressed ticket identifiers.  A booking is encoded as a fixed
//! little-endian byte string and hashed; the digest is the ticket id.  The
//! digest itself comes from an outside implementation of Blake2b and is only
//! named here, never restated.

use vstd::prelude::*;
use crate::primitives::{AccountId, DungeonId, Time};

verus! {

/// The 32-byte Blake2b digest of `bytes`, a function of the bytes alone.
pub uninterp spec fn blake2b_of(bytes: Seq<u8>) -> Seq<u8>;

/// Relies on sp_crypto_hashing::blake2_256: the 256-bit Blake2b digest of
/// the input, determined by the input bytes alone.
#[verifier::external_body]
fn blake2_256_digest(bytes: &Vec<u8>) -> (r: Vec<u8>)
    ensures
        r@ == blake2b_of(bytes@),
        r@.len() == 32,
{
    sp_crypto_hashing::blake2_256(bytes.as_slice()).to_vec()
}

/// The eight little-endian bytes of `x`.
pub open spec fn u64_le_bytes(x: u64) -> Seq<u8> {
    seq![
        (x & 0xff) as u8,
        ((x >> 8) & 0xff) as u8,
        ((x >> 16) & 0xff) as u8,
        ((x >> 24) & 0xff) as u8,
        ((x >> 32) & 0xff) as u8,
        ((x >> 40) & 0xff) as u8,
        ((x >> 48) & 0xff) as u8,
        ((x >> 56) & 0xff) as u8,
    ]
}

/// Append the eight little-endian bytes of `x`.
fn push_u64_le(out: &mut Vec<u8>, x: u64)
    ensures
        final(out)@ == old(out)@ + u64_le_bytes(x),
{
    out.push((x & 0xff) as u8);
    out.push(((x >> 8) & 0xff) as u8);
    out.push(((x >> 16) & 0xff) as u8);
    out.push(((x >> 24) & 0xff) as u8);
    out.push(((x >> 32) & 0xff) as u8);
    out.push(((x >> 40) & 0xff) as u8);
    out.push(((x >> 48) & 0xff) as u8);
    out.push(((x >> 56) & 0xff) as u8);
    proof {
        assert(out@ =~= old(out)@ + u64_le_bytes(x));
    }
}

/// The byte string a booking is hashed over: the host seed, the dungeon,
/// the player, the booking time and the booking counter.
pub open spec fn booking_material(
    seed: u64,
    dungeon_id: DungeonId,
    player: AccountId,
    created_at: Time,
    nonce: u64,
) -> Seq<u8> {
    u64_le_bytes(seed) + u64_le_bytes(dungeon_id) + u64_le_bytes(player) + u64_le_bytes(created_at)
        + u64_le_bytes(nonce)
}

/// The ticket id of a booking: the digest of its material.
pub open spec fn ticket_id_of(
    seed: u64,
    dungeon_id: DungeonId,
    player: AccountId,
    created_at: Time,
    nonce: u64,
) -> Seq<u8> {
    blake2b_of(booking_material(seed, dungeon_id, player, created_at, nonce))
}

/// Derive the content-addressed ticket id of a booking.
pub fn derive_ticket_id(
    seed: u64,
    dungeon_id: DungeonId,
    player: AccountId,
    created_at: Time,
    nonce: u64,
) -> (r: Vec<u8>)
    ensures
        r@ == ticket_id_of(seed, dungeon_id, player, created_at, nonce),
        r@.len() == 32,
{
    let mut material: Vec<u8> = Vec::new();
    push_u64_le(&mut material, seed);
    push_u64_le(&mut material, dungeon_id);
    push_u64_le(&mut material, player);
    push_u64_le(&mut material, created_at);
    push_u64_le(&mut material, nonce);
    proof {
        assert(material@ =~= booking_material(seed, dungeon_id, player, created_at, nonce));
    }
    blake2_256_digest(&material)
}

/// Digest of a domain tag and one value, the seed material of the
/// deterministic random generator.
pub fn hash_message(domain: u64, value: u64) -> (r: Vec<u8>)
    ensures
        r@ == blake2b_of(u64_le_bytes(domain) + u64_le_bytes(value)),
        r@.len() == 32,
{
    let mut material: Vec<u8> = Vec::new();
    push_u64_le(&mut material, domain);
    push_u64_le(&mut material, value);
    proof {
        assert(material@ =~= u64_le_bytes(domain) + u64_le_bytes(value));
    }
    blake2_256_digest(&material)
}

/// Whether two byte strings hold the same bytes.
pub fn bytes_eq(a: &Vec<u8>, b: &Vec<u8>) -> (r: bool)
    ensures
        r == (a@ == b@),
{
    if a.len() != b.len() {
        proof {
            assert(a@.len() != b@.len());
        }
        return false;
    }
    let n = a.len();
    let mut i: usize = 0;
    while i < n
        invariant
            n == a@.len(),
            n == b@.len(),
            0 <= i <= n,
            forall|k: int| 0 <= k < i ==> a@[k] == b@[k],
        decreases n - i,
    {
        if a[i] != b[i] {
            return false;
        }
        i = i + 1;
    }
    proof {
        assert(a@ =~= b@);
    }
    true
}

} // verus!
