//! Hashed storage addressing.
//!
//! The raw host store is keyed by a single signed 64-bit integer.  A
//! (category, id[, second id]) tuple is mapped to such a key through a
//! SplitMix64-style avalanche mix, masked to a positive value so that a
//! derived key can never equal the reserved "absent" sentinel `0` nor the
//! probe key.  The scheme decorrelates storage locality from id adjacency;
//! it is deliberately replaceable by a simpler tagged scheme without
//! changing any observable behaviour, and the verified ledger in
//! [`crate::store`] therefore keys its slots by the structured tuple
//! itself.  These functions remain the documented raw-key derivation.

use vstd::prelude::*;

verus! {

/// Raw key of a singleton slot: the category tag itself.
pub open spec fn key_spec(prefix: u8) -> i64 {
    prefix as i64
}

/// SplitMix64-style finalizer: xor-shift, two odd-constant
/// multiplications, final xor-shift.
pub open spec fn mix64_spec(x: u64) -> u64 {
    let a = (x ^ (x >> 30)).wrapping_mul(0xbf58_476d_1ce4_e5b9);
    let b = (a ^ (a >> 27)).wrapping_mul(0x94d0_49bb_1331_11eb);
    b ^ (b >> 31)
}

/// Mask to a non-negative value; an exact zero is remapped to `1`
/// because `0` is reserved to mean "absent" at the accessor layer.
pub open spec fn positive_key_spec(x: u64) -> i64 {
    let v = (x & 0x7fff_ffff_ffff_ffff) as i64;
    if v == 0 {
        1
    } else {
        v
    }
}

/// Left rotation by 17 used to decorrelate the second id of a pair.
pub open spec fn rotl17_spec(x: u64) -> u64 {
    (x << 17) | (x >> 47)
}

/// Raw key of a per-entity field.
pub open spec fn k2_spec(prefix: u8, a: i64) -> i64 {
    positive_key_spec(mix64_spec(((prefix as u64) << 56) ^ (a as u64)))
}

/// Raw key of a per-(entity, account) record.
pub open spec fn k3_spec(prefix: u8, a: i64, b: i64) -> i64 {
    positive_key_spec(mix64_spec(
        ((prefix as u64) << 56) ^ mix64_spec(a as u64) ^ mix64_spec(rotl17_spec(b as u64)),
    ))
}

/// Raw key of a singleton slot.
pub fn key(prefix: u8) -> (r: i64)
    ensures
        r == key_spec(prefix),
        0 <= r <= 255,
{
    prefix as i64
}

/// 64-bit avalanche mix seeded by the tuple being addressed.
pub fn mix64(x: u64) -> (r: u64)
    ensures
        r == mix64_spec(x),
{
    let mut y = x ^ (x >> 30);
    y = y.wrapping_mul(0xbf58_476d_1ce4_e5b9);
    y = y ^ (y >> 27);
    y = y.wrapping_mul(0x94d0_49bb_1331_11eb);
    y ^ (y >> 31)
}

/// Mask a mixed value into the positive key space, away from the
/// "absent" sentinel.
pub fn positive_key(x: u64) -> (r: i64)
    ensures
        r == positive_key_spec(x),
        1 <= r,
{
    assert((x & 0x7fff_ffff_ffff_ffff) <= 0x7fff_ffff_ffff_ffff) by (bit_vector);
    let v = (x & 0x7fff_ffff_ffff_ffff) as i64;
    if v == 0 {
        1
    } else {
        v
    }
}

/// Derive the raw key of a per-entity field.
pub fn k2(prefix: u8, a: i64) -> (r: i64)
    ensures
        r == k2_spec(prefix, a),
        1 <= r,
{
    let seed = ((prefix as u64) << 56) ^ (#[verifier::truncate] (a as u64));
    positive_key(mix64(seed))
}

/// Derive the raw key of a per-(entity, account) record.
pub fn k3(prefix: u8, a: i64, b: i64) -> (r: i64)
    ensures
        r == k3_spec(prefix, a, b),
        1 <= r,
{
    let ra = mix64(#[verifier::truncate] (a as u64));
    let rb = #[verifier::truncate] (b as u64);
    let rb = mix64((rb << 17) | (rb >> 47));
    let seed = ((prefix as u64) << 56) ^ ra ^ rb;
    positive_key(mix64(seed))
}

} // verus!
