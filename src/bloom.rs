//! Membership tests against a split-block bloom filter of parquet2.
use vstd::prelude::*;

verus! {

/// What parquet2's `bloom_filter::hash_native` gives for an `i64`.
pub uninterp spec fn native_hash(x: i64) -> u64;

/// The bitset after parquet2's `bloom_filter::insert` of a hash.
pub uninterp spec fn bloom_insert(bits: Seq<u8>, hash: u64) -> Seq<u8>;

/// What parquet2's `bloom_filter::is_in_set` answers for a bitset and a hash.
pub uninterp spec fn bloom_contains(bits: Seq<u8>, hash: u64) -> bool;

/// Relies on `bloom_filter::hash_native`: the xxh64 hash of the value's
/// little-endian bytes, which depends on the value alone.
#[verifier::external_body]
fn hash_native(x: i64) -> (r: u64)
    ensures
        r == native_hash(x),
{
    parquet2::bloom_filter::hash_native(x)
}

/// Relies on `bloom_filter::insert`: sets the hash's bits in one 32-byte
/// block, in place. It indexes out of bounds on a bitset under 32 bytes and
/// overflows on one of 2^37 bytes or more.
#[verifier::external_body]
fn bloom_filter_insert(bits: &mut Vec<u8>, hash: u64)
    requires
        32 <= old(bits)@.len() < 0x20_0000_0000,
    ensures
        final(bits)@ == bloom_insert(old(bits)@, hash),
        final(bits)@.len() == old(bits)@.len(),
{
    parquet2::bloom_filter::insert(bits.as_mut_slice(), hash)
}

/// Relies on `bloom_filter::is_in_set`: whether all of the hash's bits are
/// set. It has the same bounds on the bitset as `insert`.
#[verifier::external_body]
fn bloom_filter_is_in_set(bits: &Vec<u8>, hash: u64) -> (r: bool)
    requires
        32 <= bits@.len() < 0x20_0000_0000,
    ensures
        r == bloom_contains(bits@, hash),
{
    parquet2::bloom_filter::is_in_set(bits.as_slice(), hash)
}

/// Whether `x` may be in a one-block bloom filter that holds only 1337.
pub fn parquet2_1337_bloom_filter_contains(x: i64) -> (r: bool)
    ensures
        r == bloom_contains(
            bloom_insert(Seq::new(32, |i: int| 0u8), native_hash(1337)),
            native_hash(x),
        ),
{
    let mut bits: Vec<u8> = vec![0u8; 32];
    assert(bits@ =~= Seq::new(32, |i: int| 0u8));
    let seeded = hash_native(1337);
    bloom_filter_insert(&mut bits, seeded);
    let probe = hash_native(x);
    bloom_filter_is_in_set(&bits, probe)
}

} // verus!
