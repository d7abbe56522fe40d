//! Content hashing for change detection.
//!
//! A file's content hash is the 64-bit FNV-1a digest of its bytes, reported
//! in lowercase hexadecimal. The hash is non-cryptographic: it is meant only
//! to tell whether content changed, and gives no collision resistance for
//! security or deduplication.

use vstd::prelude::*;
use crate::numfmt::hex_seq;
use crate::numfmt::u64_hex;

verus! {

pub const FNV_OFFSET_BASIS: u64 = 0xcbf29ce484222325;

pub const FNV_PRIME: u64 = 0x100000001b3;

/// The 64-bit FNV-1a digest of `b`: starting from the offset basis, each
/// byte is folded in by xor and a wrapping multiply with the FNV prime.
pub open spec fn fnv1a(b: Seq<u8>) -> u64
    decreases b.len(),
{
    if b.len() == 0 {
        FNV_OFFSET_BASIS
    } else {
        u64::wrapping_mul(fnv1a(b.drop_last()) ^ (b.last() as u64), FNV_PRIME)
    }
}

/// Computes the 64-bit FNV-1a digest of `data`.
pub fn fnv1a_hash(data: &Vec<u8>) -> (h: u64)
    ensures
        h == fnv1a(data@),
{
    let mut h: u64 = FNV_OFFSET_BASIS;
    let mut i: usize = 0;
    while i < data.len()
        invariant
            0 <= i <= data@.len(),
            h == fnv1a(data@.take(i as int)),
        decreases data@.len() - i,
    {
        h = (h ^ (data[i] as u64)).wrapping_mul(FNV_PRIME);
        proof {
            assert(data@.take(i + 1).drop_last() =~= data@.take(i as int));
            assert(data@.take(i + 1).last() == data@[i as int]);
        }
        i += 1;
    }
    proof {
        assert(data@.take(data@.len() as int) =~= data@);
    }
    h
}

/// The reported hash of content `b`.
pub open spec fn content_hash_spec(b: Seq<u8>) -> Seq<char> {
    hex_seq(fnv1a(b) as int)
}

/// Hashes `data` and renders the digest in lowercase hexadecimal.
pub fn content_hash(data: &Vec<u8>) -> (r: String)
    ensures
        r@ == content_hash_spec(data@),
{
    u64_hex(fnv1a_hash(data))
}

} // verus!
