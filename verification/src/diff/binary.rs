//! Binary metadata diffing.

use vstd::prelude::*;

verus! {

/// Binary file metadata.
#[derive(Clone, Copy, Debug, PartialEq, Eq)]
pub struct BinaryMetadata {
    /// File size in bytes.
    pub size: u64,
    /// Content hash.
    pub hash: u64,
}

/// Binary diff summary.
#[derive(Clone, Debug, PartialEq, Eq)]
pub struct BinaryDiff {
    /// Previous metadata.
    pub before: BinaryMetadata,
    /// Current metadata.
    pub after: BinaryMetadata,
    /// Whether the size changed.
    pub size_changed: bool,
    /// Whether the hash changed.
    pub hash_changed: bool,
}

/// FNV-1a offset basis.
pub const FNV_OFFSET: u64 = 0xcbf2_9ce4_8422_2325;

/// FNV-1a prime.
pub const FNV_PRIME: u64 = 0x0000_0100_0000_01b3;

/// One FNV-1a step: xor in the byte, then multiply by the prime modulo 2^64.
pub open spec fn fnv_step(hash: u64, byte: u8) -> u64 {
    (((hash ^ (byte as u64)) as nat * FNV_PRIME as nat) % 0x1_0000_0000_0000_0000) as u64
}

/// The 64-bit FNV-1a hash of a byte sequence.
pub open spec fn fnv1a_spec(bytes: Seq<u8>) -> u64
    decreases bytes.len(),
{
    if bytes.len() == 0 {
        FNV_OFFSET
    } else {
        fnv_step(fnv1a_spec(bytes.drop_last()), bytes.last())
    }
}

/// The metadata of a byte sequence: its length and FNV-1a hash.
pub open spec fn metadata_spec(bytes: Seq<u8>) -> BinaryMetadata {
    BinaryMetadata { size: bytes.len() as u64, hash: fnv1a_spec(bytes) }
}

/// The binary diff of two byte sequences.
pub open spec fn diff_binary_spec(before: Seq<u8>, after: Seq<u8>) -> BinaryDiff {
    let b = metadata_spec(before);
    let a = metadata_spec(after);
    BinaryDiff { before: b, after: a, size_changed: b.size != a.size, hash_changed: b.hash != a.hash }
}

fn fnv1a(bytes: &[u8]) -> (h: u64)
    ensures
        h == fnv1a_spec(bytes@),
{
    let mut hash: u64 = FNV_OFFSET;
    let mut i: usize = 0;
    while i < bytes.len()
        invariant
            i <= bytes.len(),
            hash == fnv1a_spec(bytes@.take(i as int)),
        decreases bytes.len() - i,
    {
        assert(bytes@.take(i + 1).drop_last() == bytes@.take(i as int));
        hash = (hash ^ (bytes[i] as u64)).wrapping_mul(FNV_PRIME);
        i = i + 1;
    }
    assert(bytes@.take(bytes.len() as int) == bytes@);
    hash
}

/// Computes binary metadata from bytes.
pub fn metadata(bytes: &[u8]) -> (m: BinaryMetadata)
    ensures
        m == metadata_spec(bytes@),
{
    BinaryMetadata { size: bytes.len() as u64, hash: fnv1a(bytes) }
}

/// Computes a binary diff from two byte slices.
pub fn diff_binary(before: &[u8], after: &[u8]) -> (d: BinaryDiff)
    ensures
        d == diff_binary_spec(before@, after@),
{
    let before = metadata(before);
    let after = metadata(after);
    BinaryDiff {
        before,
        after,
        size_changed: before.size != after.size,
        hash_changed: before.hash != after.hash,
    }
}

/// Comparing bytes with themselves reports neither a size nor a hash change.
pub proof fn law_identical_bytes_unchanged(bytes: Seq<u8>)
    ensures
        !diff_binary_spec(bytes, bytes).size_changed,
        !diff_binary_spec(bytes, bytes).hash_changed,
{
}

} // verus!
