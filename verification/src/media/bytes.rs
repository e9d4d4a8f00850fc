//! Reading integers and markers out of file headers.

use vstd::prelude::*;

verus! {

/// Whether `b` holds `p` at offset `at`.
pub open spec fn holds_at(b: Seq<u8>, at: int, p: Seq<u8>) -> bool {
    0 <= at && at + p.len() <= b.len() && b.subrange(at, at + p.len()) == p
}

/// Whether `b` holds `p` at offset `at`.
pub fn bytes_at(b: &[u8], at: usize, p: &[u8]) -> (r: bool)
    ensures
        r == holds_at(b@, at as int, p@),
{
    if at > b.len() || b.len() - at < p.len() {
        return false;
    }
    let mut i: usize = 0;
    while i < p.len()
        invariant
            i <= p.len(),
            at + p.len() <= b.len(),
            b@.subrange(at as int, at + i) == p@.take(i as int),
        decreases p.len() - i,
    {
        if b[at + i] != p[i] {
            assert(b@.subrange(at as int, at + p.len())[i as int] != p@[i as int]);
            return false;
        }
        assert(b@.subrange(at as int, at + i + 1) == b@.subrange(at as int, at + i).push(b@[at + i]));
        assert(p@.take(i + 1) == p@.take(i as int).push(p@[i as int]));
        i = i + 1;
    }
    assert(p@.take(p.len() as int) == p@);
    true
}

/// The first offset at or after `from` where `b` holds `p`.
pub open spec fn find_from(b: Seq<u8>, p: Seq<u8>, from: nat) -> Option<nat>
    decreases b.len() - from,
{
    if from >= b.len() || from + p.len() > b.len() {
        None
    } else if holds_at(b, from as int, p) {
        Some(from)
    } else {
        find_from(b, p, from + 1)
    }
}

/// Finds the first offset where `b` holds `p` (for a four-byte pattern, what `windows(4)`
/// followed by `position` gives).
pub fn find_bytes(b: &[u8], p: &[u8]) -> (r: Option<usize>)
    ensures
        r matches Some(i) ==> find_from(b@, p@, 0) == Some(i as nat) && i + p.len() <= b.len(),
        r is None ==> find_from(b@, p@, 0) is None,
{
    let mut i: usize = 0;
    while i < b.len() && b.len() - i >= p.len()
        invariant
            find_from(b@, p@, 0) == find_from(b@, p@, i as nat),
        decreases b.len() - i,
    {
        if bytes_at(b, i, p) {
            return Some(i);
        }
        i = i + 1;
    }
    None
}

/// The little-endian `u16` at `o`, when the bytes are there.
pub open spec fn le16(b: Seq<u8>, o: int) -> Option<u16> {
    if 0 <= o && o + 2 <= b.len() {
        Some((b[o] as int + 256 * b[o + 1] as int) as u16)
    } else {
        None
    }
}

/// The big-endian `u16` at `o`, when the bytes are there.
pub open spec fn be16(b: Seq<u8>, o: int) -> Option<u16> {
    if 0 <= o && o + 2 <= b.len() {
        Some((256 * b[o] as int + b[o + 1] as int) as u16)
    } else {
        None
    }
}

/// The little-endian `u32` at `o`, when the bytes are there.
pub open spec fn le32(b: Seq<u8>, o: int) -> Option<u32> {
    if 0 <= o && o + 4 <= b.len() {
        Some(
            (b[o] as int + 256 * b[o + 1] as int + 65536 * b[o + 2] as int + 16777216 * b[o
                + 3] as int) as u32,
        )
    } else {
        None
    }
}

/// The big-endian `u32` at `o`, when the bytes are there.
pub open spec fn be32(b: Seq<u8>, o: int) -> Option<u32> {
    if 0 <= o && o + 4 <= b.len() {
        Some(
            (16777216 * b[o] as int + 65536 * b[o + 1] as int + 256 * b[o + 2] as int + b[o
                + 3] as int) as u32,
        )
    } else {
        None
    }
}

/// Reads a little-endian `u16`.
pub fn read_le_u16(b: &[u8], o: usize) -> (r: Option<u16>)
    ensures
        r == le16(b@, o as int),
{
    if o > b.len() || b.len() - o < 2 {
        return None;
    }
    Some((b[o] as u16) + (b[o + 1] as u16) * 256)
}

/// Reads a big-endian `u16`.
pub fn read_be_u16(b: &[u8], o: usize) -> (r: Option<u16>)
    ensures
        r == be16(b@, o as int),
{
    if o > b.len() || b.len() - o < 2 {
        return None;
    }
    Some((b[o] as u16) * 256 + (b[o + 1] as u16))
}

/// Reads a little-endian `u32`.
pub fn read_le_u32(b: &[u8], o: usize) -> (r: Option<u32>)
    ensures
        r == le32(b@, o as int),
{
    if o > b.len() || b.len() - o < 4 {
        return None;
    }
    Some((b[o] as u32) + (b[o + 1] as u32) * 256 + (b[o + 2] as u32) * 65536 + (b[o + 3] as u32)
        * 16777216)
}

/// Reads a big-endian `u32`.
pub fn read_be_u32(b: &[u8], o: usize) -> (r: Option<u32>)
    ensures
        r == be32(b@, o as int),
{
    if o > b.len() || b.len() - o < 4 {
        return None;
    }
    Some((b[o] as u32) * 16777216 + (b[o + 1] as u32) * 65536 + (b[o + 2] as u32) * 256 + (b[o
        + 3] as u32))
}

} // verus!
