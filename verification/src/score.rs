//! The persisted high score: a fixed eight-byte little-endian unsigned
//! integer. Reading and writing the file itself happens outside the core;
//! here live the exact encoding and decoding rules.

use vstd::prelude::*;

verus! {

/// Byte `i` of the little-endian encoding of `v`.
pub open spec fn le_byte(v: u64, i: int) -> u8 {
    ((v >> (8 * i) as u64) & 0xFF) as u8
}

/// The value encoded by eight little-endian bytes.
pub open spec fn le_decode8(s: Seq<u8>) -> u64 {
    (s[0] as u64) | ((s[1] as u64) << 8) | ((s[2] as u64) << 16) | ((s[3] as u64) << 24) | ((
    s[4] as u64) << 32) | ((s[5] as u64) << 40) | ((s[6] as u64) << 48) | ((s[7] as u64) << 56)
}

/// Encode a score as its eight little-endian bytes.
pub fn score_to_bytes(v: u64) -> (r: Vec<u8>)
    ensures
        r@.len() == 8,
        forall|i: int| 0 <= i < 8 ==> #[trigger] r@[i] == le_byte(v, i),
{
    let mut r: Vec<u8> = Vec::new();
    r.push((v & 0xFF) as u8);
    r.push(((v >> 8) & 0xFF) as u8);
    r.push(((v >> 16) & 0xFF) as u8);
    r.push(((v >> 24) & 0xFF) as u8);
    r.push(((v >> 32) & 0xFF) as u8);
    r.push(((v >> 40) & 0xFF) as u8);
    r.push(((v >> 48) & 0xFF) as u8);
    r.push(((v >> 56) & 0xFF) as u8);
    proof {
        assert((v >> 0) & 0xFF == v & 0xFF) by (bit_vector);
        assert(forall|i: int| 0 <= i < 8 ==> #[trigger] r@[i] == le_byte(v, i)) by {
            assert(r@[0] == le_byte(v, 0));
            assert(r@[1] == le_byte(v, 1));
            assert(r@[2] == le_byte(v, 2));
            assert(r@[3] == le_byte(v, 3));
            assert(r@[4] == le_byte(v, 4));
            assert(r@[5] == le_byte(v, 5));
            assert(r@[6] == le_byte(v, 6));
            assert(r@[7] == le_byte(v, 7));
        }
    }
    r
}

/// Decode a stored score; anything but exactly eight bytes is rejected, and
/// the caller falls back to zero.
pub fn score_from_bytes(b: &Vec<u8>) -> (r: Option<u64>)
    ensures
        (r is Some) <==> b@.len() == 8,
        r is Some ==> r->Some_0 == le_decode8(b@),
{
    if b.len() != 8 {
        return None;
    }
    let v: u64 = (b[0] as u64) | ((b[1] as u64) << 8) | ((b[2] as u64) << 16) | ((b[3] as u64)
        << 24) | ((b[4] as u64) << 32) | ((b[5] as u64) << 40) | ((b[6] as u64) << 48) | ((
    b[7] as u64) << 56);
    Some(v)
}

/// Decoding the encoding gives the score back: the persistence format loses
/// nothing.
pub proof fn lemma_score_round_trip(v: u64)
    ensures
        le_decode8(score_bytes_spec(v)) == v,
{
    let s = score_bytes_spec(v);
    assert(((v >> 0) & 0xFF) | (((v >> 8) & 0xFF) << 8) | (((v >> 16) & 0xFF) << 16) | (((v >> 24)
        & 0xFF) << 24) | (((v >> 32) & 0xFF) << 32) | (((v >> 40) & 0xFF) << 40) | (((v >> 48)
        & 0xFF) << 48) | (((v >> 56) & 0xFF) << 56) == v) by (bit_vector);
    assert(((v >> 0) & 0xFF) < 256 && ((v >> 8) & 0xFF) < 256 && ((v >> 16) & 0xFF) < 256 && ((v
        >> 24) & 0xFF) < 256 && ((v >> 32) & 0xFF) < 256 && ((v >> 40) & 0xFF) < 256 && ((v >> 48)
        & 0xFF) < 256 && ((v >> 56) & 0xFF) < 256) by (bit_vector);
    assert((s[0] as u64) == (v >> 0) & 0xFF);
    assert((s[1] as u64) == (v >> 8) & 0xFF);
    assert((s[2] as u64) == (v >> 16) & 0xFF);
    assert((s[3] as u64) == (v >> 24) & 0xFF);
    assert((s[4] as u64) == (v >> 32) & 0xFF);
    assert((s[5] as u64) == (v >> 40) & 0xFF);
    assert((s[6] as u64) == (v >> 48) & 0xFF);
    assert((s[7] as u64) == (v >> 56) & 0xFF);
}

/// The encoding as a sequence, for stating the round trip.
pub open spec fn score_bytes_spec(v: u64) -> Seq<u8> {
    Seq::new(8, |i: int| le_byte(v, i))
}

} // verus!
