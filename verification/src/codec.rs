//! Big-endian integer codecs for the wire format.
//!
//! Every RPC payload is one 64-bit term in big-endian byte order; the frame
//! headers carry 16-bit ports and 32-bit addresses, also big-endian.

use vstd::prelude::*;

verus! {

/// The value of a 16-bit big-endian integer stored at `s[i]`, `s[i + 1]`.
pub open spec fn be16_at(s: Seq<u8>, i: int) -> int
    recommends
        0 <= i,
        i + 2 <= s.len(),
{
    (s[i] as int) * 0x100 + (s[i + 1] as int)
}

/// The value of a 32-bit big-endian integer stored at `s[i]`..`s[i + 3]`.
pub open spec fn be32_at(s: Seq<u8>, i: int) -> int
    recommends
        0 <= i,
        i + 4 <= s.len(),
{
    (s[i] as int) * 0x100_0000 + (s[i + 1] as int) * 0x1_0000 + (s[i + 2] as int) * 0x100 + (s[i
        + 3] as int)
}

/// The value of a 64-bit big-endian integer stored at `s[i]`..`s[i + 7]`.
pub open spec fn be64_at(s: Seq<u8>, i: int) -> int
    recommends
        0 <= i,
        i + 8 <= s.len(),
{
    (s[i] as int) * 0x100_0000_0000_0000 + (s[i + 1] as int) * 0x1_0000_0000_0000 + (s[i
        + 2] as int) * 0x100_0000_0000 + (s[i + 3] as int) * 0x1_0000_0000 + (s[i
        + 4] as int) * 0x100_0000 + (s[i + 5] as int) * 0x1_0000 + (s[i + 6] as int) * 0x100 + (s[i
        + 7] as int)
}

/// The eight big-endian bytes of a 64-bit term.
pub open spec fn be64_bytes(t: u64) -> Seq<u8> {
    seq![
        (t >> 56) as u8,
        (t >> 48) as u8,
        (t >> 40) as u8,
        (t >> 32) as u8,
        (t >> 24) as u8,
        (t >> 16) as u8,
        (t >> 8) as u8,
        t as u8,
    ]
}

/// Encode a term as its 8-byte big-endian payload.
pub fn encode_term(term: u64) -> (r: Vec<u8>)
    ensures
        r@ == be64_bytes(term),
{
    let mut v: Vec<u8> = Vec::new();
    v.push((term >> 56) as u8);
    v.push((term >> 48) as u8);
    v.push((term >> 40) as u8);
    v.push((term >> 32) as u8);
    v.push((term >> 24) as u8);
    v.push((term >> 16) as u8);
    v.push((term >> 8) as u8);
    v.push(term as u8);
    proof {
        assert(v@ =~= be64_bytes(term));
    }
    v
}

/// Decode the 8-byte big-endian term stored at `b[at]`..`b[at + 7]`.
pub fn decode_term_at(b: &[u8], at: usize) -> (r: u64)
    requires
        at + 8 <= b@.len(),
    ensures
        r == be64_at(b@, at as int),
{
    (b[at] as u64) * 0x100_0000_0000_0000 + (b[at + 1] as u64) * 0x1_0000_0000_0000 + (b[at
        + 2] as u64) * 0x100_0000_0000 + (b[at + 3] as u64) * 0x1_0000_0000 + (b[at
        + 4] as u64) * 0x100_0000 + (b[at + 5] as u64) * 0x1_0000 + (b[at + 6] as u64) * 0x100 + (
    b[at + 7] as u64)
}

/// Decode an 8-byte big-endian term payload.
pub fn decode_term(b: &[u8]) -> (r: u64)
    requires
        b@.len() == 8,
    ensures
        r == be64_at(b@, 0),
{
    decode_term_at(b, 0)
}

/// Decode the 32-bit big-endian integer stored at `b[at]`..`b[at + 3]`.
pub fn decode_be32_at(b: &[u8], at: usize) -> (r: u32)
    requires
        at + 4 <= b@.len(),
    ensures
        r == be32_at(b@, at as int),
{
    (b[at] as u32) * 0x100_0000 + (b[at + 1] as u32) * 0x1_0000 + (b[at + 2] as u32) * 0x100 + (b[at
        + 3] as u32)
}

/// Decode the 16-bit big-endian integer stored at `b[at]`, `b[at + 1]`.
pub fn decode_be16_at(b: &[u8], at: usize) -> (r: u16)
    requires
        at + 2 <= b@.len(),
    ensures
        r == be16_at(b@, at as int),
{
    (b[at] as u16) * 0x100 + (b[at + 1] as u16)
}

/// Decoding inverts encoding: an encoded term reads back as itself.
pub proof fn lemma_term_codec_roundtrip(t: u64)
    ensures
        be64_at(be64_bytes(t), 0) == t,
{
    assert(((t >> 56) as u8 as int) * 0x100_0000_0000_0000 + ((t >> 48) as u8 as int)
        * 0x1_0000_0000_0000 + ((t >> 40) as u8 as int) * 0x100_0000_0000 + ((t >> 32) as u8 as int)
        * 0x1_0000_0000 + ((t >> 24) as u8 as int) * 0x100_0000 + ((t >> 16) as u8 as int)
        * 0x1_0000 + ((t >> 8) as u8 as int) * 0x100 + (t as u8 as int) == t) by (bit_vector);
}

} // verus!
