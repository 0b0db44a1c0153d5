//! The term codec and the byte readers.

use raft_node::codec::decode_be16_at;
use raft_node::codec::decode_be32_at;
use raft_node::codec::decode_term;
use raft_node::codec::encode_term;

#[test]
fn encode_term_one() {
    let b = encode_term(1);
    assert_eq!(b, vec![0, 0, 0, 0, 0, 0, 0, 1]);
}

#[test]
fn encode_term_big() {
    let b = encode_term(0x0102_0304_0506_0708);
    assert_eq!(b, vec![1, 2, 3, 4, 5, 6, 7, 8]);
}

#[test]
fn decode_term_exact() {
    let b = vec![0, 0, 0, 0, 0, 0, 1, 0];
    assert_eq!(decode_term(&b), 256);
}

#[test]
fn roundtrip_terms() {
    let samples: Vec<u64> = vec![0, 1, 5, 7, 100, 0xFFFF_FFFF_FFFF_FFFF, 0x8000_0000_0000_0000];
    for t in samples {
        let b = encode_term(t);
        assert_eq!(decode_term(&b), t);
    }
}

#[test]
fn decode_be16_be32() {
    let b = vec![0xDE, 0xAD, 0xBE, 0xEF, 0x01];
    assert_eq!(decode_be16_at(&b, 0), 0xDEAD);
    assert_eq!(decode_be16_at(&b, 2), 0xBEEF);
    assert_eq!(decode_be32_at(&b, 0), 0xDEAD_BEEF);
    assert_eq!(decode_be32_at(&b, 1), 0xADBE_EF01);
}
