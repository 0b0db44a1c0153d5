//! Frame building, field reading, reflection, payload checks.

use raft_node::codec::encode_term;
use raft_node::frame::build_udp_frame;
use raft_node::frame::is_term_in_payload;
use raft_node::frame::parse_term_in_payload;
use raft_node::frame::range_exists;
use raft_node::frame::read_dst_port;
use raft_node::frame::read_src_ip;
use raft_node::frame::reflect_frame;

fn sample_frame(payload: Vec<u8>) -> Vec<u8> {
    let src_mac = vec![1, 2, 3, 4, 5, 6];
    let dst_mac = vec![7, 8, 9, 10, 11, 12];
    build_udp_frame(&src_mac, &dst_mac, 0x0A00_0002, 0x0A00_0001, 47000, 28000, &payload)
}

#[test]
fn build_frame_fields() {
    let f = sample_frame(encode_term(9));
    assert_eq!(f.len(), 50);
    assert_eq!(&f[0..6], &[7, 8, 9, 10, 11, 12]);
    assert_eq!(&f[6..12], &[1, 2, 3, 4, 5, 6]);
    assert_eq!(f[12], 0x08);
    assert_eq!(f[13], 0x00);
    assert_eq!(f[23], 17);
    assert_eq!(read_src_ip(&f), 0x0A00_0002);
    assert_eq!(read_dst_port(&f), 28000);
    assert_eq!(&f[42..50], &[0, 0, 0, 0, 0, 0, 0, 9]);
}

#[test]
fn reflection_swaps_addresses() {
    let mut f = sample_frame(encode_term(9));
    let before = f.clone();
    reflect_frame(&mut f, 29001);
    // MAC addresses swapped
    assert_eq!(&f[0..6], &before[6..12]);
    assert_eq!(&f[6..12], &before[0..6]);
    // IPv4 addresses swapped
    assert_eq!(&f[26..30], &before[30..34]);
    assert_eq!(&f[30..34], &before[26..30]);
    // UDP source port preserved, destination port replaced
    assert_eq!(&f[34..36], &before[34..36]);
    assert_eq!(f[36], (29001u16 >> 8) as u8);
    assert_eq!(f[37], (29001u16 & 0xFF) as u8);
    // payload untouched
    assert_eq!(&f[42..], &before[42..]);
}

#[test]
fn term_payload_checks() {
    let with_term = sample_frame(encode_term(3));
    assert!(is_term_in_payload(&with_term));
    assert_eq!(parse_term_in_payload(&with_term), Ok(3));

    let short = sample_frame(vec![1, 2, 3]);
    assert!(!is_term_in_payload(&short));
    assert_eq!(parse_term_in_payload(&short), Err(()));

    let long = sample_frame(vec![0, 0, 0, 0, 0, 0, 0, 1, 99]);
    assert!(!is_term_in_payload(&long));
    // nine bytes still start with a readable term
    assert_eq!(parse_term_in_payload(&long), Ok(1));
}

#[test]
fn range_checks() {
    let f = sample_frame(vec![]);
    assert!(range_exists(&f, 0, 42));
    assert!(range_exists(&f, 42, 0));
    assert!(!range_exists(&f, 42, 1));
    assert!(!range_exists(&f, usize::MAX, 8));
}
