//! The inbound frame model: Ethernet / IPv4 / UDP headers over a byte
//! vector, field accessors, in-place reflection, and the term payload
//! helpers.
//!
//! Offsets follow the fixed layout the packet handler relies on: the
//! Ethernet header is 14 bytes (destination MAC, source MAC, ethertype),
//! the IPv4 header is taken as 20 bytes (protocol at offset 23, source and
//! destination addresses at 26 and 30), and the UDP header is 8 bytes
//! (source port at 34, destination port at 36); the payload starts at 42.

use vstd::prelude::*;
use crate::codec::be16_at;
use crate::codec::be32_at;
use crate::codec::be64_at;
use crate::codec::decode_be16_at;
use crate::codec::decode_be32_at;
use crate::codec::decode_term_at;
use crate::config::UDP_PAYLOAD_OFFSET;

verus! {

/// Does the frame carry an Ethernet header that announces IPv4?
pub open spec fn is_ipv4(f: Seq<u8>) -> bool {
    f.len() >= 14 && f[12] == 0x08 && f[13] == 0x00
}

/// The IPv4 protocol field.
pub open spec fn ip_proto(f: Seq<u8>) -> u8
    recommends
        f.len() >= 24,
{
    f[23]
}

/// The UDP (or TCP) destination port, big-endian at offset 36.
pub open spec fn dst_port_of(f: Seq<u8>) -> int
    recommends
        f.len() >= 38,
{
    be16_at(f, 36)
}

/// The UDP source port, big-endian at offset 34.
pub open spec fn src_port_of(f: Seq<u8>) -> int
    recommends
        f.len() >= 36,
{
    be16_at(f, 34)
}

/// The IPv4 source address, read big-endian, so in host order.
pub open spec fn src_ip_of(f: Seq<u8>) -> int
    recommends
        f.len() >= 30,
{
    be32_at(f, 26)
}

/// The IPv4 destination address, read big-endian, so in host order.
pub open spec fn dst_ip_of(f: Seq<u8>) -> int
    recommends
        f.len() >= 34,
{
    be32_at(f, 30)
}

/// The destination MAC address.
pub open spec fn eth_dst_of(f: Seq<u8>) -> Seq<u8>
    recommends
        f.len() >= 14,
{
    f.subrange(0, 6)
}

/// The source MAC address.
pub open spec fn eth_src_of(f: Seq<u8>) -> Seq<u8>
    recommends
        f.len() >= 14,
{
    f.subrange(6, 12)
}

/// The UDP payload: whatever follows the three headers.
pub open spec fn payload_of(f: Seq<u8>) -> Seq<u8>
    recommends
        f.len() >= 42,
{
    f.skip(42)
}

/// Length of the UDP payload.
pub open spec fn payload_len(f: Seq<u8>) -> int
    recommends
        f.len() >= 42,
{
    f.len() - 42
}

/// The term a payload of exactly 8 bytes carries.
pub open spec fn frame_term(f: Seq<u8>) -> int
    recommends
        f.len() >= 50,
{
    be64_at(f, 42)
}

/// The reflected frame: MAC addresses swapped, IPv4 addresses swapped, UDP
/// destination port replaced by `port`, everything else unchanged.
pub open spec fn reflected(f: Seq<u8>, port: u16) -> Seq<u8>
    recommends
        f.len() >= 42,
{
    Seq::new(
        f.len(),
        |i: int|
            if 0 <= i < 6 {
                f[i + 6]
            } else if 6 <= i < 12 {
                f[i - 6]
            } else if 26 <= i < 30 {
                f[i + 4]
            } else if 30 <= i < 34 {
                f[i - 4]
            } else if i == 36 {
                (port >> 8) as u8
            } else if i == 37 {
                port as u8
            } else {
                f[i]
            },
    )
}

/// The reflection law: the response frame answers the sender in place.
/// Ethernet and IPv4 source and destination are swapped, the UDP source
/// port and the payload are preserved, and the UDP destination becomes the
/// response port.
pub proof fn lemma_reflection(f: Seq<u8>, port: u16)
    requires
        f.len() >= 42,
    ensures
        reflected(f, port).len() == f.len(),
        eth_src_of(reflected(f, port)) == eth_dst_of(f),
        eth_dst_of(reflected(f, port)) == eth_src_of(f),
        src_ip_of(reflected(f, port)) == dst_ip_of(f),
        dst_ip_of(reflected(f, port)) == src_ip_of(f),
        src_port_of(reflected(f, port)) == src_port_of(f),
        dst_port_of(reflected(f, port)) == port,
        payload_of(reflected(f, port)) == payload_of(f),
        is_ipv4(reflected(f, port)) == is_ipv4(f),
        ip_proto(reflected(f, port)) == ip_proto(f),
{
    let r = reflected(f, port);
    assert(eth_src_of(r) =~= eth_dst_of(f));
    assert(eth_dst_of(r) =~= eth_src_of(f));
    assert(payload_of(r) =~= payload_of(f));
    assert(be16_at(r, 36) == (port >> 8) as u8 * 0x100 + port as u8);
    assert((port >> 8) as u8 * 0x100 + port as u8 == port) by (bit_vector);
}

/// Reflect the frame in place: swap the MAC addresses, swap the IPv4
/// addresses, and point the UDP destination at `response_port`.
pub fn reflect_frame(frame: &mut Vec<u8>, response_port: u16)
    requires
        old(frame)@.len() >= 42,
    ensures
        final(frame)@ == reflected(old(frame)@, response_port),
{
    let mut i: usize = 0;
    while i < 6
        invariant
            frame@.len() == old(frame)@.len() >= 42,
            i <= 6,
            forall|j: int| 0 <= j < i ==> frame@[j] == old(frame)@[j + 6],
            forall|j: int| 6 <= j < 6 + i ==> frame@[j] == old(frame)@[j - 6],
            forall|j: int| i <= j < 6 ==> frame@[j] == old(frame)@[j],
            forall|j: int| 6 + i <= j < old(frame)@.len() ==> frame@[j] == old(frame)@[j],
        decreases 6 - i,
    {
        let a = frame[i];
        let b = frame[i + 6];
        frame[i] = b;
        frame[i + 6] = a;
        i += 1;
    }
    let mut j: usize = 0;
    while j < 4
        invariant
            frame@.len() == old(frame)@.len() >= 42,
            j <= 4,
            forall|t: int| 0 <= t < 6 ==> frame@[t] == old(frame)@[t + 6],
            forall|t: int| 6 <= t < 12 ==> frame@[t] == old(frame)@[t - 6],
            forall|t: int| 26 <= t < 26 + j ==> frame@[t] == old(frame)@[t + 4],
            forall|t: int| 30 <= t < 30 + j ==> frame@[t] == old(frame)@[t - 4],
            forall|t: int| 26 + j <= t < 30 ==> frame@[t] == old(frame)@[t],
            forall|t: int| 30 + j <= t < 34 ==> frame@[t] == old(frame)@[t],
            forall|t: int| 12 <= t < 26 ==> frame@[t] == old(frame)@[t],
            forall|t: int| 34 <= t < old(frame)@.len() ==> frame@[t] == old(frame)@[t],
        decreases 4 - j,
    {
        let a = frame[26 + j];
        let b = frame[30 + j];
        frame[26 + j] = b;
        frame[30 + j] = a;
        j += 1;
    }
    frame[36] = (response_port / 0x100) as u8;
    frame[37] = (response_port % 0x100) as u8;
    proof {
        assert((response_port / 0x100) as u8 == (response_port >> 8) as u8) by (bit_vector);
        assert((response_port % 0x100) as u8 == response_port as u8) by (bit_vector);
        assert(frame@ =~= reflected(old(frame)@, response_port));
    }
}

/// Does the UDP payload hold exactly the 8 bytes of a term?
pub fn is_term_in_payload(frame: &Vec<u8>) -> (r: bool)
    ensures
        r == (frame@.len() == UDP_PAYLOAD_OFFSET + 8),
{
    frame.len() == UDP_PAYLOAD_OFFSET + 8
}

/// Read the big-endian term that starts the UDP payload. Fails exactly when
/// the payload holds fewer than 8 bytes.
pub fn parse_term_in_payload(frame: &Vec<u8>) -> (r: Result<u64, ()>)
    ensures
        frame@.len() >= UDP_PAYLOAD_OFFSET + 8 ==> r == Ok::<u64, ()>(frame_term(frame@) as u64),
        frame@.len() < UDP_PAYLOAD_OFFSET + 8 ==> r == Err::<u64, ()>(()),
{
    if frame.len() < UDP_PAYLOAD_OFFSET + 8 {
        return Err(());
    }
    Ok(decode_term_at(frame.as_slice(), UDP_PAYLOAD_OFFSET))
}

/// Is there room for `len` bytes at `offset`?
pub fn range_exists(frame: &Vec<u8>, offset: usize, len: usize) -> (r: bool)
    ensures
        r == (offset + len <= frame@.len()),
{
    let n = frame.len();
    offset <= usize::MAX - len && offset + len <= n
}

/// Read the UDP (or TCP) destination port of the frame.
pub fn read_dst_port(frame: &Vec<u8>) -> (r: u16)
    requires
        frame@.len() >= 38,
    ensures
        r == dst_port_of(frame@),
{
    decode_be16_at(frame.as_slice(), 36)
}

/// Read the IPv4 source address of the frame, in host order.
pub fn read_src_ip(frame: &Vec<u8>) -> (r: u32)
    requires
        frame@.len() >= 30,
    ensures
        r == src_ip_of(frame@),
{
    decode_be32_at(frame.as_slice(), 26)
}

/// Build a UDP frame with the given addressing and payload, as the wire
/// format expects it: useful to a caller that replays a received datagram
/// through the packet handler.
pub fn build_udp_frame(
    src_mac: &Vec<u8>,
    dst_mac: &Vec<u8>,
    src_ip: u32,
    dst_ip: u32,
    src_port: u16,
    dst_port: u16,
    payload: &Vec<u8>,
) -> (r: Vec<u8>)
    requires
        src_mac@.len() == 6,
        dst_mac@.len() == 6,
    ensures
        r@.len() == UDP_PAYLOAD_OFFSET + payload@.len(),
        is_ipv4(r@),
        ip_proto(r@) == 17,
        eth_src_of(r@) == src_mac@,
        eth_dst_of(r@) == dst_mac@,
        src_ip_of(r@) == src_ip,
        dst_ip_of(r@) == dst_ip,
        src_port_of(r@) == src_port,
        dst_port_of(r@) == dst_port,
        payload_of(r@) == payload@,
{
    let mut f: Vec<u8> = Vec::new();
    let mut i: usize = 0;
    while i < 6
        invariant
            i <= 6,
            dst_mac@.len() == 6,
            f@.len() == i,
            forall|j: int| 0 <= j < i ==> f@[j] == dst_mac@[j],
        decreases 6 - i,
    {
        f.push(dst_mac[i]);
        i += 1;
    }
    let mut i2: usize = 0;
    while i2 < 6
        invariant
            i2 <= 6,
            src_mac@.len() == 6,
            dst_mac@.len() == 6,
            f@.len() == 6 + i2,
            forall|j: int| 0 <= j < 6 ==> f@[j] == dst_mac@[j],
            forall|j: int| 6 <= j < 6 + i2 ==> f@[j] == src_mac@[j - 6],
        decreases 6 - i2,
    {
        f.push(src_mac[i2]);
        i2 += 1;
    }
    f.push(0x08);
    f.push(0x00);
    f.push(0x45);
    f.push(0x00);
    let ip_len: u16 = if payload.len() <= 0xFFFF - 28 {
        28 + payload.len() as u16
    } else {
        0
    };
    f.push((ip_len / 0x100) as u8);
    f.push((ip_len % 0x100) as u8);
    f.push(0x00);
    f.push(0x00);
    f.push(0x00);
    f.push(0x00);
    f.push(0x40);
    f.push(17u8);
    f.push(0x00);
    f.push(0x00);
    f.push((src_ip / 0x100_0000) as u8);
    f.push((src_ip / 0x1_0000 % 0x100) as u8);
    f.push((src_ip / 0x100 % 0x100) as u8);
    f.push((src_ip % 0x100) as u8);
    f.push((dst_ip / 0x100_0000) as u8);
    f.push((dst_ip / 0x1_0000 % 0x100) as u8);
    f.push((dst_ip / 0x100 % 0x100) as u8);
    f.push((dst_ip % 0x100) as u8);
    f.push((src_port / 0x100) as u8);
    f.push((src_port % 0x100) as u8);
    f.push((dst_port / 0x100) as u8);
    f.push((dst_port % 0x100) as u8);
    let udp_len: u16 = if ip_len >= 20 {
        ip_len - 20
    } else {
        0
    };
    f.push((udp_len / 0x100) as u8);
    f.push((udp_len % 0x100) as u8);
    f.push(0x00);
    f.push(0x00);
    let ghost h = f@;
    proof {
        assert(h.len() == 42);
        assert(f@ =~= h + payload@.take(0));
    }
    let n = payload.len();
    let mut p: usize = 0;
    while p < n
        invariant
            p <= n,
            n == payload@.len(),
            h.len() == 42,
            f@ == h + payload@.take(p as int),
        decreases n - p,
    {
        f.push(payload[p]);
        proof {
            assert(f@ =~= h + payload@.take(p as int + 1));
        }
        p += 1;
    }
    proof {
        assert(payload@.take(n as int) =~= payload@);
        assert(f@ == h + payload@);
        assert(eth_dst_of(f@) =~= dst_mac@);
        assert(eth_src_of(f@) =~= src_mac@);
        assert(payload_of(f@) =~= payload@);
        assert((src_ip / 0x100_0000) as u8 as int * 0x100_0000 + (src_ip / 0x1_0000 % 0x100) as u8 as int
            * 0x1_0000 + (src_ip / 0x100 % 0x100) as u8 as int * 0x100 + (src_ip % 0x100) as u8 as int
            == src_ip) by (bit_vector);
        assert((dst_ip / 0x100_0000) as u8 as int * 0x100_0000 + (dst_ip / 0x1_0000 % 0x100) as u8 as int
            * 0x1_0000 + (dst_ip / 0x100 % 0x100) as u8 as int * 0x100 + (dst_ip % 0x100) as u8 as int
            == dst_ip) by (bit_vector);
        assert((src_port / 0x100) as u8 as int * 0x100 + (src_port % 0x100) as u8 as int == src_port)
            by (bit_vector);
        assert((dst_port / 0x100) as u8 as int * 0x100 + (dst_port % 0x100) as u8 as int == dst_port)
            by (bit_vector);
    }
    f
}

} // verus!
