//! Jitter draws for the election and leader timers, and the dotted IPv4
//! text form used by configuration and the admin surface.

use vstd::prelude::*;
use vstd::string::StringSliceAdditionalSpecFns;
use crate::config::ELECTION_TIMEOUT_JITTER_MAX_NS;
use crate::config::ELECTION_TIMEOUT_JITTER_MIN_NS;
use crate::config::LEADER_COMMUNICATION_JITTER_MAX_MS;
use crate::config::LEADER_COMMUNICATION_JITTER_MIN_MS;

verus! {

/// Is `c` an ASCII digit?
pub open spec fn is_digit(c: u8) -> bool {
    48 <= c <= 57
}

/// The numeric value of a run of digits, most significant first.
pub open spec fn seg_val(s: Seq<u8>) -> int
    decreases s.len(),
{
    if s.len() == 0 {
        0
    } else {
        seg_val(s.drop_last()) * 10 + (s.last() - 48)
    }
}

/// A valid dotted octet: one to three digits whose value fits in a byte.
pub open spec fn seg_ok(s: Seq<u8>) -> bool {
    &&& 1 <= s.len() <= 3
    &&& forall|i: int| 0 <= i < s.len() ==> is_digit(#[trigger] s[i])
    &&& seg_val(s) <= 255
}

/// Dots at `d1 < d2 < d3` split `s` into four valid octets.
pub open spec fn ip_split_at(s: Seq<u8>, d1: int, d2: int, d3: int) -> bool {
    &&& 0 <= d1 < d2 < d3 < s.len()
    &&& s[d1] == 46
    &&& s[d2] == 46
    &&& s[d3] == 46
    &&& seg_ok(s.subrange(0, d1))
    &&& seg_ok(s.subrange(d1 + 1, d2))
    &&& seg_ok(s.subrange(d2 + 1, d3))
    &&& seg_ok(s.subrange(d3 + 1, s.len() as int))
}

/// Is `s` a dotted IPv4 address?
pub open spec fn valid_ip_text(s: Seq<u8>) -> bool {
    exists|d1: int, d2: int, d3: int| ip_split_at(s, d1, d2, d3)
}

/// The positions of the three dots of a valid text.
pub open spec fn split_dots_of(s: Seq<u8>) -> (int, int, int) {
    choose|d1: int, d2: int, d3: int| ip_split_at(s, d1, d2, d3)
}

/// The address a valid dotted text denotes, as a host-order 32-bit value.
pub open spec fn ip_text_value(s: Seq<u8>) -> int {
    let (d1, d2, d3) = split_dots_of(s);
    seg_val(s.subrange(0, d1)) * 0x100_0000 + seg_val(s.subrange(d1 + 1, d2)) * 0x1_0000 + seg_val(
        s.subrange(d2 + 1, d3),
    ) * 0x100 + seg_val(s.subrange(d3 + 1, s.len() as int))
}

/// The value of a digit run is not negative.
pub proof fn lemma_seg_val_nonneg(s: Seq<u8>)
    requires
        forall|i: int| 0 <= i < s.len() ==> is_digit(#[trigger] s[i]),
    ensures
        seg_val(s) >= 0,
    decreases s.len(),
{
    if s.len() > 0 {
        lemma_seg_val_nonneg(s.drop_last());
    }
}

/// In a valid split, every dot of the text is one of the three split dots:
/// the four octets hold digits only.
pub proof fn lemma_split_dots(s: Seq<u8>, d1: int, d2: int, d3: int, p: int)
    requires
        ip_split_at(s, d1, d2, d3),
        0 <= p < s.len(),
        s[p] == 46,
    ensures
        p == d1 || p == d2 || p == d3,
{
    if p < d1 {
        assert(s.subrange(0, d1)[p] == s[p]);
        assert(is_digit(s.subrange(0, d1)[p]));
    } else if d1 < p < d2 {
        assert(s.subrange(d1 + 1, d2)[p - d1 - 1] == s[p]);
        assert(is_digit(s.subrange(d1 + 1, d2)[p - d1 - 1]));
    } else if d2 < p < d3 {
        assert(s.subrange(d2 + 1, d3)[p - d2 - 1] == s[p]);
        assert(is_digit(s.subrange(d2 + 1, d3)[p - d2 - 1]));
    } else if d3 < p {
        assert(s.subrange(d3 + 1, s.len() as int)[p - d3 - 1] == s[p]);
        assert(is_digit(s.subrange(d3 + 1, s.len() as int)[p - d3 - 1]));
    }
}

/// A text splits at most one way: the split dots are exactly its first,
/// second and third dot.
pub proof fn lemma_split_unique(s: Seq<u8>, a1: int, a2: int, a3: int, b1: int, b2: int, b3: int)
    requires
        ip_split_at(s, a1, a2, a3),
        ip_split_at(s, b1, b2, b3),
    ensures
        a1 == b1,
        a2 == b2,
        a3 == b3,
{
    lemma_split_dots(s, b1, b2, b3, a1);
    lemma_split_dots(s, b1, b2, b3, a2);
    lemma_split_dots(s, b1, b2, b3, a3);
    lemma_split_dots(s, a1, a2, a3, b1);
    lemma_split_dots(s, a1, a2, a3, b2);
    lemma_split_dots(s, a1, a2, a3, b3);
}

/// A witnessed split settles validity and pins the value of the text.
pub proof fn lemma_ip_text_value(s: Seq<u8>, d1: int, d2: int, d3: int)
    requires
        ip_split_at(s, d1, d2, d3),
    ensures
        valid_ip_text(s),
        ip_text_value(s) == seg_val(s.subrange(0, d1)) * 0x100_0000 + seg_val(
            s.subrange(d1 + 1, d2),
        ) * 0x1_0000 + seg_val(s.subrange(d2 + 1, d3)) * 0x100 + seg_val(
            s.subrange(d3 + 1, s.len() as int),
        ),
        0 <= ip_text_value(s) < 0x1_0000_0000,
{
    let (e1, e2, e3) = split_dots_of(s);
    assert(ip_split_at(s, e1, e2, e3));
    lemma_split_unique(s, e1, e2, e3, d1, d2, d3);
    lemma_seg_val_nonneg(s.subrange(0, d1));
    lemma_seg_val_nonneg(s.subrange(d1 + 1, d2));
    lemma_seg_val_nonneg(s.subrange(d2 + 1, d3));
    lemma_seg_val_nonneg(s.subrange(d3 + 1, s.len() as int));
}

/// Parse the digit run `b[from..to]` as an octet. Fails exactly when the
/// run is not a valid octet.
fn parse_octet(b: &[u8], from: usize, to: usize) -> (r: Result<u8, ()>)
    requires
        from <= to <= b@.len(),
    ensures
        seg_ok(b@.subrange(from as int, to as int)) ==> r == Ok::<u8, ()>(
            seg_val(b@.subrange(from as int, to as int)) as u8,
        ),
        !seg_ok(b@.subrange(from as int, to as int)) ==> r == Err::<u8, ()>(()),
{
    let ghost seg = b@.subrange(from as int, to as int);
    if to - from < 1 || to - from > 3 {
        return Err(());
    }
    let mut val: u16 = 0;
    let mut i: usize = from;
    while i < to
        invariant
            from <= i <= to <= b@.len(),
            1 <= to - from <= 3,
            seg == b@.subrange(from as int, to as int),
            seg.len() == to - from,
            forall|j: int| 0 <= j < i - from ==> is_digit(#[trigger] seg[j]),
            val == seg_val(seg.take(i - from)),
            i - from == 0 ==> val == 0,
            i - from == 1 ==> val <= 9,
            i - from == 2 ==> val <= 99,
            i - from == 3 ==> val <= 999,
        decreases to - i,
    {
        let c = b[i];
        proof {
            assert(seg[i - from] == c);
        }
        if c < 48 || c > 57 {
            proof {
                assert(!is_digit(seg[i - from]));
            }
            return Err(());
        }
        proof {
            assert(seg.take(i - from + 1).drop_last() =~= seg.take(i - from));
            assert(seg.take(i - from + 1).last() == seg[i - from]);
        }
        val = val * 10 + (c - 48) as u16;
        i += 1;
    }
    proof {
        assert(seg.take(to - from) =~= seg);
    }
    if val > 255 {
        return Err(());
    }
    Ok(val as u8)
}

/// Convert a dotted IPv4 address to its host-order 32-bit value. Fails
/// exactly when the text is not of the form `a.b.c.d` with each part one to
/// three digits valuing at most 255.
pub fn ip_string_to_u32(ip_str: &str) -> (r: Result<u32, ()>)
    ensures
        valid_ip_text(ip_str.spec_bytes()) ==> r == Ok::<u32, ()>(
            ip_text_value(ip_str.spec_bytes()) as u32,
        ),
        !valid_ip_text(ip_str.spec_bytes()) ==> r == Err::<u32, ()>(()),
{
    let b = ip_str.as_bytes();
    ip_bytes_to_u32(b)
}

/// Convert a dotted IPv4 address, given as bytes, to its host-order 32-bit
/// value. Fails exactly when the bytes are not a valid dotted address.
pub fn ip_bytes_to_u32(b: &[u8]) -> (r: Result<u32, ()>)
    ensures
        valid_ip_text(b@) ==> r == Ok::<u32, ()>(ip_text_value(b@) as u32),
        !valid_ip_text(b@) ==> r == Err::<u32, ()>(()),
{
    let n = b.len();
    let mut dots: Vec<usize> = Vec::new();
    let mut i: usize = 0;
    while i < n
        invariant
            i <= n,
            n == b@.len(),
            dots@.len() <= 3,
            forall|j: int| 0 <= j < dots@.len() ==> 0 <= #[trigger] dots@[j] < i,
            forall|j: int| 0 <= j < dots@.len() ==> b@[dots@[j] as int] == 46,
            forall|j: int, k: int| 0 <= j < k < dots@.len() ==> dots@[j] < dots@[k],
            forall|p: int|
                0 <= p < i && b@[p] == 46 ==> exists|j: int|
                    0 <= j < dots@.len() && dots@[j] == p,
        decreases n - i,
    {
        let ghost dots0 = dots@;
        if b[i] == 46 {
            if dots.len() == 3 {
                // a fourth dot: no split can absorb it
                proof {
                    if valid_ip_text(b@) {
                        let (d1, d2, d3) = split_dots_of(b@);
                        assert(ip_split_at(b@, d1, d2, d3));
                        let q0 = dots@[0] as int;
                        let q1 = dots@[1] as int;
                        let q2 = dots@[2] as int;
                        lemma_split_dots(b@, d1, d2, d3, q0);
                        lemma_split_dots(b@, d1, d2, d3, q1);
                        lemma_split_dots(b@, d1, d2, d3, q2);
                        lemma_split_dots(b@, d1, d2, d3, i as int);
                    }
                }
                return Err(());
            }
            dots.push(i);
        }
        proof {
            assert forall|p: int| 0 <= p < i + 1 && b@[p] == 46 implies exists|j: int|
                0 <= j < dots@.len() && dots@[j] == p by {
                if p == i {
                    assert(dots@[dots@.len() - 1] == p);
                } else {
                    let j = choose|j: int| 0 <= j < dots0.len() && dots0[j] == p;
                    assert(dots@[j] == p);
                }
            }
        }
        i += 1;
    }
    if dots.len() != 3 {
        // fewer than three dots: a split needs three distinct ones
        proof {
            if valid_ip_text(b@) {
                let (d1, d2, d3) = split_dots_of(b@);
                assert(ip_split_at(b@, d1, d2, d3));
                let j1 = choose|j: int| 0 <= j < dots@.len() && dots@[j] == d1;
                let j2 = choose|j: int| 0 <= j < dots@.len() && dots@[j] == d2;
                let j3 = choose|j: int| 0 <= j < dots@.len() && dots@[j] == d3;
                assert(false);
            }
        }
        return Err(());
    }
    let d1 = dots[0];
    let d2 = dots[1];
    let d3 = dots[2];
    proof {
        // any split of this text uses exactly these three dots
        if valid_ip_text(b@) {
            let (e1, e2, e3) = split_dots_of(b@);
            assert(ip_split_at(b@, e1, e2, e3));
            lemma_split_dots(b@, e1, e2, e3, d1 as int);
            lemma_split_dots(b@, e1, e2, e3, d2 as int);
            lemma_split_dots(b@, e1, e2, e3, d3 as int);
            let k1 = choose|j: int| 0 <= j < dots@.len() && dots@[j] == e1;
            let k2 = choose|j: int| 0 <= j < dots@.len() && dots@[j] == e2;
            let k3 = choose|j: int| 0 <= j < dots@.len() && dots@[j] == e3;
            assert(e1 == d1 && e2 == d2 && e3 == d3);
            assert(ip_split_at(b@, d1 as int, d2 as int, d3 as int));
        }
    }
    let a = match parse_octet(b, 0, d1) {
        Ok(x) => x,
        Err(_) => {
            return Err(());
        },
    };
    let c2 = match parse_octet(b, d1 + 1, d2) {
        Ok(x) => x,
        Err(_) => {
            return Err(());
        },
    };
    let c3 = match parse_octet(b, d2 + 1, d3) {
        Ok(x) => x,
        Err(_) => {
            return Err(());
        },
    };
    let c4 = match parse_octet(b, d3 + 1, n) {
        Ok(x) => x,
        Err(_) => {
            return Err(());
        },
    };
    proof {
        assert(ip_split_at(b@, d1 as int, d2 as int, d3 as int));
        lemma_ip_text_value(b@, d1 as int, d2 as int, d3 as int);
        let s0 = b@.subrange(0, d1 as int);
        let s1 = b@.subrange(d1 as int + 1, d2 as int);
        let s2 = b@.subrange(d2 as int + 1, d3 as int);
        let s3 = b@.subrange(d3 as int + 1, n as int);
        lemma_seg_val_nonneg(s0);
        lemma_seg_val_nonneg(s1);
        lemma_seg_val_nonneg(s2);
        lemma_seg_val_nonneg(s3);
        assert(a as u32 == seg_val(s0));
        assert(c2 as u32 == seg_val(s1));
        assert(c3 as u32 == seg_val(s2));
        assert(c4 as u32 == seg_val(s3));
    }
    Ok((a as u32) * 0x100_0000 + (c2 as u32) * 0x1_0000 + (c3 as u32) * 0x100 + (c4 as u32))
}

/// Relies on rand's `thread_rng().gen_range(lo..hi)`: a draw from the
/// half-open range `lo..hi`, uniform over it; the call panics only on an
/// empty range.
#[verifier::external_body]
fn draw_uniform_u64(lo: u64, hi: u64) -> (r: u64)
    requires
        lo < hi,
    ensures
        lo <= r < hi,
{
    rand::Rng::gen_range(&mut rand::thread_rng(), lo..hi)
}

/// Jitter added to the base election timeout, in nanoseconds.
pub fn get_election_timeout_jitter_ns() -> (r: u64)
    ensures
        ELECTION_TIMEOUT_JITTER_MIN_NS <= r < ELECTION_TIMEOUT_JITTER_MAX_NS,
{
    draw_uniform_u64(ELECTION_TIMEOUT_JITTER_MIN_NS, ELECTION_TIMEOUT_JITTER_MAX_NS)
}

/// Jitter added to the leader communication timeout, in milliseconds.
pub fn get_leader_communication_jitter() -> (r: u64)
    ensures
        LEADER_COMMUNICATION_JITTER_MIN_MS <= r < LEADER_COMMUNICATION_JITTER_MAX_MS,
{
    draw_uniform_u64(LEADER_COMMUNICATION_JITTER_MIN_MS, LEADER_COMMUNICATION_JITTER_MAX_MS)
}

} // verus!
