//! IPv6 addresses in text form (RFC 4291, section 2.2): eight groups of one
//! to four hex digits separated by `:`, one run of zero groups that `::` may
//! stand for, and an IPv4 address in dotted-decimal form for the last two
//! groups.
use vstd::prelude::*;
use crate::chars::{is_digit, spec_is_digit, spec_is_hex};
use crate::host::{parse_ipv4, spec_ipv4};
use crate::scanner::{Bytes, CharClass, scan_while, lemma_scan_while};

verus! {

/// An IPv6 address: its eight 16-bit groups.
#[derive(Debug, Clone, Copy, PartialEq, Eq)]
pub struct Ipv6Addr {
    pub segments: [u16; 8],
}

/// The value of a hexadecimal digit.
pub open spec fn hex_digit_value(b: u8) -> nat {
    if spec_is_digit(b) {
        (b - 0x30) as nat
    } else if 0x61 <= b && b <= 0x66 {
        (b - 0x61 + 10) as nat
    } else {
        (b - 0x41 + 10) as nat
    }
}

/// The value of a string of hexadecimal digits.
pub open spec fn hex_value(d: Seq<u8>) -> nat
    decreases d.len(),
{
    if d.len() == 0 {
        0
    } else {
        hex_value(d.drop_last()) * 16 + hex_digit_value(d.last())
    }
}

/// The two groups that an IPv4 address stands for in an IPv6 address.
pub open spec fn v4_groups(o: Seq<u8>) -> Seq<u16> {
    seq![(o[0] * 256 + o[1]) as u16, (o[2] * 256 + o[3]) as u16]
}

/// The groups of `h` from `i` up to `end`, separated by `:`: each one to four
/// hex digits, and where `v4`, the last may be an IPv4 address (two groups).
/// Nothing where `i` is at or past `end`.
pub open spec fn spec_v6_groups(h: Seq<u8>, i: int, end: int, v4: bool) -> Option<Seq<u16>>
    decreases end - i,
{
    if i < 0 || i >= end {
        Some(seq![])
    } else {
        let j = scan_while(h, i, CharClass::Hex);
        if j < end && h[j] == 0x2eu8 {
            if v4 {
                match spec_ipv4(h.subrange(i, end)) {
                    Some(o) => Some(v4_groups(o)),
                    None => None,
                }
            } else {
                None
            }
        } else if 1 <= j - i <= 4 && j <= end {
            let v = hex_value(h.subrange(i, j)) as u16;
            if j == end {
                Some(seq![v])
            } else if h[j] == 0x3au8 && j + 1 < end {
                match spec_v6_groups(h, j + 1, end, v4) {
                    Some(g) => Some(seq![v] + g),
                    None => None,
                }
            } else {
                None
            }
        } else {
            None
        }
    }
}

/// The position of the first `::` at or after `i`, or the end of `h`.
pub open spec fn spec_double_colon(h: Seq<u8>, i: int) -> int
    decreases h.len() - i,
{
    if 0 <= i && i + 1 < h.len() {
        if h[i] == 0x3au8 && h[i + 1] == 0x3au8 {
            i
        } else {
            spec_double_colon(h, i + 1)
        }
    } else {
        h.len() as int
    }
}

/// The groups of the IPv6 address that `h` is in text form, if it is one:
/// without `::`, eight groups; with it, the groups before (no IPv4 address
/// there) and after it, seven at most, the zero groups filling the rest.
pub open spec fn spec_ipv6(h: Seq<u8>) -> Option<Seq<u16>> {
    let k = spec_double_colon(h, 0);
    if k >= h.len() {
        match spec_v6_groups(h, 0, h.len() as int, true) {
            Some(g) => if g.len() == 8 {
                Some(g)
            } else {
                None
            },
            None => None,
        }
    } else {
        match (spec_v6_groups(h, 0, k, false), spec_v6_groups(h, k + 2, h.len() as int, true)) {
            (Some(a), Some(b)) => if a.len() + b.len() <= 7 {
                Some(a + Seq::new((8 - a.len() - b.len()) as nat, |n: int| 0u16) + b)
            } else {
                None
            },
            _ => None,
        }
    }
}

/// The value of one to four hex digits.
fn hex_value_exec(d: &[u8]) -> (v: u16)
    requires
        d@.len() <= 4,
        forall|k: int| 0 <= k < d@.len() ==> spec_is_hex(#[trigger] d@[k]),
    ensures
        v == hex_value(d@),
{
    let mut acc: u32 = 0;
    let mut k: usize = 0;
    while k < d.len()
        invariant
            k <= d@.len() <= 4,
            forall|j: int| 0 <= j < d@.len() ==> spec_is_hex(#[trigger] d@[j]),
            acc == hex_value(d@.take(k as int)),
            k == 0 ==> acc < 1,
            k == 1 ==> acc < 16,
            k == 2 ==> acc < 256,
            k == 3 ==> acc < 4096,
            k == 4 ==> acc < 65536,
        decreases d@.len() - k,
    {
        let b = d[k];
        let dv: u32 = if is_digit(b) {
            (b - 0x30) as u32
        } else if 0x61 <= b && b <= 0x66 {
            (b - 0x61 + 10) as u32
        } else {
            (b - 0x41 + 10) as u32
        };
        proof {
            assert(spec_is_hex(d@[k as int]));
            assert(d@.take(k + 1).drop_last() =~= d@.take(k as int));
        }
        acc = acc * 16 + dv;
        k = k + 1;
    }
    proof {
        assert(d@.take(k as int) =~= d@);
    }
    acc as u16
}

/// What has been read, put before the groups that follow.
pub open spec fn prepend_groups(acc: Seq<u16>, r: Option<Seq<u16>>) -> Option<Seq<u16>> {
    match r {
        Some(g) => Some(acc + g),
        None => None,
    }
}

/// The groups of `h` from `start` up to `end`.
fn parse_v6_groups(h: &[u8], start: usize, end: usize, v4: bool) -> (r: Option<Vec<u16>>)
    requires
        start <= end <= h@.len(),
    ensures
        match r {
            Some(g) => spec_v6_groups(h@, start as int, end as int, v4) == Some(g@),
            None => spec_v6_groups(h@, start as int, end as int, v4) is None,
        },
{
    let mut out: Vec<u16> = Vec::new();
    if start >= end {
        return Some(out);
    }
    let mut b = Bytes::new(h);
    b.advance(start);
    loop
        invariant
            b.data() == h@,
            start <= b.pos() < end <= h@.len(),
            spec_v6_groups(h@, start as int, end as int, v4) == prepend_groups(
                out@,
                spec_v6_groups(h@, b.pos(), end as int, v4),
            ),
        decreases end - b.pos(),
    {
        let i = b.position();
        let d = b.read_while(CharClass::Hex);
        let j = b.position();
        proof {
            lemma_scan_while(h@, i as int, CharClass::Hex);
        }
        if j < end && h[j] == 0x2e {
            if v4 {
                let rest = vstd::slice::slice_subrange(h, i, end);
                match parse_ipv4(rest) {
                    Some(a) => {
                        let g1 = (a.octets[0] as u16) * 256 + (a.octets[1] as u16);
                        let g2 = (a.octets[2] as u16) * 256 + (a.octets[3] as u16);
                        let ghost o0 = out@;
                        out.push(g1);
                        out.push(g2);
                        proof {
                            assert(out@ =~= o0 + v4_groups(a.octets@));
                        }
                        return Some(out);
                    },
                    None => return None,
                }
            } else {
                return None;
            }
        } else if j - i >= 1 && j - i <= 4 && j <= end {
            let v = hex_value_exec(d);
            let ghost o0 = out@;
            out.push(v);
            if j == end {
                proof {
                    assert(out@ =~= o0 + seq![v]);
                }
                return Some(out);
            } else if h[j] == 0x3a && j + 1 < end {
                let _ = b.next();
                proof {
                    let r = spec_v6_groups(h@, j + 1, end as int, v4);
                    match r {
                        Some(g) => {
                            assert(o0 + (seq![v] + g) =~= out@ + g);
                        },
                        None => {},
                    }
                }
            } else {
                return None;
            }
        } else {
            return None;
        }
    }
}

/// The position of the first `::` in `h`, or its length.
fn double_colon(h: &[u8]) -> (k: usize)
    ensures
        k == spec_double_colon(h@, 0),
{
    let mut i: usize = 0;
    while h.len() - i > 1
        invariant
            i <= h@.len(),
            spec_double_colon(h@, i as int) == spec_double_colon(h@, 0),
        decreases h@.len() - i,
    {
        if h[i] == 0x3a && h[i + 1] == 0x3a {
            return i;
        }
        i = i + 1;
    }
    h.len()
}

/// The IPv6 address that `h` is in text form, if it is one.
pub fn parse_ipv6(h: &[u8]) -> (r: Option<Ipv6Addr>)
    ensures
        r is Some <==> spec_ipv6(h@) is Some,
        r matches Some(a) ==> a.segments@ == spec_ipv6(h@)->0,
{
    let k = double_colon(h);
    proof {
        lemma_double_colon_bound(h@, 0);
    }
    if k >= h.len() {
        let g = parse_v6_groups(h, 0, h.len(), true)?;
        if g.len() == 8 {
            let a = Ipv6Addr { segments: [g[0], g[1], g[2], g[3], g[4], g[5], g[6], g[7]] };
            proof {
                assert(a.segments@ =~= g@);
            }
            Some(a)
        } else {
            None
        }
    } else {
        let a = parse_v6_groups(h, 0, k, false)?;
        let b = parse_v6_groups(h, k + 2, h.len(), true)?;
        if a.len() <= 7 && b.len() <= 7 - a.len() {
            let mut seg: [u16; 8] = [0; 8];
            let zeros = 8 - a.len() - b.len();
            let mut n: usize = 0;
            while n < a.len()
                invariant
                    n <= a@.len(),
                    a@.len() + b@.len() <= 7,
                    seg@.len() == 8,
                    forall|m: int| 0 <= m < n ==> seg@[m] == a@[m],
                    forall|m: int| n <= m < 8 ==> seg@[m] == 0,
                decreases a@.len() - n,
            {
                seg[n] = a[n];
                n = n + 1;
            }
            let mut t: usize = 0;
            while t < b.len()
                invariant
                    t <= b@.len(),
                    a@.len() + b@.len() <= 7,
                    zeros == 8 - a@.len() - b@.len(),
                    seg@.len() == 8,
                    forall|m: int| 0 <= m < a@.len() ==> seg@[m] == a@[m],
                    forall|m: int| a@.len() <= m < a@.len() + zeros ==> seg@[m] == 0,
                    forall|m: int| 0 <= m < t ==> seg@[a@.len() + zeros + m] == b@[m],
                    forall|m: int| a@.len() + zeros + t <= m < 8 ==> seg@[m] == 0,
                decreases b@.len() - t,
            {
                seg[a.len() + zeros + t] = b[t];
                t = t + 1;
            }
            let r = Ipv6Addr { segments: seg };
            proof {
                let z = Seq::new(zeros as nat, |n: int| 0u16);
                assert(r.segments@ =~= a@ + z + b@);
            }
            Some(r)
        } else {
            None
        }
    }
}

/// The first `::` is within `h`, or at its end.
proof fn lemma_double_colon_bound(h: Seq<u8>, i: int)
    requires
        0 <= i,
    ensures
        spec_double_colon(h, i) <= h.len(),
        spec_double_colon(h, i) < h.len() ==> spec_double_colon(h, i) + 2 <= h.len(),
    decreases h.len() - i,
{
    if i + 1 < h.len() {
        if !(h[i] == 0x3au8 && h[i + 1] == 0x3au8) {
            lemma_double_colon_bound(h, i + 1);
        }
    }
}

} // verus!
