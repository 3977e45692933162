//! Hosts and ports: host names, IPv4 addresses and bracketed IPv6 addresses.
use vstd::prelude::*;
use crate::error::SipParserError;
use crate::number::{all_digits, digits_value, digits_value_upto};
use crate::scanner::{Bytes, CharClass, byte_at, scan_while, lemma_scan_while, lemma_scan_ascii};
use crate::ipv6::{Ipv6Addr, parse_ipv6, spec_ipv6};
use crate::text::{text, ascii_string};

verus! {

/// An IPv4 address.
#[derive(Debug, Clone, Copy, PartialEq, Eq)]
pub struct Ipv4Addr {
    pub octets: [u8; 4],
}

impl Ipv4Addr {
    pub fn new(a: u8, b: u8, c: u8, d: u8) -> (r: Self)
        ensures
            r.octets@ == seq![a, b, c, d],
    {
        Ipv4Addr { octets: [a, b, c, d] }
    }
}

/// An IP address.
#[derive(Debug, Clone, Copy, PartialEq, Eq)]
pub enum IpAddr {
    V4(Ipv4Addr),
    V6(Ipv6Addr),
}

/// A host: a domain name or an IP address.
#[derive(Debug, PartialEq, Eq)]
pub enum Host {
    DomainName(String),
    IpAddr(IpAddr),
}

/// What a host is, as text and numbers.
pub enum HostView {
    DomainName(Seq<char>),
    V4(Seq<u8>),
    V6(Seq<u16>),
}

impl View for Host {
    type V = HostView;

    open spec fn view(&self) -> HostView {
        match self {
            Host::DomainName(n) => HostView::DomainName(n@),
            Host::IpAddr(IpAddr::V4(a)) => HostView::V4(a.octets@),
            Host::IpAddr(IpAddr::V6(a)) => HostView::V6(a.segments@),
        }
    }
}

/// A host with an optional port.
#[derive(Debug, PartialEq, Eq)]
pub struct HostPort {
    pub host: Host,
    pub port: Option<u32>,
}

impl View for HostPort {
    type V = (HostView, Option<u32>);

    open spec fn view(&self) -> (HostView, Option<u32>) {
        (self.host@, self.port)
    }
}

/// A decimal octet of an IPv4 address that starts at `i`: one to three
/// digits, with no leading zero, of value at most 255; with its end.
pub open spec fn spec_octet(h: Seq<u8>, i: int) -> Option<(u8, int)> {
    let j = scan_while(h, i, CharClass::Digit);
    let d = h.subrange(i, j);
    if 1 <= d.len() <= 3 && (d.len() == 1 || d[0] != 0x30u8) && digits_value(d) <= 255 {
        Some((digits_value(d) as u8, j))
    } else {
        None
    }
}

/// The octet at `i` followed by a dot, with the position after the dot.
pub open spec fn spec_octet_dot(h: Seq<u8>, i: int) -> Option<(u8, int)> {
    match spec_octet(h, i) {
        Some((v, j)) => if byte_at(h, j) == Some(0x2eu8) {
            Some((v, j + 1))
        } else {
            None
        },
        None => None,
    }
}

/// The octets of `h` where it is a dotted-decimal IPv4 address, and nothing more.
pub open spec fn spec_ipv4(h: Seq<u8>) -> Option<Seq<u8>> {
    match spec_octet_dot(h, 0) {
        Some((a, j1)) => match spec_octet_dot(h, j1) {
            Some((b, j2)) => match spec_octet_dot(h, j2) {
                Some((c, j3)) => match spec_octet(h, j3) {
                    Some((d, j4)) => if j4 == h.len() {
                        Some(seq![a, b, c, d])
                    } else {
                        None
                    },
                    None => None,
                },
                None => None,
            },
            None => None,
        },
        None => None,
    }
}

/// Reads a decimal octet.
fn parse_octet(b: &mut Bytes) -> (r: Option<u8>)
    ensures
        final(b).data() == old(b).data(),
        old(b).pos() <= final(b).pos() <= final(b).data().len(),
        r == (match spec_octet(old(b).data(), old(b).pos()) {
            Some((v, _)) => Some(v),
            None => None,
        }),
        r is Some ==> final(b).pos() == (spec_octet(old(b).data(), old(b).pos())->0).1,
{
    let i = b.position();
    let d = b.read_while(CharClass::Digit);
    proof {
        lemma_scan_while(b.data(), i as int, CharClass::Digit);
        assert(all_digits(d@));
    }
    if d.len() < 1 || d.len() > 3 || (d.len() > 1 && d[0] == 0x30) {
        return None;
    }
    match digits_value_upto(d, 255) {
        Some(v) => Some(v as u8),
        None => None,
    }
}

/// Reads a decimal octet and the dot after it.
fn parse_octet_dot(b: &mut Bytes) -> (r: Option<u8>)
    ensures
        final(b).data() == old(b).data(),
        old(b).pos() <= final(b).pos() <= final(b).data().len(),
        r == (match spec_octet_dot(old(b).data(), old(b).pos()) {
            Some((v, _)) => Some(v),
            None => None,
        }),
        r is Some ==> final(b).pos() == (spec_octet_dot(old(b).data(), old(b).pos())->0).1,
{
    let v = parse_octet(b)?;
    if b.peek() == Some(0x2eu8) {
        let _ = b.next();
        Some(v)
    } else {
        None
    }
}

/// The IPv4 address that `h` is in dotted-decimal form, if it is one.
pub fn parse_ipv4(h: &[u8]) -> (r: Option<Ipv4Addr>)
    ensures
        r is Some <==> spec_ipv4(h@) is Some,
        r matches Some(a) ==> a.octets@ == spec_ipv4(h@)->0,
{
    let mut b = Bytes::new(h);
    let a = parse_octet_dot(&mut b)?;
    let c1 = parse_octet_dot(&mut b)?;
    let c2 = parse_octet_dot(&mut b)?;
    let c3 = parse_octet(&mut b)?;
    if b.position() == h.len() {
        Some(Ipv4Addr::new(a, c1, c2, c3))
    } else {
        None
    }
}

/// A host that starts at `i`: `[`, an IPv6 address, `]`; or a host name
/// (one or more of its characters), an IPv4 address where it has that form.
/// With the position where the reading stopped.
pub open spec fn spec_host(s: Seq<u8>, i: int) -> (Result<HostView, SipParserError>, int) {
    if byte_at(s, i) == Some(0x5bu8) {
        let j = scan_while(s, i + 1, CharClass::Ipv6);
        if byte_at(s, j) == Some(0x5du8) {
            match spec_ipv6(s.subrange(i + 1, j)) {
                Some(g) => (Ok(HostView::V6(g)), j + 1),
                None => (Err(SipParserError::InvalidHost), j + 1),
            }
        } else {
            (Err(SipParserError::InvalidHost), j)
        }
    } else {
        let j = scan_while(s, i, CharClass::HostName);
        if j == i {
            (Err(SipParserError::InvalidHost), j)
        } else {
            match spec_ipv4(s.subrange(i, j)) {
                Some(o) => (Ok(HostView::V4(o)), j),
                None => (Ok(HostView::DomainName(text(s.subrange(i, j)))), j),
            }
        }
    }
}

/// An optional port that starts at `i`: `:` and one or more digits of value
/// at most 65535. With the position where the reading stopped.
pub open spec fn spec_port(s: Seq<u8>, i: int) -> (Result<Option<u32>, SipParserError>, int) {
    if byte_at(s, i) == Some(0x3au8) {
        let k = scan_while(s, i + 1, CharClass::Digit);
        let d = s.subrange(i + 1, k);
        if d.len() > 0 && digits_value(d) <= 0xffff {
            (Ok(Some(digits_value(d) as u32)), k)
        } else {
            (Err(SipParserError::InvalidPort), k)
        }
    } else {
        (Ok(None), i)
    }
}

/// A host and an optional port.
pub open spec fn spec_host_port(s: Seq<u8>, i: int) -> (Result<(HostView, Option<u32>), SipParserError>, int) {
    match spec_host(s, i) {
        (Ok(h), j) => match spec_port(s, j) {
            (Ok(p), k) => (Ok((h, p)), k),
            (Err(e), k) => (Err(e), k),
        },
        (Err(e), j) => (Err(e), j),
    }
}

/// Reads a host.
pub fn parse_host(bytes: &mut Bytes) -> (r: Result<Host, SipParserError>)
    ensures
        final(bytes).data() == old(bytes).data(),
        old(bytes).pos() <= final(bytes).pos() <= final(bytes).data().len(),
        final(bytes).pos() == spec_host(old(bytes).data(), old(bytes).pos()).1,
        r is Ok <==> spec_host(old(bytes).data(), old(bytes).pos()).0 is Ok,
        r matches Ok(h) ==> h@ == spec_host(old(bytes).data(), old(bytes).pos()).0->Ok_0,
        r matches Err(e) ==> spec_host(old(bytes).data(), old(bytes).pos()).0 == Err::<HostView, SipParserError>(e),
{
    let i = bytes.position();
    if bytes.peek() == Some(0x5bu8) {
        let _ = bytes.next();
        let t = bytes.read_while(CharClass::Ipv6);
        if bytes.peek() == Some(0x5du8) {
            let _ = bytes.next();
            match parse_ipv6(t) {
                Some(a) => Ok(Host::IpAddr(IpAddr::V6(a))),
                None => Err(SipParserError::InvalidHost),
            }
        } else {
            Err(SipParserError::InvalidHost)
        }
    } else {
        let h = bytes.read_while(CharClass::HostName);
        proof {
            lemma_scan_while(bytes.data(), i as int, CharClass::HostName);
            lemma_scan_ascii(bytes.data(), i as int, CharClass::HostName);
        }
        if h.len() == 0 {
            return Err(SipParserError::InvalidHost);
        }
        match parse_ipv4(h) {
            Some(a) => Ok(Host::IpAddr(IpAddr::V4(a))),
            None => Ok(Host::DomainName(ascii_string(h))),
        }
    }
}

/// Reads an optional port: `:` and its digits.
pub fn parse_port(bytes: &mut Bytes) -> (r: Result<Option<u32>, SipParserError>)
    ensures
        final(bytes).data() == old(bytes).data(),
        old(bytes).pos() <= final(bytes).pos() <= final(bytes).data().len(),
        (r, final(bytes).pos()) == spec_port(old(bytes).data(), old(bytes).pos()),
{
    let _ = bytes.position();
    if bytes.peek() == Some(0x3au8) {
        let _ = bytes.next();
        let j = bytes.position();
        let d = bytes.read_while(CharClass::Digit);
        proof {
            lemma_scan_while(bytes.data(), j as int, CharClass::Digit);
            assert(all_digits(d@));
        }
        match digits_value_upto(d, 0xffff) {
            Some(v) => Ok(Some(v)),
            None => Err(SipParserError::InvalidPort),
        }
    } else {
        Ok(None)
    }
}

/// Reads a host and an optional port.
pub fn parse_host_port(bytes: &mut Bytes) -> (r: Result<HostPort, SipParserError>)
    ensures
        final(bytes).data() == old(bytes).data(),
        old(bytes).pos() <= final(bytes).pos() <= final(bytes).data().len(),
        final(bytes).pos() == spec_host_port(old(bytes).data(), old(bytes).pos()).1,
        r is Ok <==> spec_host_port(old(bytes).data(), old(bytes).pos()).0 is Ok,
        r matches Ok(hp) ==> hp@ == spec_host_port(old(bytes).data(), old(bytes).pos()).0->Ok_0,
        r matches Err(e) ==> spec_host_port(old(bytes).data(), old(bytes).pos()).0 == Err::<(HostView, Option<u32>), SipParserError>(e),
{
    let host = parse_host(bytes)?;
    let port = parse_port(bytes)?;
    Ok(HostPort { host, port })
}

} // verus!
