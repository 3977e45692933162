//! Properties that hold across the parsers and the collections.
use vstd::prelude::*;
use crate::chars::{spec_eq_ignore_case, spec_is_digit, spec_to_lower};
use crate::error::SipParserError;
use crate::headers::auth::{AuthParam, challenge_keys, credential_keys, digest_challenge_of, digest_credential_of};
use crate::headers::content_type::ContentType;
use crate::headers::priority::Priority;
use crate::host::{HostView, spec_host, spec_host_port, spec_ipv4, spec_octet, spec_port};
use crate::number::digits_value;
use crate::params::{drop_names, lookup, params_map, params_of, spec_param, spec_params};
use crate::parser::spec_transport;
use crate::request::{MethodView, spec_method};
use crate::scanner::{CharClass, lemma_scan_over, scan_while};
use crate::text::text;
use crate::uri::{Scheme, UriView, sip_colon, spec_scheme, spec_uri, spec_uri_headers, spec_userinfo};

verus! {

/// Reading a name back after setting it gives the value set, and setting a
/// name leaves every other name as it was (what `Params::set` and
/// `Params::get` promise, stated over the collection's map).
pub proof fn law_params_get_after_set(
    m: Map<Seq<char>, Option<Seq<char>>>,
    name: Seq<char>,
    value: Option<Seq<char>>,
    other: Seq<char>,
)
    ensures
        lookup(m.insert(name, value), name) == value,
        other != name ==> lookup(m.insert(name, value), other) == lookup(m, other),
{
}

/// In a list of parameters, the value of a name is that of its last
/// occurrence: a later occurrence replaces an earlier one.
pub proof fn law_params_last_occurrence_wins(
    l: Seq<(Seq<char>, Option<Seq<char>>)>,
    p: (Seq<char>, Option<Seq<char>>),
)
    ensures
        lookup(params_map(l.push(p)), p.0) == p.1,
        forall|k: Seq<char>| k != p.0 ==> lookup(params_map(l.push(p)), k) == lookup(params_map(l), k),
{
    assert(l.push(p).drop_last() =~= l);
}

/// Equality up to ASCII case is an equivalence: reflexive, symmetric and
/// transitive.
pub proof fn law_eq_ignore_case_equivalence(a: Seq<u8>, b: Seq<u8>, c: Seq<u8>)
    ensures
        spec_eq_ignore_case(a, a),
        spec_eq_ignore_case(a, b) ==> spec_eq_ignore_case(b, a),
        spec_eq_ignore_case(a, b) && spec_eq_ignore_case(b, c) ==> spec_eq_ignore_case(a, c),
{
    if spec_eq_ignore_case(a, b) && spec_eq_ignore_case(b, c) {
        assert forall|k: int| 0 <= k < a.len() implies spec_to_lower(#[trigger] a[k]) == spec_to_lower(c[k]) by {
            assert(spec_to_lower(a[k]) == spec_to_lower(b[k]));
            assert(spec_to_lower(b[k]) == spec_to_lower(c[k]));
        }
    }
}

/// A transport's name is recognised in any case: names equal up to case
/// stand for the same transport.
pub proof fn law_transport_case_insensitive(a: Seq<u8>, b: Seq<u8>)
    requires
        spec_eq_ignore_case(a, b),
    ensures
        spec_transport(a) == spec_transport(b),
{
    let names = seq![
        seq![0x55u8, 0x44u8, 0x50u8],
        seq![0x54u8, 0x43u8, 0x50u8],
        seq![0x54u8, 0x4cu8, 0x53u8],
        seq![0x53u8, 0x43u8, 0x54u8, 0x50u8],
        seq![0x57u8, 0x53u8],
        seq![0x57u8, 0x53u8, 0x53u8],
    ];
    assert forall|k: int| 0 <= k < names.len() implies spec_eq_ignore_case(a, #[trigger] names[k])
        == spec_eq_ignore_case(b, names[k]) by {
        law_eq_ignore_case_equivalence(a, b, names[k]);
        law_eq_ignore_case_equivalence(b, a, names[k]);
    }
    assert(names[0] == seq![0x55u8, 0x44u8, 0x50u8]);
    assert(names[1] == seq![0x54u8, 0x43u8, 0x50u8]);
    assert(names[2] == seq![0x54u8, 0x4cu8, 0x53u8]);
    assert(names[3] == seq![0x53u8, 0x43u8, 0x54u8, 0x50u8]);
    assert(names[4] == seq![0x57u8, 0x53u8]);
    assert(names[5] == seq![0x57u8, 0x53u8, 0x53u8]);
}

/// RFC 3261 token characters written before a byte that is not one (or
/// before the end) are read back as a Priority value, the reading stopping
/// right after them.
pub proof fn law_priority_reads_token_back(t: Seq<u8>, rest: Seq<u8>)
    requires
        all_of(t, |b: u8| rfc_token_char(b)),
        rest.len() > 0 ==> !rfc_token_char(rest[0]),
    ensures
        Priority::spec_end(t + rest, 0) == t.len(),
        (t + rest).subrange(0, Priority::spec_end(t + rest, 0)) == t,
{
    let s = t + rest;
    assert forall|b: u8| CharClass::Token.spec_contains(b) == rfc_token_char(b) by {
        lemma_classes_are_rfc_sets(b);
    }
    assert(s.subrange(0, t.len() as int) =~= t);
    if rest.len() > 0 {
        assert(s[t.len() as int] == rest[0]);
    }
    lemma_scan_rfc(s, 0, t, CharClass::Token, |b: u8| rfc_token_char(b));
}

/// A parameter written as `;name=value`, name and value of RFC 3261 token
/// characters and followed by a byte that is not one (or by the end), is read
/// back as that name and value.
pub proof fn law_param_reads_back(name: Seq<u8>, value: Seq<u8>, rest: Seq<u8>)
    requires
        all_of(name, |b: u8| rfc_token_char(b)),
        all_of(value, |b: u8| rfc_token_char(b)),
        rest.len() > 0 ==> !rfc_token_char(rest[0]),
    ensures
        ({
            let s = seq![0x3bu8] + name + seq![0x3du8] + value + rest;
            spec_param(s, 0, CharClass::Token) == ((name, Some(value)), 2 + name.len() as int + value.len() as int)
        }),
{
    let s = seq![0x3bu8] + name + seq![0x3du8] + value + rest;
    let n = name.len() as int;
    let v = value.len() as int;
    assert forall|b: u8| CharClass::Token.spec_contains(b) == rfc_token_char(b) by {
        lemma_classes_are_rfc_sets(b);
    }
    if n > 0 {
        assert(s[1] == name[0]);
        assert(rfc_token_char(name[0]));
        assert(!CharClass::Space.spec_contains(s[1]));
    } else {
        assert(s[1] == 0x3du8);
    }
    assert(scan_while(s, 1, CharClass::Space) == 1);
    assert(s.subrange(1, 1 + n) =~= name);
    assert(s[1 + n] == 0x3du8);
    lemma_scan_rfc(s, 1, name, CharClass::Token, |b: u8| rfc_token_char(b));
    assert(s.subrange(2 + n, 2 + n + v) =~= value);
    if rest.len() > 0 {
        assert(s[2 + n + v] == rest[0]);
    }
    lemma_scan_rfc(s, 2 + n, value, CharClass::Token, |b: u8| rfc_token_char(b));
}

/// The decimal digits of an octet, with no leading zero.
pub open spec fn dec_octet(v: u8) -> Seq<u8> {
    if v < 10 {
        seq![(0x30 + v) as u8]
    } else if v < 100 {
        seq![(0x30 + v / 10) as u8, (0x30 + v % 10) as u8]
    } else {
        seq![(0x30 + v / 100) as u8, (0x30 + (v / 10) % 10) as u8, (0x30 + v % 10) as u8]
    }
}

/// An IPv4 address in dotted-decimal form.
pub open spec fn ipv4_text(o: Seq<u8>) -> Seq<u8> {
    dec_octet(o[0]) + seq![0x2eu8] + dec_octet(o[1]) + seq![0x2eu8] + dec_octet(o[2]) + seq![0x2eu8]
        + dec_octet(o[3])
}

proof fn lemma_dec_octet(v: u8)
    ensures
        1 <= dec_octet(v).len() <= 3,
        dec_octet(v).len() == 1 || dec_octet(v)[0] != 0x30u8,
        forall|k: int| 0 <= k < dec_octet(v).len() ==> spec_is_digit(#[trigger] dec_octet(v)[k]),
        digits_value(dec_octet(v)) == v,
{
    let d = dec_octet(v);
    reveal_with_fuel(digits_value, 4);
    if v < 10 {
        assert(d.drop_last().len() == 0);
    } else if v < 100 {
        assert(v / 10 * 10 + v % 10 == v) by (nonlinear_arith)
            requires
                v < 100,
        ;
        assert(d.drop_last() =~= seq![(0x30 + v / 10) as u8]);
        assert(d.drop_last().drop_last().len() == 0);
        assert(digits_value(d.drop_last()) == v / 10);
        assert(d.last() == (0x30 + v % 10) as u8);
    } else {
        assert(v / 100 * 100 + (v / 10) % 10 * 10 + v % 10 == v && v / 100 >= 1 && v / 100 <= 2) by (nonlinear_arith)
            requires
                100 <= v <= 255,
        ;
        assert(d.drop_last() =~= seq![(0x30 + v / 100) as u8, (0x30 + (v / 10) % 10) as u8]);
        assert(d.drop_last().drop_last() =~= seq![(0x30 + v / 100) as u8]);
        assert(d.drop_last().drop_last().drop_last().len() == 0);
        assert(digits_value(d.drop_last().drop_last()) == v / 100);
        assert(digits_value(d.drop_last()) == v / 100 * 10 + (v / 10) % 10);
        assert(d.last() == (0x30 + v % 10) as u8);
    }
}

/// The octet written at `p` in `h`, followed by `h`'s end or a dot, is read
/// back with its end.
proof fn lemma_octet_at(h: Seq<u8>, p: int, v: u8)
    requires
        0 <= p,
        p + dec_octet(v).len() <= h.len(),
        h.subrange(p, p + dec_octet(v).len()) == dec_octet(v),
        p + dec_octet(v).len() < h.len() ==> h[p + dec_octet(v).len()] == 0x2eu8,
    ensures
        spec_octet(h, p) == Some((v, p + dec_octet(v).len())),
{
    lemma_dec_octet(v);
    let d = dec_octet(v);
    assert forall|k: int| 0 <= k < d.len() implies CharClass::Digit.spec_contains(#[trigger] d[k]) by {
        assert(spec_is_digit(d[k]));
    }
    lemma_scan_over(h, p, d, CharClass::Digit);
}

/// The dotted-decimal form of an IPv4 address reads back as that address.
pub proof fn law_ipv4_text_reads_back(o: Seq<u8>)
    requires
        o.len() == 4,
    ensures
        spec_ipv4(ipv4_text(o)) == Some(o),
{
    let h = ipv4_text(o);
    let (d0, d1, d2, d3) = (dec_octet(o[0]), dec_octet(o[1]), dec_octet(o[2]), dec_octet(o[3]));
    lemma_dec_octet(o[0]);
    lemma_dec_octet(o[1]);
    lemma_dec_octet(o[2]);
    lemma_dec_octet(o[3]);
    let p1: int = d0.len() as int + 1;
    let p2: int = p1 + d1.len() as int + 1;
    let p3: int = p2 + d2.len() as int + 1;
    assert(h.len() == p3 + d3.len());
    assert(h.subrange(0, d0.len() as int) =~= d0);
    assert(h.subrange(p1, p1 + d1.len()) =~= d1);
    assert(h.subrange(p2, p2 + d2.len()) =~= d2);
    assert(h.subrange(p3, p3 + d3.len()) =~= d3);
    assert(h[d0.len() as int] == 0x2eu8);
    assert(h[p1 + d1.len()] == 0x2eu8);
    assert(h[p2 + d2.len()] == 0x2eu8);
    lemma_octet_at(h, 0, o[0]);
    lemma_octet_at(h, p1, o[1]);
    lemma_octet_at(h, p2, o[2]);
    lemma_octet_at(h, p3, o[3]);
    assert(seq![o[0], o[1], o[2], o[3]] =~= o);
}

/// ASCII letters and digits, written out.
pub open spec fn rfc_alphanum(b: u8) -> bool {
    (0x30 <= b && b <= 0x39) || (0x41 <= b && b <= 0x5a) || (0x61 <= b && b <= 0x7a)
}

/// RFC 3261 `token` characters: alphanum and `-.!%*_+`'~`.
pub open spec fn rfc_token_char(b: u8) -> bool {
    rfc_alphanum(b) || b == 0x2d || b == 0x2e || b == 0x21 || b == 0x25 || b == 0x2a || b == 0x5f
        || b == 0x2b || b == 0x60 || b == 0x27 || b == 0x7e
}

/// RFC 3261 host name characters: alphanum, `-` and `.`.
pub open spec fn rfc_hostname_char(b: u8) -> bool {
    rfc_alphanum(b) || b == 0x2d || b == 0x2e
}

/// RFC 3261 `user` characters: unreserved (alphanum and `-_.!~*'()`), `%`
/// of an escape, and `&=+$,;?/`.
pub open spec fn rfc_user_char(b: u8) -> bool {
    rfc_alphanum(b) || b == 0x2d || b == 0x5f || b == 0x2e || b == 0x21 || b == 0x7e || b == 0x2a
        || b == 0x27 || b == 0x28 || b == 0x29 || b == 0x25 || b == 0x26 || b == 0x3d || b == 0x2b
        || b == 0x24 || b == 0x2c || b == 0x3b || b == 0x3f || b == 0x2f
}

/// RFC 3261 `password` characters: unreserved, `%` of an escape, and `&=+$,`.
pub open spec fn rfc_password_char(b: u8) -> bool {
    rfc_alphanum(b) || b == 0x2d || b == 0x5f || b == 0x2e || b == 0x21 || b == 0x7e || b == 0x2a
        || b == 0x27 || b == 0x28 || b == 0x29 || b == 0x25 || b == 0x26 || b == 0x3d || b == 0x2b
        || b == 0x24 || b == 0x2c
}

/// Whether every byte of `t` satisfies `p`.
pub open spec fn all_of(t: Seq<u8>, p: spec_fn(u8) -> bool) -> bool {
    forall|k: int| 0 <= k < t.len() ==> p(#[trigger] t[k])
}

/// The scanner's classes are exactly the RFC 3261 sets.
proof fn lemma_classes_are_rfc_sets(b: u8)
    ensures
        CharClass::Token.spec_contains(b) == rfc_token_char(b),
        CharClass::HostName.spec_contains(b) == rfc_hostname_char(b),
        CharClass::User.spec_contains(b) == rfc_user_char(b),
        CharClass::Password.spec_contains(b) == rfc_password_char(b),
        CharClass::Digit.spec_contains(b) == (0x30 <= b && b <= 0x39),
{
}

/// A run of bytes of an RFC set, followed by a byte outside it (or the end),
/// is what the scanner's class reads.
proof fn lemma_scan_rfc(s: Seq<u8>, i: int, t: Seq<u8>, c: CharClass, p: spec_fn(u8) -> bool)
    requires
        0 <= i,
        i + t.len() <= s.len(),
        s.subrange(i, i + t.len()) == t,
        forall|b: u8| c.spec_contains(b) == p(b),
        all_of(t, p),
        i + t.len() < s.len() ==> !p(s[i + t.len()]),
    ensures
        scan_while(s, i, c) == i + t.len(),
{
    assert forall|k: int| 0 <= k < t.len() implies c.spec_contains(#[trigger] t[k]) by {
        assert(p(t[k]));
    }
    lemma_scan_over(s, i, t, c);
}

/// A host name at `i`, followed by a byte that is no host name character (or
/// by the end), is read as that whole domain name.
proof fn lemma_host_name_at(s: Seq<u8>, i: int, h: Seq<u8>)
    requires
        0 <= i,
        i + h.len() <= s.len(),
        s.subrange(i, i + h.len()) == h,
        h.len() > 0,
        spec_ipv4(h) is None,
        all_of(h, |b: u8| rfc_hostname_char(b)),
        i + h.len() < s.len() ==> !rfc_hostname_char(s[i + h.len()]),
    ensures
        spec_host(s, i) == (Ok::<HostView, SipParserError>(HostView::DomainName(text(h))), i + h.len()),
{
    assert forall|b: u8| CharClass::HostName.spec_contains(b) == rfc_hostname_char(b) by {
        lemma_classes_are_rfc_sets(b);
    }
    lemma_scan_rfc(s, i, h, CharClass::HostName, |b: u8| rfc_hostname_char(b));
    assert(s[i] == s.subrange(i, i + h.len())[0]);
    assert(rfc_hostname_char(h[0]));
}

/// A host name (one or more host name characters, not a dotted-decimal IPv4
/// address) followed by `:` and one or more digits of value at most 65535,
/// then by anything but a digit, reads back as that whole domain name and
/// that port, the reading stopping after the digits.
pub proof fn law_host_port_reads_back(h: Seq<u8>, d: Seq<u8>, rest: Seq<u8>)
    requires
        h.len() > 0,
        spec_ipv4(h) is None,
        all_of(h, |b: u8| rfc_hostname_char(b)),
        d.len() > 0,
        all_of(d, |b: u8| 0x30 <= b && b <= 0x39),
        digits_value(d) <= 65535,
        rest.len() > 0 ==> !(0x30 <= rest[0] && rest[0] <= 0x39),
    ensures
        ({
            let s = h + seq![0x3au8] + d + rest;
            spec_host_port(s, 0) == (
                Ok::<(HostView, Option<u32>), SipParserError>(
                    (HostView::DomainName(text(h)), Some(digits_value(d) as u32)),
                ),
                h.len() as int + 1 + d.len() as int,
            )
        }),
{
    let s = h + seq![0x3au8] + d + rest;
    let n = h.len() as int;
    assert forall|b: u8| CharClass::Digit.spec_contains(b) == (0x30 <= b && b <= 0x39) by {
        lemma_classes_are_rfc_sets(b);
    }
    assert(s.subrange(0, n) =~= h);
    assert(s[n] == 0x3au8);
    lemma_host_name_at(s, 0, h);
    assert(s.subrange(n + 1, n + 1 + d.len()) =~= d);
    if rest.len() > 0 {
        assert(s[n + 1 + d.len()] == rest[0]);
    }
    lemma_scan_rfc(s, n + 1, d, CharClass::Digit, |b: u8| 0x30 <= b && b <= 0x39);
}

/// `sip:`, a user of RFC 3261 user characters, optionally `:` and a password
/// of RFC 3261 password characters, `@` and a host name (not a dotted-decimal
/// IPv4 address), followed by the end or by a byte that starts none of a host
/// name, a port, parameters or headers, reads back as a SIP URI with that exact
/// user and password and that whole host, the reading stopping after the host.
pub proof fn law_sip_uri_user_reads_back(u: Seq<u8>, pw: Option<Seq<u8>>, h: Seq<u8>, rest: Seq<u8>)
    requires
        all_of(u, |b: u8| rfc_user_char(b)),
        pw matches Some(p) ==> all_of(p, |b: u8| rfc_password_char(b)),
        h.len() > 0,
        spec_ipv4(h) is None,
        all_of(h, |b: u8| rfc_hostname_char(b)),
        rest.len() > 0 ==> !rfc_hostname_char(rest[0]) && rest[0] != 0x3au8 && rest[0] != 0x3bu8
            && rest[0] != 0x3fu8,
    ensures
        ({
            let pp = match pw {
                Some(p) => seq![0x3au8] + p,
                None => seq![],
            };
            let s = sip_colon() + u + pp + seq![0x40u8] + h + rest;
            spec_uri(s, 0) == (
                Ok::<UriView, SipParserError>(
                    UriView {
                        scheme: Scheme::Sip,
                        user: Some(
                            (
                                text(u),
                                match pw {
                                    Some(p) => Some(text(p)),
                                    None => None,
                                },
                            ),
                        ),
                        host: HostView::DomainName(text(h)),
                        port: None,
                        params: None,
                        headers: None,
                    },
                ),
                5 + u.len() as int + pp.len() as int + h.len() as int,
            )
        }),
{
    let pp = match pw {
        Some(p) => seq![0x3au8] + p,
        None => seq![],
    };
    let s = sip_colon() + u + pp + seq![0x40u8] + h + rest;
    let m = u.len() as int;
    let q = pp.len() as int;
    let n = h.len() as int;
    assert(s.subrange(0, 4) =~= sip_colon());
    law_eq_ignore_case_equivalence(sip_colon(), sip_colon(), sip_colon());
    assert(spec_scheme(s, 0) == (Ok::<Scheme, SipParserError>(Scheme::Sip), 4int));
    assert forall|b: u8| CharClass::User.spec_contains(b) == rfc_user_char(b) by {
        lemma_classes_are_rfc_sets(b);
    }
    assert forall|b: u8| CharClass::Password.spec_contains(b) == rfc_password_char(b) by {
        lemma_classes_are_rfc_sets(b);
    }
    assert(s.subrange(4, 4 + m) =~= u);
    assert(s[4 + m + q] == 0x40u8);
    match pw {
        Some(p) => {
            assert(s[4 + m] == 0x3au8);
            lemma_scan_rfc(s, 4, u, CharClass::User, |b: u8| rfc_user_char(b));
            assert(s.subrange(5 + m, 4 + m + q) =~= p);
            lemma_scan_rfc(s, 5 + m, p, CharClass::Password, |b: u8| rfc_password_char(b));
            assert(spec_userinfo(s, 4) == (Some((u, Some(p))), 5 + m + q));
        },
        None => {
            lemma_scan_rfc(s, 4, u, CharClass::User, |b: u8| rfc_user_char(b));
            assert(spec_userinfo(s, 4) == (Some((u, None::<Seq<u8>>)), 5 + m));
        },
    }
    assert(s.subrange(5 + m + q, 5 + m + q + n) =~= h);
    if rest.len() > 0 {
        assert(s[5 + m + q + n] == rest[0]);
    }
    lemma_host_name_at(s, 5 + m + q, h);
    assert(spec_port(s, 5 + m + q + n) == (Ok::<Option<u32>, SipParserError>(None), 5 + m + q + n));
    assert(spec_params(s, 5 + m + q + n, CharClass::UriParam, false).0.len() == 0);
    assert(spec_uri_headers(s, 5 + m + q + n) == (None::<Seq<u8>>, 5 + m + q + n));
}

/// A Content-Type value written as `type/subtype`, both of RFC 3261 token
/// characters and followed by a byte that is no token character (or by the
/// end), reads back as that exact type and that whole subtype; where no space,
/// tab or `;` follows, it has no parameters and the reading stops after the
/// subtype.
pub proof fn law_content_type_reads_back(t: Seq<u8>, u: Seq<u8>, rest: Seq<u8>)
    requires
        all_of(t, |b: u8| rfc_token_char(b)),
        all_of(u, |b: u8| rfc_token_char(b)),
        rest.len() > 0 ==> !rfc_token_char(rest[0]),
    ensures
        ({
            let s = t + seq![0x2fu8] + u + rest;
            let (i1, i2, i3, i4) = ContentType::spec_parts(s, 0);
            &&& s.subrange(0, i1) == t
            &&& s.subrange(i2, i3) == u
            &&& (rest.len() == 0 || (rest[0] != 0x20u8 && rest[0] != 0x09u8 && rest[0] != 0x3bu8)) ==> {
                &&& i4 == t.len() + 1 + u.len()
                &&& params_of(spec_params(s, i3, CharClass::Token, true).0) is None
            }
        }),
{
    let s = t + seq![0x2fu8] + u + rest;
    let n = t.len() as int;
    let m = u.len() as int;
    assert forall|b: u8| CharClass::Token.spec_contains(b) == rfc_token_char(b) by {
        lemma_classes_are_rfc_sets(b);
    }
    assert(s.subrange(0, n) =~= t);
    assert(s[n] == 0x2fu8);
    lemma_scan_rfc(s, 0, t, CharClass::Token, |b: u8| rfc_token_char(b));
    assert(s.subrange(n + 1, n + 1 + m) =~= u);
    if rest.len() > 0 {
        assert(s[n + 1 + m] == rest[0]);
    }
    lemma_scan_rfc(s, n + 1, u, CharClass::Token, |b: u8| rfc_token_char(b));
    if rest.len() == 0 || (rest[0] != 0x20u8 && rest[0] != 0x09u8 && rest[0] != 0x3bu8) {
        assert(scan_while(s, n + 1 + m, CharClass::Space) == n + 1 + m);
        assert(spec_params(s, n + 1 + m, CharClass::Token, true).0.len() == 0);
    }
}

/// The name of a standard SIP method, in ASCII capitals (`INVITE`, `ACK`,
/// `BYE`, `CANCEL`, `REGISTER`, `OPTIONS`, `INFO`, `NOTIFY`, `SUBSCRIBE`,
/// `UPDATE`, `REFER`, `PRACK`, `MESSAGE`, `PUBLISH`); none for another method.
pub open spec fn standard_name(m: MethodView) -> Option<Seq<u8>> {
    match m {
        MethodView::Invite => Some(seq![0x49u8, 0x4eu8, 0x56u8, 0x49u8, 0x54u8, 0x45u8]),
        MethodView::Ack => Some(seq![0x41u8, 0x43u8, 0x4bu8]),
        MethodView::Bye => Some(seq![0x42u8, 0x59u8, 0x45u8]),
        MethodView::Cancel => Some(seq![0x43u8, 0x41u8, 0x4eu8, 0x43u8, 0x45u8, 0x4cu8]),
        MethodView::Register => Some(seq![0x52u8, 0x45u8, 0x47u8, 0x49u8, 0x53u8, 0x54u8, 0x45u8, 0x52u8]),
        MethodView::Options => Some(seq![0x4fu8, 0x50u8, 0x54u8, 0x49u8, 0x4fu8, 0x4eu8, 0x53u8]),
        MethodView::Info => Some(seq![0x49u8, 0x4eu8, 0x46u8, 0x4fu8]),
        MethodView::Notify => Some(seq![0x4eu8, 0x4fu8, 0x54u8, 0x49u8, 0x46u8, 0x59u8]),
        MethodView::Subscribe => Some(seq![0x53u8, 0x55u8, 0x42u8, 0x53u8, 0x43u8, 0x52u8, 0x49u8, 0x42u8, 0x45u8]),
        MethodView::Update => Some(seq![0x55u8, 0x50u8, 0x44u8, 0x41u8, 0x54u8, 0x45u8]),
        MethodView::Refer => Some(seq![0x52u8, 0x45u8, 0x46u8, 0x45u8, 0x52u8]),
        MethodView::Prack => Some(seq![0x50u8, 0x52u8, 0x41u8, 0x43u8, 0x4bu8]),
        MethodView::Message => Some(seq![0x4du8, 0x45u8, 0x53u8, 0x53u8, 0x41u8, 0x47u8, 0x45u8]),
        MethodView::Publish => Some(seq![0x50u8, 0x55u8, 0x42u8, 0x4cu8, 0x49u8, 0x53u8, 0x48u8]),
        MethodView::Unknown(_) => None,
    }
}

/// Each standard method's name reads as that method; a name reads as a
/// standard method only where it is that method's name; and a name is kept
/// as an unknown method, with its text, exactly where it is the name of no
/// standard method.
pub proof fn law_method_names(m: MethodView, b: Seq<u8>)
    ensures
        standard_name(m) matches Some(n) ==> spec_method(n) == m,
        standard_name(spec_method(b)) matches Some(n) ==> n == b,
        (exists|m2: MethodView| #[trigger] standard_name(m2) == Some(b)) <==> !(spec_method(b) is Unknown),
        spec_method(b) is Unknown ==> spec_method(b) == MethodView::Unknown(text(b)),
{
    if let Some(n) = standard_name(m) {
        assert(spec_method(n) == m);
    }
    if exists|m2: MethodView| #[trigger] standard_name(m2) == Some(b) {
        let m2 = choose|m2: MethodView| #[trigger] standard_name(m2) == Some(b);
        assert(spec_method(b) == m2);
    }
    if !(spec_method(b) is Unknown) {
        assert(standard_name(spec_method(b)) == Some(b));
    }
}

/// The value that a list of parameters gives its parameter at `k`, where no
/// later parameter has the same name, is that parameter's value.
proof fn lemma_params_map_last(l: Seq<AuthParam>, k: int)
    requires
        0 <= k < l.len(),
        forall|j: int| k < j < l.len() ==> (#[trigger] l[j]).0 != l[k].0,
    ensures
        params_map(l).contains_key(l[k].0),
        params_map(l)[l[k].0] == l[k].1,
    decreases l.len(),
{
    if k < l.len() - 1 {
        let dl = l.drop_last();
        assert(l[l.len() - 1].0 != l[k].0);
        assert forall|j: int| k < j < dl.len() implies (#[trigger] dl[j]).0 != dl[k].0 by {
            assert(dl[j] == l[j]);
        }
        lemma_params_map_last(dl, k);
    }
}

/// Leaving out the parameters whose names are among `keys` leaves what the
/// list gives every other name as it was.
proof fn lemma_drop_names_agree(l: Seq<AuthParam>, keys: Seq<Seq<char>>, n: Seq<char>)
    requires
        !keys.contains(n),
    ensures
        params_map(drop_names(l, keys)).contains_key(n) == params_map(l).contains_key(n),
        params_map(l).contains_key(n) ==> params_map(drop_names(l, keys))[n] == params_map(l)[n],
    decreases l.len(),
{
    if l.len() > 0 {
        let dl = l.drop_last();
        lemma_drop_names_agree(dl, keys, n);
        if !keys.contains(l.last().0) {
            let r = drop_names(dl, keys);
            assert(r.push(l.last()).drop_last() =~= r);
        }
    }
}

/// Leaving out the parameters whose names are among `keys` leaves none of
/// those names.
proof fn lemma_drop_names_excludes(l: Seq<AuthParam>, keys: Seq<Seq<char>>, n: Seq<char>)
    requires
        keys.contains(n),
    ensures
        !params_map(drop_names(l, keys)).contains_key(n),
    decreases l.len(),
{
    if l.len() > 0 {
        let dl = l.drop_last();
        lemma_drop_names_excludes(dl, keys, n);
        if !keys.contains(l.last().0) {
            let r = drop_names(dl, keys);
            assert(r.push(l.last()).drop_last() =~= r);
        }
    }
}

/// Every parameter of a Digest credential is kept with the value of its last
/// occurrence: `realm`, `username`, `nonce`, `uri`, `response`, `algorithm`,
/// `cnonce`, `opaque`, `qop` and `nc` each in the field of that name, and
/// every other name among the other parameters, which hold none of those ten.
pub proof fn law_digest_credential_keeps_params(l: Seq<AuthParam>, k: int)
    requires
        0 <= k < l.len(),
        forall|j: int| k < j < l.len() ==> (#[trigger] l[j]).0 != l[k].0,
    ensures
        ({
            let d = digest_credential_of(l);
            &&& l[k].0 == "realm"@ ==> d.realm == l[k].1
            &&& l[k].0 == "username"@ ==> d.username == l[k].1
            &&& l[k].0 == "nonce"@ ==> d.nonce == l[k].1
            &&& l[k].0 == "uri"@ ==> d.uri == l[k].1
            &&& l[k].0 == "response"@ ==> d.response == l[k].1
            &&& l[k].0 == "algorithm"@ ==> d.algorithm == l[k].1
            &&& l[k].0 == "cnonce"@ ==> d.cnonce == l[k].1
            &&& l[k].0 == "opaque"@ ==> d.opaque == l[k].1
            &&& l[k].0 == "qop"@ ==> d.qop == l[k].1
            &&& l[k].0 == "nc"@ ==> d.nc == l[k].1
            &&& (l[k].0 != "realm"@ && l[k].0 != "username"@ && l[k].0 != "nonce"@ && l[k].0 != "uri"@ && l[k].0 != "response"@ && l[k].0 != "algorithm"@ && l[k].0 != "cnonce"@ && l[k].0 != "opaque"@ && l[k].0 != "qop"@ && l[k].0 != "nc"@) ==> d.param.contains_key(l[k].0) && d.param[l[k].0] == l[k].1
        }),
        !digest_credential_of(l).param.contains_key("realm"@),
        !digest_credential_of(l).param.contains_key("username"@),
        !digest_credential_of(l).param.contains_key("nonce"@),
        !digest_credential_of(l).param.contains_key("uri"@),
        !digest_credential_of(l).param.contains_key("response"@),
        !digest_credential_of(l).param.contains_key("algorithm"@),
        !digest_credential_of(l).param.contains_key("cnonce"@),
        !digest_credential_of(l).param.contains_key("opaque"@),
        !digest_credential_of(l).param.contains_key("qop"@),
        !digest_credential_of(l).param.contains_key("nc"@),
{
    assert(credential_keys()[0] == "realm"@);
    assert(credential_keys()[1] == "username"@);
    assert(credential_keys()[2] == "nonce"@);
    assert(credential_keys()[3] == "uri"@);
    assert(credential_keys()[4] == "response"@);
    assert(credential_keys()[5] == "algorithm"@);
    assert(credential_keys()[6] == "cnonce"@);
    assert(credential_keys()[7] == "opaque"@);
    assert(credential_keys()[8] == "qop"@);
    assert(credential_keys()[9] == "nc"@);
    lemma_params_map_last(l, k);
    if l[k].0 != "realm"@ && l[k].0 != "username"@ && l[k].0 != "nonce"@ && l[k].0 != "uri"@ && l[k].0 != "response"@ && l[k].0 != "algorithm"@ && l[k].0 != "cnonce"@ && l[k].0 != "opaque"@ && l[k].0 != "qop"@ && l[k].0 != "nc"@ {
        assert(!credential_keys().contains(l[k].0));
        lemma_drop_names_agree(l, credential_keys(), l[k].0);
    }
    lemma_drop_names_excludes(l, credential_keys(), "realm"@);
    lemma_drop_names_excludes(l, credential_keys(), "username"@);
    lemma_drop_names_excludes(l, credential_keys(), "nonce"@);
    lemma_drop_names_excludes(l, credential_keys(), "uri"@);
    lemma_drop_names_excludes(l, credential_keys(), "response"@);
    lemma_drop_names_excludes(l, credential_keys(), "algorithm"@);
    lemma_drop_names_excludes(l, credential_keys(), "cnonce"@);
    lemma_drop_names_excludes(l, credential_keys(), "opaque"@);
    lemma_drop_names_excludes(l, credential_keys(), "qop"@);
    lemma_drop_names_excludes(l, credential_keys(), "nc"@);
}

/// Every parameter of a Digest challenge is kept with the value of its last
/// occurrence: `realm`, `domain`, `nonce`, `opaque`, `stale`, `algorithm` and
/// `qop` each in the field of that name, and every other name among the
/// other parameters, which hold none of those seven.
pub proof fn law_digest_challenge_keeps_params(l: Seq<AuthParam>, k: int)
    requires
        0 <= k < l.len(),
        forall|j: int| k < j < l.len() ==> (#[trigger] l[j]).0 != l[k].0,
    ensures
        ({
            let d = digest_challenge_of(l);
            &&& l[k].0 == "realm"@ ==> d.realm == l[k].1
            &&& l[k].0 == "domain"@ ==> d.domain == l[k].1
            &&& l[k].0 == "nonce"@ ==> d.nonce == l[k].1
            &&& l[k].0 == "opaque"@ ==> d.opaque == l[k].1
            &&& l[k].0 == "stale"@ ==> d.stale == l[k].1
            &&& l[k].0 == "algorithm"@ ==> d.algorithm == l[k].1
            &&& l[k].0 == "qop"@ ==> d.qop == l[k].1
            &&& (l[k].0 != "realm"@ && l[k].0 != "domain"@ && l[k].0 != "nonce"@ && l[k].0 != "opaque"@ && l[k].0 != "stale"@ && l[k].0 != "algorithm"@ && l[k].0 != "qop"@) ==> d.param.contains_key(l[k].0) && d.param[l[k].0] == l[k].1
        }),
        !digest_challenge_of(l).param.contains_key("realm"@),
        !digest_challenge_of(l).param.contains_key("domain"@),
        !digest_challenge_of(l).param.contains_key("nonce"@),
        !digest_challenge_of(l).param.contains_key("opaque"@),
        !digest_challenge_of(l).param.contains_key("stale"@),
        !digest_challenge_of(l).param.contains_key("algorithm"@),
        !digest_challenge_of(l).param.contains_key("qop"@),
{
    assert(challenge_keys()[0] == "realm"@);
    assert(challenge_keys()[1] == "domain"@);
    assert(challenge_keys()[2] == "nonce"@);
    assert(challenge_keys()[3] == "opaque"@);
    assert(challenge_keys()[4] == "stale"@);
    assert(challenge_keys()[5] == "algorithm"@);
    assert(challenge_keys()[6] == "qop"@);
    lemma_params_map_last(l, k);
    if l[k].0 != "realm"@ && l[k].0 != "domain"@ && l[k].0 != "nonce"@ && l[k].0 != "opaque"@ && l[k].0 != "stale"@ && l[k].0 != "algorithm"@ && l[k].0 != "qop"@ {
        assert(!challenge_keys().contains(l[k].0));
        lemma_drop_names_agree(l, challenge_keys(), l[k].0);
    }
    lemma_drop_names_excludes(l, challenge_keys(), "realm"@);
    lemma_drop_names_excludes(l, challenge_keys(), "domain"@);
    lemma_drop_names_excludes(l, challenge_keys(), "nonce"@);
    lemma_drop_names_excludes(l, challenge_keys(), "opaque"@);
    lemma_drop_names_excludes(l, challenge_keys(), "stale"@);
    lemma_drop_names_excludes(l, challenge_keys(), "algorithm"@);
    lemma_drop_names_excludes(l, challenge_keys(), "qop"@);
}

} // verus!
