use sip::chars::{eq_ignore_ascii_case, is_token, is_via_param};
use sip::error::SipParserError;
use sip::headers::auth::{parse_auth_challenge, parse_auth_credential, Challenge, Credential};
use sip::headers::date::Date;
use sip::headers::organization::Organization;
use sip::headers::priority::Priority;
use sip::headers::via::{Via, ViaParams};
use sip::headers::{match_name, Header, SipHeaders};
use sip::host::{parse_host_port, parse_ipv4};
use sip::ipv6::parse_ipv6;
use sip::number::parse_u16;
use sip::params::{parse_generic_param, Params};
use sip::parser::{parse_newline, parse_sip_v2, Transport};
use sip::request::{RequestLine, SipMethod, SipRequest};
use sip::scanner::{Bytes, CharClass};
use sip::uri::{Host, IpAddr, Ipv4Addr, Ipv6Addr, NameAddr, Scheme, Uri, UserInfo};

#[test]
fn scanner_reads_and_peeks() {
    let mut b = Bytes::new(b"abc;d");
    assert_eq!(b.peek(), Some(b'a'));
    assert_eq!(b.read_while(CharClass::Alpha), b"abc");
    assert_eq!(b.position(), 3);
    assert_eq!(b.next(), Some(b';'));
    assert_eq!(b.as_ref(), b"d");
    assert_eq!(b.next(), Some(b'd'));
    assert!(b.is_eof());
    assert_eq!(b.next(), None);
    assert_eq!(b.position(), 5);
}

#[test]
fn scanner_until_and_space() {
    let mut b = Bytes::new(b"  x y\r\nz");
    b.skip_space();
    assert_eq!(b.read_until(b' '), b"x");
    assert_eq!(b.read_until_newline(), b" y");
    assert_eq!(b.as_ref(), b"\r\nz");
}

#[test]
fn character_classes() {
    assert!(is_token(b'a') && is_token(b'~') && is_token(b'%'));
    assert!(!is_token(b';') && !is_token(b' ') && !is_token(b':'));
    assert!(is_via_param(&b':') && is_via_param(&b'[') && is_via_param(&b']'));
    assert!(!is_via_param(&b';'));
    assert!(eq_ignore_ascii_case(b"Content-Type", b"content-type"));
    assert!(!eq_ignore_ascii_case(b"Content-Type", b"content-typ"));
}

#[test]
fn u16_parsing_follows_from_str() {
    assert_eq!(parse_u16(b"5060"), Some(5060));
    assert_eq!(parse_u16(b"+5060"), Some(5060));
    assert_eq!(parse_u16(b"65535"), Some(65535));
    assert_eq!(parse_u16(b"65536"), None);
    assert_eq!(parse_u16(b"0"), Some(0));
    assert_eq!(parse_u16(b""), None);
    assert_eq!(parse_u16(b"+"), None);
    assert_eq!(parse_u16(b"12a"), None);
    assert_eq!(parse_u16(b"99999999999999999999"), None);
}

#[test]
fn ipv4_addresses() {
    assert_eq!(parse_ipv4(b"192.0.2.1"), Some(Ipv4Addr::new(192, 0, 2, 1)));
    assert_eq!(parse_ipv4(b"0.0.0.0"), Some(Ipv4Addr::new(0, 0, 0, 0)));
    assert_eq!(parse_ipv4(b"255.255.255.255"), Some(Ipv4Addr::new(255, 255, 255, 255)));
    assert_eq!(parse_ipv4(b"256.1.1.1"), None);
    assert_eq!(parse_ipv4(b"01.2.3.4"), None);
    assert_eq!(parse_ipv4(b"1.2.3"), None);
    assert_eq!(parse_ipv4(b"1.2.3.4.5"), None);
    assert_eq!(parse_ipv4(b"atlanta.com"), None);
}

#[test]
fn host_and_port() {
    let mut b = Bytes::new(b"atlanta.com:5060;x");
    let hp = parse_host_port(&mut b).unwrap();
    assert_eq!(hp.host, Host::DomainName("atlanta.com".to_string()));
    assert_eq!(hp.port, Some(5060));
    assert_eq!(b.as_ref(), b";x");

    let mut b = Bytes::new(b"[2001:db8::1]:5061");
    let hp = parse_host_port(&mut b).unwrap();
    assert_eq!(
        hp.host,
        Host::IpAddr(IpAddr::V6(Ipv6Addr { segments: [0x2001, 0xdb8, 0, 0, 0, 0, 0, 1] }))
    );
    assert_eq!(hp.port, Some(5061));

    let mut b = Bytes::new(b"10.0.0.1");
    let hp = parse_host_port(&mut b).unwrap();
    assert_eq!(hp.host, Host::IpAddr(IpAddr::V4(Ipv4Addr::new(10, 0, 0, 1))));
    assert_eq!(hp.port, None);

    assert_eq!(parse_host_port(&mut Bytes::new(b";x")), Err(SipParserError::InvalidHost));
    assert_eq!(parse_host_port(&mut Bytes::new(b"[::1")), Err(SipParserError::InvalidHost));
    assert_eq!(parse_host_port(&mut Bytes::new(b"h:")), Err(SipParserError::InvalidPort));
    assert_eq!(parse_host_port(&mut Bytes::new(b"h:70000")), Err(SipParserError::InvalidPort));
}

#[test]
fn params_read_back_what_was_set() {
    let mut p = Params::new();
    assert!(!p.contains("lr"));
    p.set("lr", None);
    p.set("transport", Some("udp"));
    assert!(p.contains("lr"));
    assert_eq!(p.get("lr"), None);
    assert_eq!(p.get("transport"), Some("udp"));
    p.set("transport", Some("tcp"));
    assert_eq!(p.get("transport"), Some("tcp"));
    assert!(p.contains("lr"));
    assert_eq!(p.get("missing"), None);
}

#[test]
fn generic_param() {
    let mut b = Bytes::new(b"; tag=1928301774;x");
    let (name, value) = parse_generic_param(&mut b).unwrap();
    assert_eq!(name, "tag");
    assert_eq!(value, Some("1928301774"));
    assert_eq!(b.as_ref(), b";x");
    let (name, value) = parse_generic_param(&mut b).unwrap();
    assert_eq!(name, "x");
    assert_eq!(value, None);
    assert!(b.is_eof());
}

#[test]
fn date_and_organization_text() {
    let mut b = Bytes::new("Boxes by Bj\u{f6}rn\r\n".as_bytes());
    let org = Organization::parse(&mut b).unwrap();
    assert_eq!(org.0, "Boxes by Bj\u{f6}rn");
    assert_eq!(b.as_ref(), b"\r\n");

    let mut b = Bytes::new(b"bad \xff byte\r\n");
    assert_eq!(Date::parse(&mut b), Err(SipParserError::InvalidUtf8));
    assert_eq!(b.as_ref(), b"\r\n");
}

#[test]
fn priority_stops_at_non_token() {
    let mut b = Bytes::new(b"non-urgent;x");
    let p = Priority::parse(&mut b).unwrap();
    assert_eq!(p.0, "non-urgent");
    assert_eq!(b.as_ref(), b";x");
}

#[test]
fn via_params_and_comment() {
    let mut r = Bytes::new(b"SIP/2.0/TCP client.atlanta.example.com:5060;branch=z9hG4bK74b43;rport=5070;ttl=16;maddr=224.2.0.1;x=y (proxy one)\r\n");
    let via = Via::parse(&mut r).unwrap();
    assert_eq!(via.transport, Transport::TCP);
    let params = via.params.unwrap();
    assert_eq!(params.branch(), Some("z9hG4bK74b43"));
    assert_eq!(params.rport(), Some(5070));
    assert_eq!(params.ttl(), Some("16"));
    assert_eq!(params.maddr(), Some("224.2.0.1"));
    assert_eq!(params.received(), None);
    assert_eq!(via.others_params.unwrap().get("x"), Some("y"));
    assert_eq!(via.comment, Some("proxy one"));
    assert_eq!(r.as_ref(), b"\r\n");
}

#[test]
fn via_rport_cases() {
    let via = Via::parse(&mut Bytes::new(b"SIP/2.0/UDP h;rport")).unwrap();
    assert_eq!(via.params.unwrap().rport(), None);
    let via = Via::parse(&mut Bytes::new(b"SIP/2.0/UDP h;rport=abc")).unwrap();
    assert_eq!(via.params.unwrap().rport(), None);
    let via = Via::parse(&mut Bytes::new(b"SIP/2.0/UDP h;rport=99999")).unwrap();
    assert_eq!(via.params.unwrap().rport(), None);
    assert_eq!(
        Via::parse(&mut Bytes::new(b"SIP/2.0/UDP h;rport=0")),
        Err(SipParserError::InvalidRport)
    );
    let via = Via::parse(&mut Bytes::new(b"SIP/2.0/UDP h")).unwrap();
    assert!(via.params.is_none());
    assert!(via.others_params.is_none());
}

#[test]
fn via_errors() {
    assert_eq!(Via::parse(&mut Bytes::new(b"SIP/3.0/UDP h")), Err(SipParserError::InvalidSipVersion));
    assert_eq!(Via::parse(&mut Bytes::new(b"SIP/2.0 UDP h")), Err(SipParserError::InvalidVia));
    assert_eq!(Via::parse(&mut Bytes::new(b"SIP/2.0/UDP ")), Err(SipParserError::InvalidHost));
    let via = Via::parse(&mut Bytes::new(b"sip/2.0/udp h")).unwrap();
    assert_eq!(via.transport, Transport::UDP);
    let via = Via::parse(&mut Bytes::new(b"SIP/2.0/QUIC h")).unwrap();
    assert_eq!(via.transport, Transport::Unknown);
}

#[test]
fn via_params_setters_and_getters() {
    let mut p = ViaParams::new();
    assert_eq!(p.branch(), None);
    p.set_branch("z9hG4bK1");
    p.set_ttl("1");
    p.set_maddr("m");
    p.set_received("10.0.0.1");
    p.set_rport(5060);
    assert_eq!(p.branch(), Some("z9hG4bK1"));
    assert_eq!(p.ttl(), Some("1"));
    assert_eq!(p.maddr(), Some("m"));
    assert_eq!(p.received(), Some("10.0.0.1"));
    assert_eq!(p.rport(), Some(5060));
    p.set_branch("z9hG4bK2");
    assert_eq!(p.branch(), Some("z9hG4bK2"));
    assert_eq!(p.ttl(), Some("1"));
}

#[test]
fn uri_with_everything() {
    let mut b = Bytes::new(b"sips:alice:secret@atlanta.com:5061;transport=tcp;lr?subject=project&priority=urgent>");
    let u = Uri::parse(&mut b).unwrap();
    assert_eq!(u.scheme, Scheme::Sips);
    assert_eq!(u.user, Some(UserInfo::new("alice".to_string(), Some("secret".to_string()))));
    assert_eq!(u.host, Host::DomainName("atlanta.com".to_string()));
    assert_eq!(u.port, Some(5061));
    let params = u.params.unwrap();
    assert_eq!(params.get("transport"), Some("tcp"));
    assert!(params.contains("lr"));
    assert_eq!(u.headers, Some("subject=project&priority=urgent"));
    assert_eq!(b.as_ref(), b">");
}

#[test]
fn uri_without_user() {
    let u = Uri::parse(&mut Bytes::new(b"SIP:192.0.2.4")).unwrap();
    assert_eq!(u.scheme, Scheme::Sip);
    assert_eq!(u.user, None);
    assert_eq!(u.host, Host::IpAddr(IpAddr::V4(Ipv4Addr::new(192, 0, 2, 4))));
    assert!(u.params.is_none());
    assert!(u.headers.is_none());
    let u2 = Uri::new(Scheme::Sip, None, Host::IpAddr(IpAddr::V4(Ipv4Addr::new(192, 0, 2, 4))), None);
    assert_eq!(u, u2);
    let ui = UserInfo::new("bob".to_string(), None);
    assert_eq!(ui.name(), "bob");
    assert_eq!(ui.password(), None);
}

#[test]
fn uri_errors() {
    assert_eq!(Uri::parse(&mut Bytes::new(b"http://x")), Err(SipParserError::InvalidUri));
    assert_eq!(Uri::parse(&mut Bytes::new(b"sip:")), Err(SipParserError::InvalidHost));
    assert_eq!(Uri::parse(&mut Bytes::new(b"sip:a@b:x")), Err(SipParserError::InvalidPort));
}

#[test]
fn name_addr_display_forms() {
    let a = NameAddr::parse(&mut Bytes::new(b"Bob Smith <sip:bob@biloxi.com>")).unwrap();
    assert_eq!(a.display, Some("Bob Smith"));
    assert_eq!(a.uri.host, Host::DomainName("biloxi.com".to_string()));
    let a = NameAddr::parse(&mut Bytes::new(b"\"The Operator\" <sip:op@x.org>")).unwrap();
    assert_eq!(a.display, Some("The Operator"));
    let a = NameAddr::parse(&mut Bytes::new(b"  <sip:op@x.org>")).unwrap();
    assert_eq!(a.display, None);
    assert_eq!(NameAddr::parse(&mut Bytes::new(b"sip:op@x.org")), Err(SipParserError::InvalidNameAddr));
    assert_eq!(NameAddr::parse(&mut Bytes::new(b"<sip:op@x.org")), Err(SipParserError::InvalidNameAddr));
    assert_eq!(NameAddr::parse(&mut Bytes::new(b"\"unterminated <sip:x>")), Err(SipParserError::InvalidNameAddr));
    assert_eq!(NameAddr::parse(&mut Bytes::new(b"\"\xc3\x28\" <sip:x>")), Err(SipParserError::InvalidUtf8));
}

#[test]
fn request_line() {
    let l = RequestLine::from_bytes(b"INVITE sip:bob@biloxi.com SIP/2.0\r\n").unwrap();
    assert_eq!(*l.method(), SipMethod::Invite);
    assert_eq!(l.uri().user, Some(UserInfo::new("bob".to_string(), None)));
    let l = RequestLine::from_bytes(b"REGISTER sip:registrar.biloxi.com SIP/2.0\n").unwrap();
    assert_eq!(*l.method(), SipMethod::Register);
    let l = RequestLine::from_bytes(b"FOO sip:x SIP/2.0\r\n").unwrap();
    assert_eq!(*l.method(), SipMethod::Unknown("FOO"));
    assert_eq!(RequestLine::from_bytes(b"INVITE sip:x SIP/1.0\r\n"), Err(SipParserError::InvalidSipVersion));
    assert_eq!(RequestLine::from_bytes(b"INVITE sip:x SIP/2.0"), Err(SipParserError::MissingNewline));
    assert_eq!(RequestLine::from_bytes(b"INVITE x SIP/2.0\r\n"), Err(SipParserError::InvalidUri));
}

#[test]
fn request_and_headers() {
    let l = RequestLine::from_bytes(b"BYE sip:alice@pc33.atlanta.com SIP/2.0\r\n").unwrap();
    let mut headers = SipHeaders::new();
    assert_eq!(headers.len(), 0);
    headers.push_header(Header::Priority(Priority("urgent")));
    headers.push_header(Header::Other { name: "X-Test", value: "1" });
    assert_eq!(headers.len(), 2);
    assert_eq!(headers.get(0), Some(&Header::Priority(Priority("urgent"))));
    assert_eq!(headers.get(2), None);
    let body: &[u8] = b"v=0";
    let req = SipRequest::new(l, headers, Some(body));
    assert_eq!(*req.request_line().method(), SipMethod::Bye);
    assert_eq!(req.headers().len(), 2);
    assert_eq!(req.body(), Some(body));
}

#[test]
fn newline_and_version() {
    let mut b = Bytes::new(b"\r\nx");
    assert_eq!(parse_newline(&mut b), Ok(()));
    assert_eq!(b.as_ref(), b"x");
    assert_eq!(parse_newline(&mut b), Err(SipParserError::MissingNewline));
    assert_eq!(b.as_ref(), b"x");
    let mut b = Bytes::new(b"SIP/2.0/");
    assert_eq!(parse_sip_v2(&mut b), Ok(()));
    assert_eq!(b.as_ref(), b"/");
    assert_eq!(parse_sip_v2(&mut Bytes::new(b"SIP/2")), Err(SipParserError::InvalidSipVersion));
}

#[test]
fn transports() {
    assert_eq!(Transport::from_bytes(b"udp"), Transport::UDP);
    assert_eq!(Transport::from_bytes(b"TLS"), Transport::TLS);
    assert_eq!(Transport::from_bytes(b"Sctp"), Transport::SCTP);
    assert_eq!(Transport::from_bytes(b"WS"), Transport::WS);
    assert_eq!(Transport::from_bytes(b"wss"), Transport::WSS);
    assert_eq!(Transport::from_bytes(b"tcp"), Transport::TCP);
    assert_eq!(Transport::from_bytes(b"UDPX"), Transport::Unknown);
}

#[test]
fn header_names() {
    assert!(match_name(b"content-type", "Content-Type", Some("c")));
    assert!(match_name(b"c", "Content-Type", Some("c")));
    assert!(!match_name(b"C", "Content-Type", Some("c")));
    assert!(match_name(b"VIA", "Via", Some("v")));
    assert!(!match_name(b"Date", "Via", None));
}

#[test]
fn digest_credential() {
    let mut b = Bytes::new(b"Digest username=\"bob\", realm=\"biloxi.com\", nonce=\"dcd98b7102dd2f0e8b11d0f600bfb0c093\", uri=\"sip:bob@biloxi.com\", qop=auth, nc=00000001, cnonce=\"0a4f113b\", response=\"6629fae49393a05397450978507c4ef1\", opaque=\"5ccc069c403ebaf9f0171e9517f40e41\", foo=bar\r\n");
    let c = parse_auth_credential(&mut b).unwrap();
    match c {
        Credential::Digest(d) => {
            assert_eq!(d.username, Some("bob"));
            assert_eq!(d.realm, Some("biloxi.com"));
            assert_eq!(d.nonce, Some("dcd98b7102dd2f0e8b11d0f600bfb0c093"));
            assert_eq!(d.uri, Some("sip:bob@biloxi.com"));
            assert_eq!(d.qop, Some("auth"));
            assert_eq!(d.nc, Some("00000001"));
            assert_eq!(d.cnonce, Some("0a4f113b"));
            assert_eq!(d.response, Some("6629fae49393a05397450978507c4ef1"));
            assert_eq!(d.opaque, Some("5ccc069c403ebaf9f0171e9517f40e41"));
            assert_eq!(d.algorithm, None);
            assert_eq!(d.param.get("foo"), Some("bar"));
            assert!(!d.param.contains("realm"));
        }
        _ => panic!("expected a Digest credential"),
    }
    assert_eq!(b.as_ref(), b"\r\n");
}

#[test]
fn other_credential_and_errors() {
    let c = parse_auth_credential(&mut Bytes::new(b"Basic realm=x, charset=\"UTF-8\"")).unwrap();
    match c {
        Credential::Other { scheme, param } => {
            assert_eq!(scheme, "Basic");
            assert_eq!(param.get("realm"), Some("x"));
            assert_eq!(param.get("charset"), Some("UTF-8"));
        }
        _ => panic!("expected another scheme"),
    }
    assert_eq!(parse_auth_credential(&mut Bytes::new(b"")), Err(SipParserError::UnexpectedEof));
    assert_eq!(
        parse_auth_credential(&mut Bytes::new(b"\"\xff\" a=b")),
        Err(SipParserError::InvalidUtf8)
    );
}

#[test]
fn digest_challenge() {
    let c = parse_auth_challenge(&mut Bytes::new(b"Digest realm=\"atlanta.com\", domain=\"sip:boxesbybob.com\", qop=\"auth\", nonce=\"f84f1cec41e6cbe5aea9c8e88d359\", opaque=\"\", stale=FALSE, algorithm=MD5")).unwrap();
    match c {
        Challenge::Digest(d) => {
            assert_eq!(d.realm, Some("atlanta.com"));
            assert_eq!(d.domain, Some("sip:boxesbybob.com"));
            assert_eq!(d.qop, Some("auth"));
            assert_eq!(d.nonce, Some("f84f1cec41e6cbe5aea9c8e88d359"));
            assert_eq!(d.opaque, Some(""));
            assert_eq!(d.stale, Some("FALSE"));
            assert_eq!(d.algorithm, Some("MD5"));
        }
        _ => panic!("expected a Digest challenge"),
    }
}

#[test]
fn digest_last_occurrence_wins() {
    let c = parse_auth_challenge(&mut Bytes::new(b"Digest realm=a, realm=b")).unwrap();
    match c {
        Challenge::Digest(d) => assert_eq!(d.realm, Some("b")),
        _ => panic!("expected a Digest challenge"),
    }
}

fn v6(s: &str) -> Option<[u16; 8]> {
    parse_ipv6(s.as_bytes()).map(|a| a.segments)
}

#[test]
fn ipv6_addresses() {
    assert_eq!(v6("::"), Some([0; 8]));
    assert_eq!(v6("::1"), Some([0, 0, 0, 0, 0, 0, 0, 1]));
    assert_eq!(v6("1::"), Some([1, 0, 0, 0, 0, 0, 0, 0]));
    assert_eq!(v6("1:2:3:4:5:6:7:8"), Some([1, 2, 3, 4, 5, 6, 7, 8]));
    assert_eq!(v6("FE80::0202:B3FF:FE1E:8329"), Some([0xfe80, 0, 0, 0, 0x202, 0xb3ff, 0xfe1e, 0x8329]));
    assert_eq!(v6("::ffff:192.0.2.1"), Some([0, 0, 0, 0, 0, 0xffff, 0xc000, 0x0201]));
    assert_eq!(v6("1:2:3:4:5:6:1.2.3.4"), Some([1, 2, 3, 4, 5, 6, 0x0102, 0x0304]));
    assert_eq!(v6("1:2:3:4:5:6:7::"), Some([1, 2, 3, 4, 5, 6, 7, 0]));
    assert_eq!(v6("::2:3:4:5:6:7:8"), Some([0, 2, 3, 4, 5, 6, 7, 8]));
    assert_eq!(v6("1:2:3:4:5:6:7"), None);
    assert_eq!(v6("1:2:3:4:5:6:7:8:9"), None);
    assert_eq!(v6("1:2:3:4:5:6:7:8::"), None);
    assert_eq!(v6(":::"), None);
    assert_eq!(v6("1::2::3"), None);
    assert_eq!(v6("12345::"), None);
    assert_eq!(v6("1.2.3.4::"), None);
    assert_eq!(v6("1.2.3.4"), None);
    assert_eq!(v6(":1::"), None);
    assert_eq!(v6("1:"), None);
    assert_eq!(v6(""), None);
    assert_eq!(parse_host_port(&mut Bytes::new(b"[1::2::3]")), Err(SipParserError::InvalidHost));
}

#[test]
fn via_params_default_is_empty() {
    let p = ViaParams::default();
    assert_eq!(p, ViaParams::new());
    assert_eq!(p.branch(), None);
    assert_eq!(p.rport(), None);
}

#[test]
fn ipv4_text_reads_back() {
    for o in [[0u8, 9, 10, 255], [192, 0, 2, 1], [100, 99, 1, 0]] {
        let text = format!("{}.{}.{}.{}", o[0], o[1], o[2], o[3]);
        assert_eq!(parse_ipv4(text.as_bytes()).map(|a| a.octets), Some(o));
    }
}

#[test]
fn param_reads_back() {
    let mut b = Bytes::new(b";received=192.0.2.4\r\n");
    let (name, value) = parse_generic_param(&mut b).unwrap();
    assert_eq!((name, value), ("received", Some("192.0.2.4")));
    assert_eq!(b.as_ref(), b"\r\n");
}
