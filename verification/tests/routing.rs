use sip::headers::record_route::RecordRoute;
use sip::headers::via::Via;
use sip::parser::Transport;
use sip::scanner::Bytes;
use sip::uri::{Host, HostPort, IpAddr, Ipv4Addr, Scheme};

#[test]
fn record_route_test_parse() {
    let src = b"<sip:server10.biloxi.com;lr>\r\n";
    let mut bytes = Bytes::new(src);
    let rr = RecordRoute::parse(&mut bytes);
    let rr = rr.unwrap();

    assert_eq!(rr.addr.display, None);
    assert_eq!(rr.addr.uri.scheme, Scheme::Sip);
    assert_eq!(rr.addr.uri.host, Host::DomainName("server10.biloxi.com".to_string()));
    assert_eq!(rr.addr.uri.port, None);
    assert!(rr.addr.uri.params.is_some());

    let src = b"<sip:bigbox3.site3.atlanta.com;lr>;foo=bar\r\n";
    let mut bytes = Bytes::new(src);
    let rr = RecordRoute::parse(&mut bytes);
    let rr = rr.unwrap();

    assert_eq!(rr.addr.display, None);
    assert_eq!(rr.addr.uri.scheme, Scheme::Sip);
    assert_eq!(rr.addr.uri.host, Host::DomainName("bigbox3.site3.atlanta.com".to_string()));
    assert_eq!(rr.addr.uri.port, None);
    assert_eq!(rr.param.unwrap().get("foo"), Some("bar"));
}

#[test]
fn via_test_parse() {
    let src = b"SIP/2.0/UDP bobspc.biloxi.com:5060;received=192.0.2.4\r\n";
    let mut reader = Bytes::new(src);
    let via = Via::parse(&mut reader);
    let via = via.unwrap();

    assert_eq!(via.transport, Transport::UDP);
    assert_eq!(
        via.sent_by,
        HostPort {
            host: Host::DomainName("bobspc.biloxi.com".to_string()),
            port: Some(5060)
        }
    );
    let params = via.params.unwrap();
    assert_eq!(params.received(), Some("192.0.2.4"));

    let src = b"SIP/2.0/UDP 192.0.2.1:5060 ;received=192.0.2.207 \
        ;branch=z9hG4bK77asjd\r\n";
    let mut reader = Bytes::new(src);
    let via = Via::parse(&mut reader);
    let via = via.unwrap();

    assert_eq!(via.transport, Transport::UDP);
    assert_eq!(
        via.sent_by,
        HostPort {
            host: Host::IpAddr(IpAddr::V4(Ipv4Addr::new(192, 0, 2, 1))),
            port: Some(5060)
        }
    );
    let params = via.params.unwrap();
    assert_eq!(params.received(), Some("192.0.2.207"));
    assert_eq!(params.branch(), Some("z9hG4bK77asjd"));
}
