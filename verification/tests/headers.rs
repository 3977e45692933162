use sip::headers::content_type::ContentType;
use sip::headers::date::Date;
use sip::headers::organization::Organization;
use sip::headers::priority::Priority;
use sip::scanner::Bytes;

#[test]
fn content_type_test_parse() {
    let src = b"application/sdp\r\n";
    let mut bytes = Bytes::new(src);
    let c_type = ContentType::parse(&mut bytes).unwrap();

    assert_eq!(bytes.as_ref(), b"\r\n");
    assert_eq!(c_type.0.mimetype.mtype, "application");
    assert_eq!(c_type.0.mimetype.subtype, "sdp");

    let src = b"text/html; charset=ISO-8859-4\r\n";
    let mut bytes = Bytes::new(src);
    let c_type = ContentType::parse(&mut bytes).unwrap();

    assert_eq!(bytes.as_ref(), b"\r\n");
    assert_eq!(c_type.0.mimetype.mtype, "text");
    assert_eq!(c_type.0.mimetype.subtype, "html");
    assert_eq!(c_type.0.param.unwrap().get("charset"), Some("ISO-8859-4"));
}

#[test]
fn date_test_parse() {
    let src = b"Sat, 13 Nov 2010 23:29:00 GMT\r\n";
    let mut bytes = Bytes::new(src);
    let date = Date::parse(&mut bytes).unwrap();

    assert_eq!(bytes.as_ref(), b"\r\n");
    assert_eq!(date.0, "Sat, 13 Nov 2010 23:29:00 GMT");
}

#[test]
fn organization_test_parse() {
    let src = b"Boxes by Bob\r\n";
    let mut bytes = Bytes::new(src);
    let org = Organization::parse(&mut bytes).unwrap();

    assert_eq!(org.0, "Boxes by Bob");
}

#[test]
fn priority_test_parse() {
    let src = b"emergency\r\n";
    let mut bytes = Bytes::new(src);
    let priority = Priority::parse(&mut bytes).unwrap();

    assert_eq!(priority.0, "emergency");
}
