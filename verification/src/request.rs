//! SIP requests: the request line and the request.
use vstd::prelude::*;
use crate::chars::bytes_eq;
use crate::error::Result;
use crate::headers::SipHeaders;
use crate::parser::{parse_newline, parse_sip_v2, spec_newline, spec_sip_v2};
use crate::scanner::{Bytes, CharClass, scan_while, lemma_scan_ascii};
use vstd::utf8::valid_utf8;
use crate::text::{text, utf8_str};
use crate::uri::{Uri, UriView, spec_uri};

verus! {

/// The method of a request.
#[derive(Debug, PartialEq, Eq)]
pub enum SipMethod<'a> {
    Invite,
    Ack,
    Bye,
    Cancel,
    Register,
    Options,
    Info,
    Notify,
    Subscribe,
    Update,
    Refer,
    Prack,
    Message,
    Publish,
    /// A method with no meaning to this library, by its name.
    Unknown(&'a str),
}

/// What a method is.
pub enum MethodView {
    Invite,
    Ack,
    Bye,
    Cancel,
    Register,
    Options,
    Info,
    Notify,
    Subscribe,
    Update,
    Refer,
    Prack,
    Message,
    Publish,
    Unknown(Seq<char>),
}

impl<'a> View for SipMethod<'a> {
    type V = MethodView;

    open spec fn view(&self) -> MethodView {
        match self {
            SipMethod::Invite => MethodView::Invite,
            SipMethod::Ack => MethodView::Ack,
            SipMethod::Bye => MethodView::Bye,
            SipMethod::Cancel => MethodView::Cancel,
            SipMethod::Register => MethodView::Register,
            SipMethod::Options => MethodView::Options,
            SipMethod::Info => MethodView::Info,
            SipMethod::Notify => MethodView::Notify,
            SipMethod::Subscribe => MethodView::Subscribe,
            SipMethod::Update => MethodView::Update,
            SipMethod::Refer => MethodView::Refer,
            SipMethod::Prack => MethodView::Prack,
            SipMethod::Message => MethodView::Message,
            SipMethod::Publish => MethodView::Publish,
            SipMethod::Unknown(n) => MethodView::Unknown(n@),
        }
    }
}

/// The method that a name stands for (names are case-sensitive).
pub open spec fn spec_method(b: Seq<u8>) -> MethodView {
    if b == seq![0x49u8, 0x4eu8, 0x56u8, 0x49u8, 0x54u8, 0x45u8] {
        MethodView::Invite
    } else if b == seq![0x41u8, 0x43u8, 0x4bu8] {
        MethodView::Ack
    } else if b == seq![0x42u8, 0x59u8, 0x45u8] {
        MethodView::Bye
    } else if b == seq![0x43u8, 0x41u8, 0x4eu8, 0x43u8, 0x45u8, 0x4cu8] {
        MethodView::Cancel
    } else if b == seq![0x52u8, 0x45u8, 0x47u8, 0x49u8, 0x53u8, 0x54u8, 0x45u8, 0x52u8] {
        MethodView::Register
    } else if b == seq![0x4fu8, 0x50u8, 0x54u8, 0x49u8, 0x4fu8, 0x4eu8, 0x53u8] {
        MethodView::Options
    } else if b == seq![0x49u8, 0x4eu8, 0x46u8, 0x4fu8] {
        MethodView::Info
    } else if b == seq![0x4eu8, 0x4fu8, 0x54u8, 0x49u8, 0x46u8, 0x59u8] {
        MethodView::Notify
    } else if b == seq![0x53u8, 0x55u8, 0x42u8, 0x53u8, 0x43u8, 0x52u8, 0x49u8, 0x42u8, 0x45u8] {
        MethodView::Subscribe
    } else if b == seq![0x55u8, 0x50u8, 0x44u8, 0x41u8, 0x54u8, 0x45u8] {
        MethodView::Update
    } else if b == seq![0x52u8, 0x45u8, 0x46u8, 0x45u8, 0x52u8] {
        MethodView::Refer
    } else if b == seq![0x50u8, 0x52u8, 0x41u8, 0x43u8, 0x4bu8] {
        MethodView::Prack
    } else if b == seq![0x4du8, 0x45u8, 0x53u8, 0x53u8, 0x41u8, 0x47u8, 0x45u8] {
        MethodView::Message
    } else if b == seq![0x50u8, 0x55u8, 0x42u8, 0x4cu8, 0x49u8, 0x53u8, 0x48u8] {
        MethodView::Publish
    } else {
        MethodView::Unknown(text(b))
    }
}

impl<'a> SipMethod<'a> {
    /// The method that a name stands for.
    pub fn from_bytes(b: &'a [u8]) -> (m: SipMethod<'a>)
        requires
            valid_utf8(b@),
        ensures
            m@ == spec_method(b@),
    {
        let m0: [u8; 6] = [0x49, 0x4e, 0x56, 0x49, 0x54, 0x45];
        let m1: [u8; 3] = [0x41, 0x43, 0x4b];
        let m2: [u8; 3] = [0x42, 0x59, 0x45];
        let m3: [u8; 6] = [0x43, 0x41, 0x4e, 0x43, 0x45, 0x4c];
        let m4: [u8; 8] = [0x52, 0x45, 0x47, 0x49, 0x53, 0x54, 0x45, 0x52];
        let m5: [u8; 7] = [0x4f, 0x50, 0x54, 0x49, 0x4f, 0x4e, 0x53];
        let m6: [u8; 4] = [0x49, 0x4e, 0x46, 0x4f];
        let m7: [u8; 6] = [0x4e, 0x4f, 0x54, 0x49, 0x46, 0x59];
        let m8: [u8; 9] = [0x53, 0x55, 0x42, 0x53, 0x43, 0x52, 0x49, 0x42, 0x45];
        let m9: [u8; 6] = [0x55, 0x50, 0x44, 0x41, 0x54, 0x45];
        let m10: [u8; 5] = [0x52, 0x45, 0x46, 0x45, 0x52];
        let m11: [u8; 5] = [0x50, 0x52, 0x41, 0x43, 0x4b];
        let m12: [u8; 7] = [0x4d, 0x45, 0x53, 0x53, 0x41, 0x47, 0x45];
        let m13: [u8; 7] = [0x50, 0x55, 0x42, 0x4c, 0x49, 0x53, 0x48];
        proof {
            assert(m0@ == seq![0x49u8, 0x4eu8, 0x56u8, 0x49u8, 0x54u8, 0x45u8]);
            assert(m1@ == seq![0x41u8, 0x43u8, 0x4bu8]);
            assert(m2@ == seq![0x42u8, 0x59u8, 0x45u8]);
            assert(m3@ == seq![0x43u8, 0x41u8, 0x4eu8, 0x43u8, 0x45u8, 0x4cu8]);
            assert(m4@ == seq![0x52u8, 0x45u8, 0x47u8, 0x49u8, 0x53u8, 0x54u8, 0x45u8, 0x52u8]);
            assert(m5@ == seq![0x4fu8, 0x50u8, 0x54u8, 0x49u8, 0x4fu8, 0x4eu8, 0x53u8]);
            assert(m6@ == seq![0x49u8, 0x4eu8, 0x46u8, 0x4fu8]);
            assert(m7@ == seq![0x4eu8, 0x4fu8, 0x54u8, 0x49u8, 0x46u8, 0x59u8]);
            assert(m8@ == seq![0x53u8, 0x55u8, 0x42u8, 0x53u8, 0x43u8, 0x52u8, 0x49u8, 0x42u8, 0x45u8]);
            assert(m9@ == seq![0x55u8, 0x50u8, 0x44u8, 0x41u8, 0x54u8, 0x45u8]);
            assert(m10@ == seq![0x52u8, 0x45u8, 0x46u8, 0x45u8, 0x52u8]);
            assert(m11@ == seq![0x50u8, 0x52u8, 0x41u8, 0x43u8, 0x4bu8]);
            assert(m12@ == seq![0x4du8, 0x45u8, 0x53u8, 0x53u8, 0x41u8, 0x47u8, 0x45u8]);
            assert(m13@ == seq![0x50u8, 0x55u8, 0x42u8, 0x4cu8, 0x49u8, 0x53u8, 0x48u8]);
        }
        if bytes_eq(b, &m0) {
            SipMethod::Invite
        } else if bytes_eq(b, &m1) {
            SipMethod::Ack
        } else if bytes_eq(b, &m2) {
            SipMethod::Bye
        } else if bytes_eq(b, &m3) {
            SipMethod::Cancel
        } else if bytes_eq(b, &m4) {
            SipMethod::Register
        } else if bytes_eq(b, &m5) {
            SipMethod::Options
        } else if bytes_eq(b, &m6) {
            SipMethod::Info
        } else if bytes_eq(b, &m7) {
            SipMethod::Notify
        } else if bytes_eq(b, &m8) {
            SipMethod::Subscribe
        } else if bytes_eq(b, &m9) {
            SipMethod::Update
        } else if bytes_eq(b, &m10) {
            SipMethod::Refer
        } else if bytes_eq(b, &m11) {
            SipMethod::Prack
        } else if bytes_eq(b, &m12) {
            SipMethod::Message
        } else if bytes_eq(b, &m13) {
            SipMethod::Publish
        } else {
            match utf8_str(b) {
                Ok(name) => SipMethod::Unknown(name),
                Err(_) => SipMethod::Unknown(""),
            }
        }
    }
}

/// Represents a SIP Request-Line.
#[derive(Debug, PartialEq, Eq)]
pub struct RequestLine<'a> {
    pub(crate) method: SipMethod<'a>,
    pub(crate) uri: Uri<'a>,
}

/// What a request line holds.
pub struct RequestLineView {
    pub method: MethodView,
    pub uri: UriView,
}

impl<'a> View for RequestLine<'a> {
    type V = RequestLineView;

    closed spec fn view(&self) -> RequestLineView {
        RequestLineView { method: self.method@, uri: self.uri@ }
    }
}

/// A request line that starts at `i`: the method (letters), spaces, the
/// Request-URI, spaces, `SIP/2.0` and the line break.
pub open spec fn spec_request_line(s: Seq<u8>, i: int) -> (Result<RequestLineView>, int) {
    let m = scan_while(s, i, CharClass::Alpha);
    let method = spec_method(s.subrange(i, m));
    let j = scan_while(s, m, CharClass::Space);
    match spec_uri(s, j) {
        (Err(e), k) => (Err(e), k),
        (Ok(u), k) => {
            let k2 = scan_while(s, k, CharClass::Space);
            match spec_sip_v2(s, k2) {
                (Err(e), p) => (Err(e), p),
                (Ok(_), p) => match spec_newline(s, p) {
                    (Err(e), q) => (Err(e), q),
                    (Ok(_), q) => (Ok(RequestLineView { method, uri: u }), q),
                },
            }
        },
    }
}

impl<'a> RequestLine<'a> {
    pub fn method(&self) -> (r: &SipMethod<'a>)
        ensures
            r@ == self@.method,
    {
        &self.method
    }

    pub fn uri(&self) -> (r: &Uri<'a>)
        ensures
            r@ == self@.uri,
    {
        &self.uri
    }

    /// Reads a request line from the start of `src`.
    pub fn from_bytes(src: &'a [u8]) -> (r: Result<RequestLine<'a>>)
        ensures
            r is Ok <==> spec_request_line(src@, 0).0 is Ok,
            r matches Ok(l) ==> l@ == spec_request_line(src@, 0).0->Ok_0,
            r matches Err(e) ==> e == spec_request_line(src@, 0).0->Err_0,
    {
        let mut bytes = Bytes::new(src);
        Self::parse(&mut bytes)
    }

    /// Reads a request line.
    pub fn parse(bytes: &mut Bytes<'a>) -> (r: Result<RequestLine<'a>>)
        ensures
            final(bytes).data() == old(bytes).data(),
            old(bytes).pos() <= final(bytes).pos() <= final(bytes).data().len(),
            final(bytes).pos() == spec_request_line(old(bytes).data(), old(bytes).pos()).1,
            r is Ok <==> spec_request_line(old(bytes).data(), old(bytes).pos()).0 is Ok,
            r matches Ok(l) ==> l@ == spec_request_line(old(bytes).data(), old(bytes).pos()).0->Ok_0,
            r matches Err(e) ==> e == spec_request_line(old(bytes).data(), old(bytes).pos()).0->Err_0,
    {
        let i = bytes.position();
        let method = bytes.read_while(CharClass::Alpha);
        proof {
            lemma_scan_ascii(bytes.data(), i as int, CharClass::Alpha);
            crate::text::lemma_ascii_valid_utf8(method@);
        }
        let method = SipMethod::from_bytes(method);
        bytes.skip_space();
        let uri = Uri::parse(bytes)?;
        bytes.skip_space();
        parse_sip_v2(bytes)?;
        parse_newline(bytes)?;
        Ok(RequestLine { method, uri })
    }
}

/// A SIP request: its request line, headers and optional body.
#[derive(Debug, PartialEq, Eq)]
pub struct SipRequest<'a> {
    pub req_line: RequestLine<'a>,
    pub headers: SipHeaders<'a>,
    pub body: Option<&'a [u8]>,
}

impl<'a> SipRequest<'a> {
    pub fn new(req_line: RequestLine<'a>, headers: SipHeaders<'a>, body: Option<&'a [u8]>) -> (r: Self)
        ensures
            r.req_line == req_line,
            r.headers == headers,
            r.body == body,
    {
        Self { body, req_line, headers }
    }

    pub fn headers(&self) -> (r: &SipHeaders<'a>)
        ensures
            *r == self.headers,
    {
        &self.headers
    }

    pub fn body(&self) -> (r: Option<&'a [u8]>)
        ensures
            r == self.body,
    {
        self.body
    }

    pub fn request_line(&self) -> (r: &RequestLine<'a>)
        ensures
            *r == self.req_line,
    {
        &self.req_line
    }
}

} // verus!
