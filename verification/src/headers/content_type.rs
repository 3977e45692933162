//! The `Content-Type` header.
use vstd::prelude::*;
use crate::error::Result;
use crate::params::{Params, opt_params, params_of, parse_opt_params, spec_params};
use crate::scanner::{Bytes, CharClass, scan_while, lemma_scan_ascii, lemma_scan_while};
use crate::text::{text, ascii_str};

verus! {

/// A media type: its type and subtype.
#[derive(Debug, PartialEq, Eq)]
pub struct MimeType<'a> {
    pub mtype: &'a str,
    pub subtype: &'a str,
}

/// A media type with its parameters, if it has any.
#[derive(Debug, PartialEq, Eq)]
pub struct MediaType<'a> {
    pub mimetype: MimeType<'a>,
    pub param: Option<Params<'a>>,
}

/// Indicates the media type of the `message-body` sent to the recipient.
#[derive(Debug, PartialEq, Eq)]
pub struct ContentType<'a>(pub MediaType<'a>);

impl<'a> ContentType<'a> {
    pub const NAME: &'static str = "Content-Type";
    pub const SHORT_NAME: &'static str = "c";

    /// Where the parts of a Content-Type value that starts at `i` end: the
    /// type, the subtype (after one byte, the `/`) and the parameters.
    pub open spec fn spec_parts(s: Seq<u8>, i: int) -> (int, int, int, int) {
        let i1 = scan_while(s, i, CharClass::Token);
        let i2 = if 0 <= i1 < s.len() { i1 + 1 } else { i1 };
        let i3 = scan_while(s, i2, CharClass::Token);
        let i4 = spec_params(s, i3, CharClass::Token, true).1;
        (i1, i2, i3, i4)
    }

    /// Reads a Content-Type value: a token (the type), one byte (the `/`),
    /// a token (the subtype), then the parameters.
    pub fn parse(bytes: &mut Bytes<'a>) -> (r: Result<ContentType<'a>>)
        ensures
            final(bytes).data() == old(bytes).data(),
            old(bytes).pos() <= final(bytes).pos() <= final(bytes).data().len(),
            ({
                let s = old(bytes).data();
                let i = old(bytes).pos();
                let (i1, i2, i3, i4) = Self::spec_parts(s, i);
                &&& final(bytes).pos() == i4
                &&& r matches Ok(c) && {
                    &&& c.0.mimetype.mtype@ == text(s.subrange(i, i1))
                    &&& c.0.mimetype.subtype@ == text(s.subrange(i2, i3))
                    &&& opt_params(c.0.param) == params_of(spec_params(s, i3, CharClass::Token, true).0)
                }
            }),
    {
        let i = bytes.position();
        let mtype = bytes.read_while(CharClass::Token);
        proof {
            lemma_scan_ascii(bytes.data(), i as int, CharClass::Token);
            lemma_scan_while(bytes.data(), i as int, CharClass::Token);
        }
        let mtype = ascii_str(mtype);
        let _ = bytes.next();
        let i2 = bytes.position();
        let sub = bytes.read_while(CharClass::Token);
        proof {
            lemma_scan_ascii(bytes.data(), i2 as int, CharClass::Token);
        }
        let subtype = ascii_str(sub);
        let param = parse_opt_params(bytes, CharClass::Token, true);
        Ok(ContentType(MediaType { mimetype: MimeType { mtype, subtype }, param }))
    }
}

} // verus!
