//! The `Date` header.
use vstd::prelude::*;
use vstd::utf8::valid_utf8;
use crate::error::{Result, SipParserError};
use crate::scanner::{Bytes, CharClass, scan_while};
use crate::text::{text, utf8_str};

verus! {

/// Reflects the time when the request or response is first sent.
#[derive(Debug, PartialEq, Eq)]
pub struct Date<'a>(pub &'a str);

impl<'a> Date<'a> {
    pub const NAME: &'static str = "Date";

    /// Reads a Date value: the rest of the line, which must be UTF-8.
    pub fn parse(bytes: &mut Bytes<'a>) -> (r: Result<Date<'a>>)
        ensures
            final(bytes).data() == old(bytes).data(),
            old(bytes).pos() <= final(bytes).pos() <= final(bytes).data().len(),
            final(bytes).pos() == scan_while(old(bytes).data(), old(bytes).pos(), CharClass::NotNewline),
            ({
                let line = old(bytes).data().subrange(old(bytes).pos(), final(bytes).pos());
                &&& r is Ok <==> valid_utf8(line)
                &&& r matches Ok(d) ==> d.0@ == text(line)
                &&& r matches Err(e) ==> e == SipParserError::InvalidUtf8
            }),
    {
        let date = bytes.read_until_newline();
        let date = utf8_str(date)?;
        Ok(Date(date))
    }
}

} // verus!
