//! Turning bytes of the input into text.
use vstd::prelude::*;
use vstd::utf8::{valid_utf8, decode_utf8, encode_utf8_decode_utf8};
use vstd::string::StringSliceAdditionalSpecFns;
use crate::error::SipParserError;

verus! {

/// `core::str::Utf8Error`, the error of `core::str::from_utf8`: nothing is
/// read from it; it only tells that the bytes were not UTF-8.
#[verifier::external_type_specification]
#[verifier::external_body]
pub struct ExUtf8Error(core::str::Utf8Error);

/// `core::str::from_utf8`: succeeds exactly on valid UTF-8 (as vstd's
/// `valid_utf8` defines it), and the string it returns is made of the bytes
/// it was given. What the error holds (where the invalid bytes start) is
/// left unsaid.
pub assume_specification[ core::str::from_utf8 ](v: &[u8]) -> (res: core::result::Result<&str, core::str::Utf8Error>)
    ensures
        res is Ok <==> valid_utf8(v@),
        res matches Ok(s) ==> s.spec_bytes() == v@,
;

/// The text that valid UTF-8 bytes encode.
pub open spec fn text(b: Seq<u8>) -> Seq<char> {
    decode_utf8(b)
}

/// Whether every byte is ASCII.
pub open spec fn all_ascii(b: Seq<u8>) -> bool {
    forall|k: int| 0 <= k < b.len() ==> #[trigger] b[k] < 0x80
}

/// ASCII bytes are valid UTF-8.
pub proof fn lemma_ascii_valid_utf8(b: Seq<u8>)
    requires
        all_ascii(b),
    ensures
        valid_utf8(b),
{
    assert(b.subrange(0, 0) =~= Seq::<u8>::empty());
    assert(vstd::utf8::partial_valid_utf8(b, 0));
    vstd::utf8::partial_valid_utf8_extend_ascii_block(b, 0, b.len() as int);
    assert(b.subrange(0, b.len() as int) =~= b);
}

/// The text of `b`, borrowed from it, or `InvalidUtf8` where `b` is not UTF-8.
pub fn utf8_str<'a>(b: &'a [u8]) -> (r: Result<&'a str, SipParserError>)
    ensures
        r is Ok <==> valid_utf8(b@),
        r matches Ok(s) ==> s@ == text(b@),
        r matches Err(e) ==> e == SipParserError::InvalidUtf8,
{
    match core::str::from_utf8(b) {
        Ok(s) => {
            proof {
                encode_utf8_decode_utf8(s@);
            }
            Ok(s)
        },
        Err(_) => Err(SipParserError::InvalidUtf8),
    }
}

/// The text of ASCII bytes, borrowed from them.
pub fn ascii_str<'a>(b: &'a [u8]) -> (s: &'a str)
    requires
        all_ascii(b@),
    ensures
        valid_utf8(b@),
        s@ == text(b@),
{
    proof {
        lemma_ascii_valid_utf8(b@);
    }
    match utf8_str(b) {
        Ok(s) => s,
        Err(_) => "",
    }
}

/// The text of ASCII bytes, as a string of its own.
pub fn ascii_string(b: &[u8]) -> (s: String)
    requires
        all_ascii(b@),
    ensures
        valid_utf8(b@),
        s@ == text(b@),
{
    ascii_str(b).to_owned()
}

/// Whether two strings are equal.
pub fn str_eq(a: &str, b: &str) -> (r: bool)
    ensures
        r == (a@ == b@),
{
    proof {
        encode_utf8_decode_utf8(a@);
        encode_utf8_decode_utf8(b@);
    }
    crate::chars::bytes_eq(a.as_bytes(), b.as_bytes())
}

} // verus!
