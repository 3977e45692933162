//! The `Priority` header.
use vstd::prelude::*;
use crate::error::Result;
use crate::scanner::{Bytes, CharClass, scan_while, lemma_scan_ascii};
use crate::text::{text, ascii_str};

verus! {

/// Indicates the urgency of the request as perceived by the client.
#[derive(Debug, PartialEq, Eq)]
pub struct Priority<'a>(pub &'a str);

impl<'a> Priority<'a> {
    pub const NAME: &'static str = "Priority";

    /// The end of a Priority value that starts at `i`: the token characters
    /// that follow.
    pub open spec fn spec_end(s: Seq<u8>, i: int) -> int {
        scan_while(s, i, CharClass::Token)
    }

    /// Reads a Priority value: the token that comes next (possibly empty).
    pub fn parse(bytes: &mut Bytes<'a>) -> (r: Result<Priority<'a>>)
        ensures
            final(bytes).data() == old(bytes).data(),
            old(bytes).pos() <= final(bytes).pos() <= final(bytes).data().len(),
            final(bytes).pos() == Self::spec_end(old(bytes).data(), old(bytes).pos()),
            r matches Ok(p) && p.0@ == text(
                old(bytes).data().subrange(old(bytes).pos(), final(bytes).pos()),
            ),
    {
        let start = bytes.position();
        let priority = bytes.read_while(CharClass::Token);
        proof {
            lemma_scan_ascii(bytes.data(), start as int, CharClass::Token);
        }
        Ok(Priority(ascii_str(priority)))
    }
}

} // verus!
