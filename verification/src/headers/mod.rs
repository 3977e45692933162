//! SIP headers: their values, the header of any kind, and a message's list
//! of headers.
use vstd::prelude::*;

pub mod auth;
pub mod content_type;
pub mod date;
pub mod organization;
pub mod priority;
pub mod via;
pub mod record_route;

use vstd::string::StringSliceAdditionalSpecFns;
use crate::chars::{bytes_eq, eq_ignore_ascii_case, spec_eq_ignore_case};
use crate::headers::auth::{Challenge, Credential};
use crate::headers::content_type::ContentType;
use crate::headers::date::Date;
use crate::headers::organization::Organization;
use crate::headers::priority::Priority;
use crate::headers::record_route::RecordRoute;
use crate::headers::via::Via;

verus! {

/// Whether a header's name is `full` (in any case) or its short form
/// `short` (exactly).
pub fn match_name(name: &[u8], full: &str, short: Option<&str>) -> (r: bool)
    ensures
        r == (spec_eq_ignore_case(name@, full.spec_bytes()) || (short matches Some(sh) && name@
            == sh.spec_bytes())),
{
    eq_ignore_ascii_case(name, full.as_bytes()) || match short {
        Some(sh) => bytes_eq(name, sh.as_bytes()),
        None => false,
    }
}

/// A header of a SIP message.
#[derive(Debug, PartialEq, Eq)]
pub enum Header<'a> {
    ContentType(ContentType<'a>),
    Date(Date<'a>),
    Organization(Organization<'a>),
    Priority(Priority<'a>),
    RecordRoute(RecordRoute<'a>),
    Via(Via<'a>),
    Authorization(Credential<'a>),
    ProxyAuthorization(Credential<'a>),
    WWWAuthenticate(Challenge<'a>),
    ProxyAuthenticate(Challenge<'a>),
    Other { name: &'a str, value: &'a str },
}

/// The headers of a message, in order.
#[derive(Debug, PartialEq, Eq)]
pub struct SipHeaders<'a> {
    pub(crate) hdrs: Vec<Header<'a>>,
}

impl<'a> View for SipHeaders<'a> {
    type V = Seq<Header<'a>>;

    closed spec fn view(&self) -> Seq<Header<'a>> {
        self.hdrs@
    }
}

impl<'a> SipHeaders<'a> {
    pub fn new() -> (h: Self)
        ensures
            h@ == Seq::<Header<'a>>::empty(),
    {
        Self { hdrs: Vec::new() }
    }

    pub fn push_header(&mut self, hdr: Header<'a>)
        ensures
            final(self)@ == old(self)@.push(hdr),
    {
        self.hdrs.push(hdr);
    }

    /// The number of headers.
    pub fn len(&self) -> (n: usize)
        ensures
            n == self@.len(),
    {
        self.hdrs.len()
    }

    /// The header at `i`.
    pub fn get(&self, i: usize) -> (h: Option<&Header<'a>>)
        ensures
            h is Some <==> i < self@.len(),
            h matches Some(x) ==> *x == self@[i as int],
    {
        if i < self.hdrs.len() {
            Some(&self.hdrs[i])
        } else {
            None
        }
    }
}

} // verus!
