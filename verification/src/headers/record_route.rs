//! The `Record-Route` header.
use vstd::prelude::*;
use crate::error::Result;
use crate::params::{Params, opt_params, params_of, parse_opt_params, spec_params};
use crate::scanner::{Bytes, CharClass};
use crate::uri::{NameAddr, NameAddrView, spec_name_addr};

verus! {

/// The `Record-Route` SIP header.
///
/// Keeps proxies in the signaling path for consistent routing and session control.
#[derive(Debug, PartialEq, Eq)]
pub struct RecordRoute<'a> {
    pub addr: NameAddr<'a>,
    pub param: Option<Params<'a>>,
}

/// What a Record-Route header holds.
pub struct RecordRouteView {
    pub addr: NameAddrView,
    pub param: Option<Map<Seq<char>, Option<Seq<char>>>>,
}

impl<'a> View for RecordRoute<'a> {
    type V = RecordRouteView;

    open spec fn view(&self) -> RecordRouteView {
        RecordRouteView { addr: self.addr@, param: opt_params(self.param) }
    }
}

/// A Record-Route value that starts at `i`: a name-addr and its parameters.
pub open spec fn spec_record_route(s: Seq<u8>, i: int) -> (Result<RecordRouteView>, int) {
    match spec_name_addr(s, i) {
        (Err(e), j) => (Err(e), j),
        (Ok(a), j) => {
            let (ps, k) = spec_params(s, j, CharClass::Token, true);
            (Ok(RecordRouteView { addr: a, param: params_of(ps) }), k)
        },
    }
}

impl<'a> RecordRoute<'a> {
    pub const NAME: &'static str = "Record-Route";

    /// Reads a Record-Route value.
    pub fn parse(bytes: &mut Bytes<'a>) -> (r: Result<RecordRoute<'a>>)
        ensures
            final(bytes).data() == old(bytes).data(),
            old(bytes).pos() <= final(bytes).pos() <= final(bytes).data().len(),
            final(bytes).pos() == spec_record_route(old(bytes).data(), old(bytes).pos()).1,
            r is Ok <==> spec_record_route(old(bytes).data(), old(bytes).pos()).0 is Ok,
            r matches Ok(rr) ==> rr@ == spec_record_route(old(bytes).data(), old(bytes).pos()).0->Ok_0,
            r matches Err(e) ==> e == spec_record_route(old(bytes).data(), old(bytes).pos()).0->Err_0,
    {
        let addr = NameAddr::parse(bytes)?;
        let param = parse_opt_params(bytes, CharClass::Token, true);
        Ok(RecordRoute { addr, param })
    }
}

} // verus!
