//! The `Via` header.
//!
//! ```text
//! Via               =  ( "Via" / "v" ) HCOLON via-parm *(COMMA via-parm)
//! via-parm          =  sent-protocol LWS sent-by *( SEMI via-params )
//! via-params        =  via-ttl / via-maddr / via-received / via-branch
//!                      / via-extension
//! sent-protocol     =  protocol-name SLASH protocol-version SLASH transport
//! sent-by           =  host [ COLON port ]
//! ```
use vstd::prelude::*;
use vstd::utf8::{valid_utf8, encode_utf8};
use crate::error::{Result, SipParserError};
use crate::host::{HostPort, HostView, parse_host_port, spec_host_port};
use crate::number::{parse_u16, spec_parse_u16};
use crate::params::{Param, Params, RawParam, lookup, opt_params, opt_str, params_map, parse_params_of, raw_param_text, spec_params};
use crate::parser::{Transport, parse_sip_v2, spec_sip_v2, spec_transport};
use crate::scanner::{Bytes, CharClass, byte_at, scan_while};
use crate::text::{str_eq, text, utf8_str};

verus! {

/// The parameters of a Via header that have a meaning of their own.
#[derive(Debug, PartialEq, Eq)]
pub struct ViaParams<'a> {
    ttl: Option<&'a str>,
    maddr: Option<&'a str>,
    received: Option<&'a str>,
    branch: Option<&'a str>,
    rport: Option<u16>,
}

/// What the parameters of a Via header hold.
pub struct ViaParamsView {
    pub ttl: Option<Seq<char>>,
    pub maddr: Option<Seq<char>>,
    pub received: Option<Seq<char>>,
    pub branch: Option<Seq<char>>,
    pub rport: Option<u16>,
}

impl<'a> View for ViaParams<'a> {
    type V = ViaParamsView;

    closed spec fn view(&self) -> ViaParamsView {
        ViaParamsView {
            ttl: opt_str(self.ttl),
            maddr: opt_str(self.maddr),
            received: opt_str(self.received),
            branch: opt_str(self.branch),
            rport: self.rport,
        }
    }
}

impl<'a> ViaParams<'a> {
    /// No parameter set.
    pub fn new() -> (p: Self)
        ensures
            p@ == (ViaParamsView { ttl: None, maddr: None, received: None, branch: None, rport: None }),
    {
        ViaParams { ttl: None, maddr: None, received: None, branch: None, rport: None }
    }

    pub fn set_branch(&mut self, branch: &'a str)
        ensures
            final(self)@ == (ViaParamsView { branch: Some(branch@), ..old(self)@ }),
    {
        self.branch = Some(branch);
    }

    pub fn set_ttl(&mut self, ttl: &'a str)
        ensures
            final(self)@ == (ViaParamsView { ttl: Some(ttl@), ..old(self)@ }),
    {
        self.ttl = Some(ttl);
    }

    pub fn set_maddr(&mut self, maddr: &'a str)
        ensures
            final(self)@ == (ViaParamsView { maddr: Some(maddr@), ..old(self)@ }),
    {
        self.maddr = Some(maddr);
    }

    pub fn set_received(&mut self, received: &'a str)
        ensures
            final(self)@ == (ViaParamsView { received: Some(received@), ..old(self)@ }),
    {
        self.received = Some(received);
    }

    pub fn set_rport(&mut self, rport: u16)
        ensures
            final(self)@ == (ViaParamsView { rport: Some(rport), ..old(self)@ }),
    {
        self.rport = Some(rport);
    }

    pub fn branch(&self) -> (r: Option<&'a str>)
        ensures
            opt_str(r) == self@.branch,
    {
        self.branch
    }

    pub fn ttl(&self) -> (r: Option<&'a str>)
        ensures
            opt_str(r) == self@.ttl,
    {
        self.ttl
    }

    pub fn maddr(&self) -> (r: Option<&'a str>)
        ensures
            opt_str(r) == self@.maddr,
    {
        self.maddr
    }

    pub fn received(&self) -> (r: Option<&'a str>)
        ensures
            opt_str(r) == self@.received,
    {
        self.received
    }

    pub fn rport(&self) -> (r: Option<u16>)
        ensures
            r == self@.rport,
    {
        self.rport
    }
}

impl<'a> Default for ViaParams<'a> {
    fn default() -> (p: Self)
        ensures
            p@ == (ViaParamsView { ttl: None, maddr: None, received: None, branch: None, rport: None }),
    {
        ViaParams::new()
    }
}

/// The names of the Via parameters that have a meaning of their own.
pub open spec fn is_via_known(n: Seq<char>) -> bool {
    n == "ttl"@ || n == "maddr"@ || n == "received"@ || n == "branch"@ || n == "rport"@
}

/// The parameters whose names have no meaning of their own, in order.
pub open spec fn drop_known(l: Seq<(Seq<char>, Option<Seq<char>>)>) -> Seq<(Seq<char>, Option<Seq<char>>)>
    decreases l.len(),
{
    if l.len() == 0 {
        l
    } else if is_via_known(l.last().0) {
        drop_known(l.drop_last())
    } else {
        drop_known(l.drop_last()).push(l.last())
    }
}

/// What the `rport` parameter's value gives: nothing where it is absent,
/// empty or not a `u16`; the port where it is one from 1 to 65535; an error
/// where it is 0.
pub open spec fn spec_rport(v: Option<Seq<char>>) -> Result<Option<u16>> {
    match v {
        Some(t) => if t.len() > 0 {
            match spec_parse_u16(encode_utf8(t)) {
                Some(p) => if spec_is_valid_port(p) {
                    Ok(Some(p))
                } else {
                    Err(SipParserError::InvalidRport)
                },
                None => Ok(None),
            }
        } else {
            Ok(None)
        },
        None => Ok(None),
    }
}

/// A port is valid when it is not 0.
pub open spec fn spec_is_valid_port(p: u16) -> bool {
    p != 0
}

pub fn is_valid_port(p: u16) -> (r: bool)
    ensures
        r == spec_is_valid_port(p),
{
    p != 0
}

/// The parameters of a Via header that parameters in a list set: each the
/// value of its last occurrence.
pub open spec fn via_params_of(m: Map<Seq<char>, Option<Seq<char>>>, rport: Option<u16>) -> ViaParamsView {
    ViaParamsView {
        ttl: lookup(m, "ttl"@),
        maddr: lookup(m, "maddr"@),
        received: lookup(m, "received"@),
        branch: lookup(m, "branch"@),
        rport,
    }
}

/// The parameters of a Via header that start at `i`: nothing where, after
/// spaces, no `;` comes; else the parameters (names and values of Via
/// parameter characters) split into those with a meaning of their own and
/// the others (`None` where there is no other).
pub open spec fn spec_via_params(s: Seq<u8>, i: int) -> (
    Result<(Option<ViaParamsView>, Option<Map<Seq<char>, Option<Seq<char>>>>)>,
    int,
) {
    let i1 = scan_while(s, i, CharClass::Space);
    if byte_at(s, i1) != Some(0x3bu8) {
        (Ok((None, None)), i1)
    } else {
        let (raw, j) = spec_params(s, i1, CharClass::ViaParam, true);
        let l = raw.map_values(|p: RawParam| raw_param_text(p));
        let m = params_map(l);
        let o = drop_known(l);
        match spec_rport(lookup(m, "rport"@)) {
            Err(e) => (Err(e), j),
            Ok(rp) => (
                Ok(
                    (
                        Some(via_params_of(m, rp)),
                        if o.len() == 0 {
                            None
                        } else {
                            Some(params_map(o))
                        },
                    ),
                ),
                j,
            ),
        }
    }
}

/// The protocol version, the `/`, the transport (up to the next space) and
/// the spaces after it.
pub open spec fn spec_via_head(s: Seq<u8>, i: int) -> (Result<Transport>, int) {
    match spec_sip_v2(s, i) {
        (Err(e), j) => (Err(e), j),
        (Ok(_), j) => if byte_at(s, j) == Some(0x2fu8) {
            let k = scan_while(s, j + 1, CharClass::Except(0x20u8));
            (Ok(spec_transport(s.subrange(j + 1, k))), scan_while(s, k, CharClass::Space))
        } else {
            (Err(SipParserError::InvalidVia), if 0 <= j < s.len() { j + 1 } else { j })
        },
    }
}

/// An optional comment: `(`, text up to `)`, and the `)`.
pub open spec fn spec_comment(s: Seq<u8>, q: int) -> (Result<Option<Seq<char>>>, int) {
    if byte_at(s, q) == Some(0x28u8) {
        let c = scan_while(s, q + 1, CharClass::Except(0x29u8));
        let e = if 0 <= c < s.len() { c + 1 } else { c };
        let t = s.subrange(q + 1, c);
        if valid_utf8(t) {
            (Ok(Some(text(t))), e)
        } else {
            (Err(SipParserError::InvalidUtf8), e)
        }
    } else {
        (Ok(None), q)
    }
}

/// What a Via header holds.
pub struct ViaView {
    pub transport: Transport,
    pub sent_by: (HostView, Option<u32>),
    pub params: Option<ViaParamsView>,
    pub comment: Option<Seq<char>>,
    pub others_params: Option<Map<Seq<char>, Option<Seq<char>>>>,
}

/// A Via value that starts at `i`: version, `/`, transport, spaces, host and
/// port, parameters, and an optional comment. With where the reading stopped.
pub open spec fn spec_via(s: Seq<u8>, i: int) -> (Result<ViaView>, int) {
    match spec_via_head(s, i) {
        (Err(e), j) => (Err(e), j),
        (Ok(t), j) => match spec_host_port(s, j) {
            (Err(e), k) => (Err(e), k),
            (Ok(hp), k) => match spec_via_params(s, k) {
                (Err(e), p) => (Err(e), p),
                (Ok((vp, o)), p) => match spec_comment(s, p) {
                    (Err(e), q) => (Err(e), q),
                    (Ok(c), q) => (
                        Ok(ViaView { transport: t, sent_by: hp, params: vp, comment: c, others_params: o }),
                        q,
                    ),
                },
            },
        },
    }
}

/// The `Via` SIP header.
///
/// Indicates the path taken by the request so far and the
/// path that should be followed in routing responses.
#[derive(Debug, PartialEq, Eq)]
pub struct Via<'a> {
    pub transport: Transport,
    pub sent_by: HostPort,
    pub params: Option<ViaParams<'a>>,
    pub comment: Option<&'a str>,
    pub others_params: Option<Params<'a>>,
}

/// The view of optional Via parameters.
pub open spec fn opt_via_params(p: Option<ViaParams>) -> Option<ViaParamsView> {
    match p {
        Some(p) => Some(p@),
        None => None,
    }
}

impl<'a> View for Via<'a> {
    type V = ViaView;

    open spec fn view(&self) -> ViaView {
        ViaView {
            transport: self.transport,
            sent_by: self.sent_by@,
            params: opt_via_params(self.params),
            comment: opt_str(self.comment),
            others_params: opt_params(self.others_params),
        }
    }
}

/// Reads the version, the `/`, the transport and the spaces after it.
fn parse_via_head(reader: &mut Bytes) -> (r: Result<Transport>)
    ensures
        final(reader).data() == old(reader).data(),
        old(reader).pos() <= final(reader).pos() <= final(reader).data().len(),
        (r, final(reader).pos()) == spec_via_head(old(reader).data(), old(reader).pos()),
{
    parse_sip_v2(reader)?;
    let _ = reader.position();
    if reader.next() != Some(0x2fu8) {
        return Err(SipParserError::InvalidVia);
    }
    let b = reader.read_until(0x20);
    let transport = Transport::from_bytes(b);
    reader.skip_space();
    Ok(transport)
}

/// Reads an optional comment.
fn parse_comment<'a>(reader: &mut Bytes<'a>) -> (r: Result<Option<&'a str>>)
    ensures
        final(reader).data() == old(reader).data(),
        old(reader).pos() <= final(reader).pos() <= final(reader).data().len(),
        final(reader).pos() == spec_comment(old(reader).data(), old(reader).pos()).1,
        r is Ok <==> spec_comment(old(reader).data(), old(reader).pos()).0 is Ok,
        r matches Ok(c) ==> opt_str(c) == spec_comment(old(reader).data(), old(reader).pos()).0->Ok_0,
        r matches Err(e) ==> e == spec_comment(old(reader).data(), old(reader).pos()).0->Err_0,
{
    let _ = reader.position();
    if reader.peek() == Some(0x28u8) {
        let _ = reader.next();
        let comment = reader.read_until(0x29);
        let _ = reader.position();
        let _ = reader.next();
        let c = utf8_str(comment)?;
        Ok(Some(c))
    } else {
        Ok(None)
    }
}

impl<'a> Via<'a> {
    pub const NAME: &'static str = "Via";
    pub const SHORT_NAME: &'static str = "v";

    /// Reads a Via value.
    pub fn parse(reader: &mut Bytes<'a>) -> (r: Result<Via<'a>>)
        ensures
            final(reader).data() == old(reader).data(),
            old(reader).pos() <= final(reader).pos() <= final(reader).data().len(),
            final(reader).pos() == spec_via(old(reader).data(), old(reader).pos()).1,
            r is Ok <==> spec_via(old(reader).data(), old(reader).pos()).0 is Ok,
            r matches Ok(v) ==> v@ == spec_via(old(reader).data(), old(reader).pos()).0->Ok_0,
            r matches Err(e) ==> e == spec_via(old(reader).data(), old(reader).pos()).0->Err_0,
    {
        let transport = parse_via_head(reader)?;
        let sent_by = parse_host_port(reader)?;
        let (params, others_params) = Self::parse_params(reader)?;
        let comment = parse_comment(reader)?;
        Ok(Via { transport, sent_by, params, others_params, comment })
    }

    /// Reads the parameters of a Via header.
    pub fn parse_params(reader: &mut Bytes<'a>) -> (r: Result<(Option<ViaParams<'a>>, Option<Params<'a>>)>)
        ensures
            final(reader).data() == old(reader).data(),
            old(reader).pos() <= final(reader).pos() <= final(reader).data().len(),
            final(reader).pos() == spec_via_params(old(reader).data(), old(reader).pos()).1,
            r is Ok <==> spec_via_params(old(reader).data(), old(reader).pos()).0 is Ok,
            r matches Ok((p, o)) ==> (opt_via_params(p), opt_params(o)) == spec_via_params(
                old(reader).data(),
                old(reader).pos(),
            ).0->Ok_0,
            r matches Err(e) ==> e == spec_via_params(old(reader).data(), old(reader).pos()).0->Err_0,
            r matches Ok((Some(p), _)) ==> (p@.rport matches Some(port) ==> spec_is_valid_port(port)),
    {
        reader.skip_space();
        if reader.peek() != Some(0x3bu8) {
            return Ok((None, None));
        }
        let list = parse_params_of(reader, CharClass::ViaParam, true);
        let ghost l = list@.map_values(|p: Param| p@);
        let mut params = ViaParams::new();
        let mut rport_p: Option<&'a str> = None;
        let mut others: Vec<Param<'a>> = Vec::new();
        let mut rest = list;
        let ghost mut done: int = 0;
        while rest.len() > 0
            invariant
                0 <= done <= l.len(),
                rest@.map_values(|p: Param| p@) == l.skip(done),
                params@ == via_params_of(params_map(l.take(done)), None),
                opt_str(rport_p) == lookup(params_map(l.take(done)), "rport"@),
                others@.map_values(|p: Param| p@) == drop_known(l.take(done)),
            decreases rest@.len(),
        {
            let ghost before = rest@.map_values(|p: Param| p@);
            let p = rest.remove(0);
            proof {
                assert(before[0] == p@);
                assert(rest@.map_values(|p: Param| p@) =~= before.drop_first());
                assert(l.skip(done).drop_first() =~= l.skip(done + 1));
                assert(l.take(done + 1).drop_last() =~= l.take(done));
                assert(l.take(done + 1).last() == l[done]);
                assert(l[done] == before[0]);
            }
            let ghost m0 = params_map(l.take(done));
            proof {
                reveal_strlit("ttl");
                reveal_strlit("maddr");
                reveal_strlit("received");
                reveal_strlit("branch");
                reveal_strlit("rport");
                assert("ttl"@.len() == 3 && "maddr"@.len() == 5 && "received"@.len() == 8);
                assert("branch"@.len() == 6 && "rport"@.len() == 5);
                assert("maddr"@[0] == 'm' && "rport"@[0] == 'r');
                assert("ttl"@ != "maddr"@ && "ttl"@ != "received"@ && "ttl"@ != "branch"@ && "ttl"@ != "rport"@);
                assert("maddr"@ != "received"@ && "maddr"@ != "branch"@ && "maddr"@[0] != "rport"@[0]);
                assert("received"@ != "branch"@ && "received"@ != "rport"@ && "branch"@ != "rport"@);
                assert(params_map(l.take(done + 1)) == m0.insert(p@.0, p@.1));
            }
            let ghost o0 = others@.map_values(|p: Param| p@);
            if str_eq(p.name, "ttl") {
                params.ttl = p.value;
            } else if str_eq(p.name, "maddr") {
                params.maddr = p.value;
            } else if str_eq(p.name, "received") {
                params.received = p.value;
            } else if str_eq(p.name, "branch") {
                params.branch = p.value;
            } else if str_eq(p.name, "rport") {
                rport_p = p.value;
            } else {
                others.push(p);
                proof {
                    assert(others@.map_values(|p: Param| p@) =~= o0.push(l[done]));
                }
            }
            proof {
                done = done + 1;
            }
        }
        proof {
            assert(l.take(done) =~= l);
        }
        match rport_p {
            Some(t) => {
                if !t.is_empty() {
                    match parse_u16(t.as_bytes()) {
                        Some(rport) => {
                            if is_valid_port(rport) {
                                params.set_rport(rport);
                            } else {
                                return Err(SipParserError::InvalidRport);
                            }
                        },
                        None => {},
                    }
                }
            },
            None => {},
        }
        let others_params = if others.len() == 0 {
            None
        } else {
            Some(Params::from_list(others))
        };
        Ok((Some(params), others_params))
    }
}

} // verus!
