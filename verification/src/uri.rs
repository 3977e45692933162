//! SIP URIs and name-addrs.
//!
//! ```text
//! SIP-URI   =  "sip:" [ userinfo ] hostport uri-parameters [ headers ]
//! SIPS-URI  =  "sips:" [ userinfo ] hostport uri-parameters [ headers ]
//! userinfo  =  user [ ":" password ] "@"
//! name-addr =  [ display-name ] LAQUOT addr-spec RAQUOT
//! ```
//!
//! The Request-URI MUST NOT contain unescaped spaces or control characters
//! and MUST NOT be enclosed in "<>".
use vstd::prelude::*;
use vstd::utf8::valid_utf8;
use crate::chars::{eq_ignore_ascii_case, is_token, spec_eq_ignore_case, spec_is_token};
use crate::error::{Result, SipParserError};
pub use crate::host::{Host, HostPort, HostView, IpAddr, Ipv4Addr};
pub use crate::ipv6::Ipv6Addr;
use crate::host::{parse_host_port, spec_host_port};
use crate::params::{Params, opt_params, opt_str, opt_text, params_of, parse_opt_params, spec_params};
use crate::scanner::{Bytes, CharClass, byte_at, scan_while, lemma_scan_while, lemma_scan_ascii};
use crate::text::{text, ascii_str, ascii_string, utf8_str};

verus! {

/// The user part of a URI: a name and an optional password.
#[derive(Debug, PartialEq, Eq)]
pub struct UserInfo {
    name: String,
    password: Option<String>,
}

impl View for UserInfo {
    type V = (Seq<char>, Option<Seq<char>>);

    closed spec fn view(&self) -> (Seq<char>, Option<Seq<char>>) {
        (self.name@, opt_text(self.password))
    }
}

impl UserInfo {
    pub fn new(name: String, pass: Option<String>) -> (u: Self)
        ensures
            u@ == (name@, opt_text(pass)),
    {
        UserInfo { name, password: pass }
    }

    pub fn name(&self) -> (r: &str)
        ensures
            r@ == self@.0,
    {
        self.name.as_str()
    }

    pub fn password(&self) -> (r: Option<&str>)
        ensures
            opt_str(r) == self@.1,
    {
        match &self.password {
            Some(p) => Some(p.as_str()),
            None => None,
        }
    }
}

/// The scheme of a URI.
#[derive(Debug, Clone, Copy, PartialEq, Eq, Structural)]
pub enum Scheme {
    Sip,
    Sips,
}

/// A SIP or SIPS URI: `sip:user:password@host:port;uri-parameters?headers`.
#[derive(Debug, PartialEq, Eq)]
pub struct Uri<'a> {
    pub scheme: Scheme,
    pub user: Option<UserInfo>,
    pub host: Host,
    pub port: Option<u32>,
    pub params: Option<Params<'a>>,
    pub headers: Option<&'a str>,
}

/// What a URI holds.
pub struct UriView {
    pub scheme: Scheme,
    pub user: Option<(Seq<char>, Option<Seq<char>>)>,
    pub host: HostView,
    pub port: Option<u32>,
    pub params: Option<Map<Seq<char>, Option<Seq<char>>>>,
    pub headers: Option<Seq<char>>,
}

/// The view of an optional user part.
pub open spec fn opt_user(u: Option<UserInfo>) -> Option<(Seq<char>, Option<Seq<char>>)> {
    match u {
        Some(u) => Some(u@),
        None => None,
    }
}

impl<'a> View for Uri<'a> {
    type V = UriView;

    open spec fn view(&self) -> UriView {
        UriView {
            scheme: self.scheme,
            user: opt_user(self.user),
            host: self.host@,
            port: self.port,
            params: opt_params(self.params),
            headers: opt_str(self.headers),
        }
    }
}

/// The bytes of `sip:`.
pub open spec fn sip_colon() -> Seq<u8> {
    seq![0x73u8, 0x69u8, 0x70u8, 0x3au8]
}

/// The bytes of `sips:`.
pub open spec fn sips_colon() -> Seq<u8> {
    seq![0x73u8, 0x69u8, 0x70u8, 0x73u8, 0x3au8]
}

/// The scheme at `i`, `sip:` or `sips:` in any case. On failure nothing is read.
pub open spec fn spec_scheme(s: Seq<u8>, i: int) -> (Result<Scheme>, int) {
    if 0 <= i && i + 4 <= s.len() && spec_eq_ignore_case(s.subrange(i, i + 4), sip_colon()) {
        (Ok(Scheme::Sip), i + 4)
    } else if 0 <= i && i + 5 <= s.len() && spec_eq_ignore_case(s.subrange(i, i + 5), sips_colon()) {
        (Ok(Scheme::Sips), i + 5)
    } else {
        (Err(SipParserError::InvalidUri), i)
    }
}

/// The user part at `i`, where one ends in `@`: the user, and after `:` the
/// password; with the position after the `@`. Where there is none, nothing
/// is read.
pub open spec fn spec_userinfo(s: Seq<u8>, i: int) -> (Option<(Seq<u8>, Option<Seq<u8>>)>, int) {
    let n = scan_while(s, i, CharClass::User);
    let pw_end = if byte_at(s, n) == Some(0x3au8) { scan_while(s, n + 1, CharClass::Password) } else { n };
    let pw = if byte_at(s, n) == Some(0x3au8) { Some(s.subrange(n + 1, pw_end)) } else { None };
    if byte_at(s, pw_end) == Some(0x40u8) {
        (Some((s.subrange(i, n), pw)), pw_end + 1)
    } else {
        (None, i)
    }
}

/// The text of a user part read from the input.
pub open spec fn user_text(u: Option<(Seq<u8>, Option<Seq<u8>>)>) -> Option<(Seq<char>, Option<Seq<char>>)> {
    match u {
        Some((n, p)) => Some(
            (
                text(n),
                match p {
                    Some(p) => Some(text(p)),
                    None => None,
                },
            ),
        ),
        None => None,
    }
}

/// The headers of a URI at `k`: `?` and the header characters after it.
pub open spec fn spec_uri_headers(s: Seq<u8>, k: int) -> (Option<Seq<u8>>, int) {
    if byte_at(s, k) == Some(0x3fu8) {
        let h = scan_while(s, k + 1, CharClass::UriHeader);
        (Some(s.subrange(k + 1, h)), h)
    } else {
        (None, k)
    }
}

/// A URI that starts at `i`: scheme, optional user part, host and port,
/// parameters (no space before their `;`) and optional headers. With where
/// the reading stopped.
pub open spec fn spec_uri(s: Seq<u8>, i: int) -> (Result<UriView>, int) {
    match spec_scheme(s, i) {
        (Err(e), j) => (Err(e), j),
        (Ok(sc), j) => {
            let (ui, j2) = spec_userinfo(s, j);
            match spec_host_port(s, j2) {
                (Err(e), k) => (Err(e), k),
                (Ok((h, p)), k) => {
                    let (ps, k2) = spec_params(s, k, CharClass::UriParam, false);
                    let (hd, k3) = spec_uri_headers(s, k2);
                    (
                        Ok(
                            UriView {
                                scheme: sc,
                                user: user_text(ui),
                                host: h,
                                port: p,
                                params: params_of(ps),
                                headers: match hd {
                                    Some(t) => Some(text(t)),
                                    None => None,
                                },
                            },
                        ),
                        k3,
                    )
                },
            }
        },
    }
}

/// Reads a scheme.
fn parse_scheme(bytes: &mut Bytes) -> (r: Result<Scheme>)
    ensures
        final(bytes).data() == old(bytes).data(),
        old(bytes).pos() <= final(bytes).pos() <= final(bytes).data().len(),
        (r, final(bytes).pos()) == spec_scheme(old(bytes).data(), old(bytes).pos()),
{
    let sip: [u8; 4] = [0x73, 0x69, 0x70, 0x3a];
    let sips: [u8; 5] = [0x73, 0x69, 0x70, 0x73, 0x3a];
    proof {
        assert(sip@ == sip_colon());
        assert(sips@ == sips_colon());
    }
    let _ = bytes.position();
    if let Some(v) = bytes.peek_n(4) {
        if eq_ignore_ascii_case(v, &sip) {
            bytes.advance(4);
            return Ok(Scheme::Sip);
        }
    }
    if let Some(v) = bytes.peek_n(5) {
        if eq_ignore_ascii_case(v, &sips) {
            bytes.advance(5);
            return Ok(Scheme::Sips);
        }
    }
    Err(SipParserError::InvalidUri)
}

/// Reads the user part, where one ending in `@` comes; else reads nothing.
fn parse_userinfo(bytes: &mut Bytes) -> (r: Option<UserInfo>)
    ensures
        final(bytes).data() == old(bytes).data(),
        old(bytes).pos() <= final(bytes).pos() <= final(bytes).data().len(),
        final(bytes).pos() == spec_userinfo(old(bytes).data(), old(bytes).pos()).1,
        opt_user(r) == user_text(spec_userinfo(old(bytes).data(), old(bytes).pos()).0),
{
    let mut la = bytes.fork();
    let i = la.position();
    let name = la.read_while(CharClass::User);
    proof {
        lemma_scan_ascii(la.data(), i as int, CharClass::User);
    }
    let mut password: Option<String> = None;
    if la.peek() == Some(0x3au8) {
        let _ = la.next();
        let j = la.position();
        let pw = la.read_while(CharClass::Password);
        proof {
            lemma_scan_ascii(la.data(), j as int, CharClass::Password);
        }
        password = Some(ascii_string(pw));
    }
    if la.peek() == Some(0x40u8) {
        let _ = la.next();
        *bytes = la;
        Some(UserInfo::new(ascii_string(name), password))
    } else {
        None
    }
}

/// Reads the headers of a URI, where a `?` comes.
fn parse_uri_headers<'a>(bytes: &mut Bytes<'a>) -> (r: Option<&'a str>)
    ensures
        final(bytes).data() == old(bytes).data(),
        old(bytes).pos() <= final(bytes).pos() <= final(bytes).data().len(),
        final(bytes).pos() == spec_uri_headers(old(bytes).data(), old(bytes).pos()).1,
        opt_str(r) == match spec_uri_headers(old(bytes).data(), old(bytes).pos()).0 {
            Some(t) => Some(text(t)),
            None => None,
        },
{
    let _ = bytes.position();
    if bytes.peek() == Some(0x3fu8) {
        let _ = bytes.next();
        let k = bytes.position();
        let h = bytes.read_while(CharClass::UriHeader);
        proof {
            lemma_scan_ascii(bytes.data(), k as int, CharClass::UriHeader);
        }
        Some(ascii_str(h))
    } else {
        None
    }
}

impl<'a> Uri<'a> {
    pub fn new(scheme: Scheme, user: Option<UserInfo>, host: Host, port: Option<u32>) -> (u: Uri<'a>)
        ensures
            u.scheme == scheme,
            u.user == user,
            u.host == host,
            u.port == port,
            u.params is None,
            u.headers is None,
    {
        Uri { scheme, user, host, port, params: None, headers: None }
    }

    /// Reads a SIP or SIPS URI.
    pub fn parse(bytes: &mut Bytes<'a>) -> (r: Result<Uri<'a>>)
        ensures
            final(bytes).data() == old(bytes).data(),
            old(bytes).pos() <= final(bytes).pos() <= final(bytes).data().len(),
            final(bytes).pos() == spec_uri(old(bytes).data(), old(bytes).pos()).1,
            r is Ok <==> spec_uri(old(bytes).data(), old(bytes).pos()).0 is Ok,
            r matches Ok(u) ==> u@ == spec_uri(old(bytes).data(), old(bytes).pos()).0->Ok_0,
            r matches Err(e) ==> e == spec_uri(old(bytes).data(), old(bytes).pos()).0->Err_0,
    {
        let scheme = parse_scheme(bytes)?;
        let user = parse_userinfo(bytes);
        let hp = parse_host_port(bytes)?;
        let params = parse_opt_params(bytes, CharClass::UriParam, false);
        let headers = parse_uri_headers(bytes);
        Ok(Uri { scheme, user, host: hp.host, port: hp.port, params, headers })
    }
}

/// SIP name-addr, which typically appears in From, To, Contact and
/// Record-Route headers: an optional display part and a URI.
#[derive(Debug, PartialEq, Eq)]
pub struct NameAddr<'a> {
    pub display: Option<&'a str>,
    pub uri: Uri<'a>,
}

/// What a name-addr holds.
pub struct NameAddrView {
    pub display: Option<Seq<char>>,
    pub uri: UriView,
}

impl<'a> View for NameAddr<'a> {
    type V = NameAddrView;

    open spec fn view(&self) -> NameAddrView {
        NameAddrView { display: opt_str(self.display), uri: self.uri@ }
    }
}

/// The end of the display words after a word that ends at `end`: where,
/// after spaces, a token character comes, the next word and those after it.
pub open spec fn spec_words_end(s: Seq<u8>, end: int) -> int
    decreases s.len() - end,
{
    let sp = scan_while(s, end, CharClass::Space);
    if 0 <= end <= s.len() && sp > end && sp < s.len() && spec_is_token(s[sp]) {
        proof {
            lemma_scan_while(s, end, CharClass::Space);
            lemma_scan_while(s, sp, CharClass::Token);
        }
        spec_words_end(s, scan_while(s, sp, CharClass::Token))
    } else {
        end
    }
}

/// The end of a display name made of words that starts at `i`: token
/// characters, and further words after spaces; `i` where no word comes.
pub open spec fn spec_display_end(s: Seq<u8>, i: int) -> int {
    let w = scan_while(s, i, CharClass::Token);
    if w > i {
        spec_words_end(s, w)
    } else {
        i
    }
}

/// The display part at `i` (after spaces): a quoted string, or words; with
/// the position after it and the spaces that follow.
pub open spec fn spec_display(s: Seq<u8>, i: int) -> (Result<Option<Seq<char>>>, int) {
    let i0 = scan_while(s, i, CharClass::Space);
    if byte_at(s, i0) == Some(0x22u8) {
        let q = scan_while(s, i0 + 1, CharClass::Except(0x22u8));
        if q < s.len() {
            let t = s.subrange(i0 + 1, q);
            if valid_utf8(t) {
                (Ok(Some(text(t))), scan_while(s, q + 1, CharClass::Space))
            } else {
                (Err(SipParserError::InvalidUtf8), q + 1)
            }
        } else {
            (Err(SipParserError::InvalidNameAddr), q)
        }
    } else {
        let e = spec_display_end(s, i0);
        (
            Ok(
                if e > i0 {
                    Some(text(s.subrange(i0, e)))
                } else {
                    None
                },
            ),
            scan_while(s, e, CharClass::Space),
        )
    }
}

/// A name-addr that starts at `i`: the display part, `<`, a URI, `>`.
pub open spec fn spec_name_addr(s: Seq<u8>, i: int) -> (Result<NameAddrView>, int) {
    match spec_display(s, i) {
        (Err(e), j) => (Err(e), j),
        (Ok(d), j) => if byte_at(s, j) != Some(0x3cu8) {
            (Err(SipParserError::InvalidNameAddr), j)
        } else {
            match spec_uri(s, j + 1) {
                (Err(e), k) => (Err(e), k),
                (Ok(u), k) => if byte_at(s, k) == Some(0x3eu8) {
                    (Ok(NameAddrView { display: d, uri: u }), k + 1)
                } else {
                    (Err(SipParserError::InvalidNameAddr), k)
                },
            }
        },
    }
}

/// Reads a display name made of words.
fn parse_display_words<'a>(bytes: &mut Bytes<'a>) -> (r: Option<&'a str>)
    ensures
        final(bytes).data() == old(bytes).data(),
        old(bytes).pos() <= final(bytes).pos() <= final(bytes).data().len(),
        ({
            let s = old(bytes).data();
            let i = old(bytes).pos();
            let e = spec_display_end(s, i);
            &&& final(bytes).pos() == scan_while(s, e, CharClass::Space)
            &&& opt_str(r) == if e > i { Some(text(s.subrange(i, e))) } else { None }
        }),
{
    let ghost s = bytes.data();
    let i = bytes.position();
    let _ = bytes.read_while(CharClass::Token);
    let mut end = bytes.position();
    proof {
        lemma_scan_while(s, i as int, CharClass::Token);
    }
    bytes.skip_space();
    if end == i {
        return None;
    }
    loop
        invariant_except_break
            bytes.data() == s,
            i < end <= s.len(),
            end <= bytes.pos() <= s.len(),
            bytes.pos() == scan_while(s, end as int, CharClass::Space),
            spec_display_end(s, i as int) == spec_words_end(s, end as int),
            forall|k: int| i <= k < end ==> #[trigger] s[k] < 0x80,
        ensures
            bytes.data() == s,
            i < end <= s.len(),
            end <= bytes.pos() <= s.len(),
            bytes.pos() == scan_while(s, end as int, CharClass::Space),
            spec_display_end(s, i as int) == end,
            forall|k: int| i <= k < end ==> #[trigger] s[k] < 0x80,
        decreases s.len() - end,
    {
        let p = bytes.position();
        proof {
            lemma_scan_while(s, end as int, CharClass::Space);
        }
        let more = match bytes.peek() {
            Some(b) => p > end && is_token(b),
            None => false,
        };
        if !more {
            break;
        }
        let _ = bytes.read_while(CharClass::Token);
        proof {
            lemma_scan_while(s, p as int, CharClass::Token);
        }
        end = bytes.position();
        bytes.skip_space();
    }
    let words = bytes.slice(i, end);
    proof {
        assert(crate::text::all_ascii(words@));
    }
    Some(ascii_str(words))
}

/// Reads the display part of a name-addr and the spaces after it.
fn parse_display<'a>(bytes: &mut Bytes<'a>) -> (r: Result<Option<&'a str>>)
    ensures
        final(bytes).data() == old(bytes).data(),
        old(bytes).pos() <= final(bytes).pos() <= final(bytes).data().len(),
        final(bytes).pos() == spec_display(old(bytes).data(), old(bytes).pos()).1,
        r is Ok <==> spec_display(old(bytes).data(), old(bytes).pos()).0 is Ok,
        r matches Ok(d) ==> opt_str(d) == spec_display(old(bytes).data(), old(bytes).pos()).0->Ok_0,
        r matches Err(e) ==> e == spec_display(old(bytes).data(), old(bytes).pos()).0->Err_0,
{
    bytes.skip_space();
    if bytes.peek() == Some(0x22u8) {
        let _ = bytes.next();
        let q = bytes.read_until(0x22);
        let qp = bytes.position();
        if bytes.is_eof() {
            return Err(SipParserError::InvalidNameAddr);
        }
        let _ = bytes.next();
        let d = utf8_str(q)?;
        bytes.skip_space();
        Ok(Some(d))
    } else {
        Ok(parse_display_words(bytes))
    }
}

impl<'a> NameAddr<'a> {
    /// Reads a name-addr: an optional display part, `<`, a URI, `>`.
    pub fn parse(bytes: &mut Bytes<'a>) -> (r: Result<NameAddr<'a>>)
        ensures
            final(bytes).data() == old(bytes).data(),
            old(bytes).pos() <= final(bytes).pos() <= final(bytes).data().len(),
            final(bytes).pos() == spec_name_addr(old(bytes).data(), old(bytes).pos()).1,
            r is Ok <==> spec_name_addr(old(bytes).data(), old(bytes).pos()).0 is Ok,
            r matches Ok(a) ==> a@ == spec_name_addr(old(bytes).data(), old(bytes).pos()).0->Ok_0,
            r matches Err(e) ==> e == spec_name_addr(old(bytes).data(), old(bytes).pos()).0->Err_0,
    {
        let display = parse_display(bytes)?;
        if bytes.peek() != Some(0x3cu8) {
            return Err(SipParserError::InvalidNameAddr);
        }
        let _ = bytes.next();
        let uri = Uri::parse(bytes)?;
        if bytes.peek() != Some(0x3eu8) {
            return Err(SipParserError::InvalidNameAddr);
        }
        let _ = bytes.next();
        Ok(NameAddr { display, uri })
    }
}

} // verus!
