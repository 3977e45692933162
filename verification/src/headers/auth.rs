//! Credentials and challenges of the `Authorization`, `Proxy-Authorization`,
//! `WWW-Authenticate` and `Proxy-Authenticate` headers.
//!
//! ```text
//! credentials  =  ("Digest" LWS digest-response) / other-response
//! challenge    =  ("Digest" LWS digest-cln *(COMMA digest-cln)) / other-challenge
//! auth-param   =  auth-param-name EQUAL ( token / quoted-string )
//! ```
use vstd::prelude::*;
use vstd::utf8::valid_utf8;
use crate::error::{Result, SipParserError};
use crate::params::{Param, Params, drop_names, lookup, opt_str, params_map, without_names};
use crate::scanner::{Bytes, CharClass, byte_at, scan_while, lemma_scan_while, lemma_scan_ascii};
use crate::text::{text, ascii_str, utf8_str};

verus! {

/// A parameter of an authentication scheme, as text.
pub type AuthParam = (Seq<char>, Option<Seq<char>>);

/// An auth-param that starts at `i`: spaces, a token name, and after `=` a
/// quoted string or a token. With where the reading stopped.
pub open spec fn spec_auth_param(s: Seq<u8>, i: int) -> (Result<AuthParam>, int) {
    let i0 = scan_while(s, i, CharClass::Space);
    let n = scan_while(s, i0, CharClass::Token);
    let name = text(s.subrange(i0, n));
    if byte_at(s, n) == Some(0x3du8) {
        if byte_at(s, n + 1) == Some(0x22u8) {
            let q = scan_while(s, n + 2, CharClass::Except(0x22u8));
            let e = if q < s.len() { q + 1 } else { q };
            let v = s.subrange(n + 2, q);
            if valid_utf8(v) {
                (Ok((name, Some(text(v)))), e)
            } else {
                (Err(SipParserError::InvalidUtf8), e)
            }
        } else {
            let v = scan_while(s, n + 1, CharClass::Token);
            (Ok((name, Some(text(s.subrange(n + 1, v))))), v)
        }
    } else {
        (Ok((name, None)), n)
    }
}

/// An auth-param never ends before it starts, nor after the input.
pub proof fn lemma_auth_param_bounds(s: Seq<u8>, i: int)
    requires
        0 <= i <= s.len(),
    ensures
        i <= spec_auth_param(s, i).1 <= s.len(),
{
    let i0 = scan_while(s, i, CharClass::Space);
    lemma_scan_while(s, i, CharClass::Space);
    let n = scan_while(s, i0, CharClass::Token);
    lemma_scan_while(s, i0, CharClass::Token);
    if byte_at(s, n) == Some(0x3du8) {
        if byte_at(s, n + 1) == Some(0x22u8) {
            lemma_scan_while(s, n + 2, CharClass::Except(0x22u8));
        } else {
            lemma_scan_while(s, n + 1, CharClass::Token);
        }
    }
}

/// A list read so far, put before what is read after it.
pub open spec fn prepend(acc: Seq<AuthParam>, r: (Result<Seq<AuthParam>>, int)) -> (Result<Seq<AuthParam>>, int) {
    match r {
        (Ok(ps), k) => (Ok(acc + ps), k),
        (Err(e), k) => (Err(e), k),
    }
}

/// The auth-params that follow `i`: while, after spaces, a `,` comes, one
/// auth-param.
pub open spec fn spec_auth_params_rest(s: Seq<u8>, i: int) -> (Result<Seq<AuthParam>>, int)
    decreases s.len() - i,
{
    let i1 = scan_while(s, i, CharClass::Space);
    if 0 <= i <= s.len() && byte_at(s, i1) == Some(0x2cu8) {
        proof {
            lemma_scan_while(s, i, CharClass::Space);
            lemma_auth_param_bounds(s, i1 + 1);
        }
        match spec_auth_param(s, i1 + 1) {
            (Err(e), j) => (Err(e), j),
            (Ok(p), j) => prepend(seq![p], spec_auth_params_rest(s, j)),
        }
    } else {
        (Ok(seq![]), i1)
    }
}

/// A comma-separated list of one or more auth-params.
pub open spec fn spec_auth_params(s: Seq<u8>, i: int) -> (Result<Seq<AuthParam>>, int) {
    match spec_auth_param(s, i) {
        (Err(e), j) => (Err(e), j),
        (Ok(p), j) => prepend(seq![p], spec_auth_params_rest(s, j)),
    }
}

/// Reads an auth-param.
pub fn parse_auth_param<'a>(bytes: &mut Bytes<'a>) -> (r: Result<Param<'a>>)
    ensures
        final(bytes).data() == old(bytes).data(),
        old(bytes).pos() <= final(bytes).pos() <= final(bytes).data().len(),
        final(bytes).pos() == spec_auth_param(old(bytes).data(), old(bytes).pos()).1,
        r is Ok <==> spec_auth_param(old(bytes).data(), old(bytes).pos()).0 is Ok,
        r matches Ok(p) ==> p@ == spec_auth_param(old(bytes).data(), old(bytes).pos()).0->Ok_0,
        r matches Err(e) ==> e == spec_auth_param(old(bytes).data(), old(bytes).pos()).0->Err_0,
{
    bytes.skip_space();
    let i0 = bytes.position();
    let name = bytes.read_while(CharClass::Token);
    proof {
        lemma_scan_ascii(bytes.data(), i0 as int, CharClass::Token);
    }
    let name = ascii_str(name);
    if bytes.peek() == Some(0x3du8) {
        let _ = bytes.next();
        if bytes.peek() == Some(0x22u8) {
            let _ = bytes.next();
            let v = bytes.read_until(0x22);
            let _ = bytes.position();
            let _ = bytes.next();
            let v = utf8_str(v)?;
            Ok(Param { name, value: Some(v) })
        } else {
            let j = bytes.position();
            let v = bytes.read_while(CharClass::Token);
            proof {
                lemma_scan_ascii(bytes.data(), j as int, CharClass::Token);
            }
            Ok(Param { name, value: Some(ascii_str(v)) })
        }
    } else {
        Ok(Param { name, value: None })
    }
}

/// Reads a comma-separated list of one or more auth-params.
pub fn parse_auth_params<'a>(bytes: &mut Bytes<'a>) -> (r: Result<Vec<Param<'a>>>)
    ensures
        final(bytes).data() == old(bytes).data(),
        old(bytes).pos() <= final(bytes).pos() <= final(bytes).data().len(),
        final(bytes).pos() == spec_auth_params(old(bytes).data(), old(bytes).pos()).1,
        r is Ok <==> spec_auth_params(old(bytes).data(), old(bytes).pos()).0 is Ok,
        r matches Ok(ps) ==> ps@.map_values(|p: Param| p@) == spec_auth_params(
            old(bytes).data(),
            old(bytes).pos(),
        ).0->Ok_0,
        r matches Err(e) ==> e == spec_auth_params(old(bytes).data(), old(bytes).pos()).0->Err_0,
{
    let ghost s = bytes.data();
    let ghost i0 = bytes.pos();
    let first = parse_auth_param(bytes)?;
    let mut out: Vec<Param<'a>> = Vec::new();
    out.push(first);
    let ghost mut acc: Seq<AuthParam> = out@.map_values(|p: Param| p@);
    proof {
        assert(acc =~= seq![first@]);
    }
    let _ = bytes.position();
    loop
        invariant_except_break
            s == old(bytes).data(),
            i0 == old(bytes).pos(),
            i0 <= bytes.pos(),
            bytes.data() == s,
            0 <= bytes.pos() <= s.len(),
            spec_auth_params(s, i0) == prepend(acc, spec_auth_params_rest(s, bytes.pos())),
            out@.map_values(|p: Param| p@) == acc,
        ensures
            bytes.data() == s,
            i0 <= bytes.pos() <= s.len(),
            spec_auth_params(s, i0) == (Ok::<Seq<AuthParam>, SipParserError>(acc), bytes.pos()),
            out@.map_values(|p: Param| p@) == acc,
        decreases s.len() - bytes.pos(),
    {
        let ghost before = bytes.pos();
        bytes.skip_space();
        let p1 = bytes.position();
        proof {
            lemma_scan_while(s, before, CharClass::Space);
        }
        if bytes.peek() != Some(0x2cu8) {
            proof {
                assert(acc + Seq::<AuthParam>::empty() =~= acc);
            }
            break;
        }
        let _ = bytes.next();
        proof {
            lemma_auth_param_bounds(s, p1 + 1);
        }
        let ghost o0 = out@.map_values(|p: Param| p@);
        let p = parse_auth_param(bytes)?;
        let ghost pv = p@;
        out.push(p);
        proof {
            assert(out@.map_values(|p: Param| p@) =~= o0.push(pv));
            let r = spec_auth_params_rest(s, bytes.pos());
            assert(prepend(acc, prepend(seq![pv], r)) == prepend(acc.push(pv), r)) by {
                assert(acc + seq![pv] =~= acc.push(pv));
                match r {
                    (Ok(ps), k) => {
                        assert(acc + (seq![pv] + ps) =~= acc.push(pv) + ps);
                    },
                    (Err(e), k) => {},
                }
            }
            acc = acc.push(pv);
        }
    }
    Ok(out)
}

/// The scheme of a credential or challenge at `i`: a quoted string or a
/// token; with the position after it.
pub open spec fn spec_auth_scheme(s: Seq<u8>, i: int) -> (Result<Seq<u8>>, int) {
    match byte_at(s, i) {
        Some(b) => if b == 0x22u8 {
            let q = scan_while(s, i + 1, CharClass::Except(0x22u8));
            (Ok(s.subrange(i + 1, q)), if q < s.len() { q + 1 } else { q })
        } else {
            let t = scan_while(s, i, CharClass::Token);
            (Ok(s.subrange(i, t)), t)
        },
        None => (Err(SipParserError::UnexpectedEof), i),
    }
}

/// The bytes of `Digest`.
pub open spec fn digest_bytes() -> Seq<u8> {
    seq![0x44u8, 0x69u8, 0x67u8, 0x65u8, 0x73u8, 0x74u8]
}

/// Reads the scheme of a credential or challenge.
fn parse_auth_scheme<'a>(bytes: &mut Bytes<'a>) -> (r: Result<&'a [u8]>)
    ensures
        final(bytes).data() == old(bytes).data(),
        old(bytes).pos() <= final(bytes).pos() <= final(bytes).data().len(),
        final(bytes).pos() == spec_auth_scheme(old(bytes).data(), old(bytes).pos()).1,
        r is Ok <==> spec_auth_scheme(old(bytes).data(), old(bytes).pos()).0 is Ok,
        r matches Ok(b) ==> b@ == spec_auth_scheme(old(bytes).data(), old(bytes).pos()).0->Ok_0,
        r matches Err(e) ==> e == spec_auth_scheme(old(bytes).data(), old(bytes).pos()).0->Err_0,
{
    let _ = bytes.position();
    match bytes.peek() {
        Some(b) => {
            if b == 0x22 {
                let _ = bytes.next();
                let value = bytes.read_until(0x22);
                let _ = bytes.position();
                let _ = bytes.next();
                Ok(value)
            } else {
                Ok(bytes.read_while(CharClass::Token))
            }
        },
        None => Err(SipParserError::UnexpectedEof),
    }
}

/// Whether the scheme is `Digest` (case-sensitive).
fn is_digest(b: &[u8]) -> (r: bool)
    ensures
        r == (b@ == digest_bytes()),
{
    let d: [u8; 6] = [0x44, 0x69, 0x67, 0x65, 0x73, 0x74];
    proof {
        assert(d@ == digest_bytes());
    }
    crate::chars::bytes_eq(b, &d)
}


/// The parameters of a Digest credential (RFC 3261, section 25.1: digest-response).
#[derive(Debug, PartialEq, Eq)]
pub struct DigestCredential<'a> {
    pub realm: Option<&'a str>,
    pub username: Option<&'a str>,
    pub nonce: Option<&'a str>,
    pub uri: Option<&'a str>,
    pub response: Option<&'a str>,
    pub algorithm: Option<&'a str>,
    pub cnonce: Option<&'a str>,
    pub opaque: Option<&'a str>,
    pub qop: Option<&'a str>,
    pub nc: Option<&'a str>,
    /// The other parameters.
    pub param: Params<'a>,
}

/// What a DigestCredential holds.
pub struct DigestCredentialView {
    pub realm: Option<Seq<char>>,
    pub username: Option<Seq<char>>,
    pub nonce: Option<Seq<char>>,
    pub uri: Option<Seq<char>>,
    pub response: Option<Seq<char>>,
    pub algorithm: Option<Seq<char>>,
    pub cnonce: Option<Seq<char>>,
    pub opaque: Option<Seq<char>>,
    pub qop: Option<Seq<char>>,
    pub nc: Option<Seq<char>>,
    pub param: Map<Seq<char>, Option<Seq<char>>>,
}

impl<'a> View for DigestCredential<'a> {
    type V = DigestCredentialView;

    open spec fn view(&self) -> DigestCredentialView {
        DigestCredentialView {
            realm: opt_str(self.realm),
            username: opt_str(self.username),
            nonce: opt_str(self.nonce),
            uri: opt_str(self.uri),
            response: opt_str(self.response),
            algorithm: opt_str(self.algorithm),
            cnonce: opt_str(self.cnonce),
            opaque: opt_str(self.opaque),
            qop: opt_str(self.qop),
            nc: opt_str(self.nc),
            param: self.param@,
        }
    }
}

/// The names of the parameters with a field of their own in a DigestCredential.
pub open spec fn credential_keys() -> Seq<Seq<char>> {
    seq!["realm"@, "username"@, "nonce"@, "uri"@, "response"@, "algorithm"@, "cnonce"@, "opaque"@, "qop"@, "nc"@]
}

/// The DigestCredential that a list of parameters makes: each field the value of
/// the last parameter of its name, and the other parameters kept apart.
pub open spec fn digest_credential_of(l: Seq<AuthParam>) -> DigestCredentialView {
    let m = params_map(l);
    DigestCredentialView {
        realm: lookup(m, "realm"@),
        username: lookup(m, "username"@),
        nonce: lookup(m, "nonce"@),
        uri: lookup(m, "uri"@),
        response: lookup(m, "response"@),
        algorithm: lookup(m, "algorithm"@),
        cnonce: lookup(m, "cnonce"@),
        opaque: lookup(m, "opaque"@),
        qop: lookup(m, "qop"@),
        nc: lookup(m, "nc"@),
        param: params_map(drop_names(l, credential_keys())),
    }
}

impl<'a> DigestCredential<'a> {
    /// The DigestCredential that a list of parameters makes.
    pub fn from_params(list: Vec<Param<'a>>) -> (r: DigestCredential<'a>)
        ensures
            r@ == digest_credential_of(list@.map_values(|p: Param| p@)),
    {
        let keys: Vec<&str> = vec!["realm", "username", "nonce", "uri", "response", "algorithm", "cnonce", "opaque", "qop", "nc"];
        proof {
            assert(keys@.map_values(|k: &str| k@) =~= credential_keys());
        }
        let others = without_names(&list, &keys);
        let all = Params::from_list(list);
        let realm = all.get("realm");
        let username = all.get("username");
        let nonce = all.get("nonce");
        let uri = all.get("uri");
        let response = all.get("response");
        let algorithm = all.get("algorithm");
        let cnonce = all.get("cnonce");
        let opaque = all.get("opaque");
        let qop = all.get("qop");
        let nc = all.get("nc");
        DigestCredential { realm, username, nonce, uri, response, algorithm, cnonce, opaque, qop, nc, param: Params::from_list(others) }
    }
}

/// The parameters of a Digest challenge (RFC 3261, section 25.1: digest-cln).
#[derive(Debug, PartialEq, Eq)]
pub struct DigestChallenge<'a> {
    pub realm: Option<&'a str>,
    pub domain: Option<&'a str>,
    pub nonce: Option<&'a str>,
    pub opaque: Option<&'a str>,
    pub stale: Option<&'a str>,
    pub algorithm: Option<&'a str>,
    pub qop: Option<&'a str>,
    /// The other parameters.
    pub param: Params<'a>,
}

/// What a DigestChallenge holds.
pub struct DigestChallengeView {
    pub realm: Option<Seq<char>>,
    pub domain: Option<Seq<char>>,
    pub nonce: Option<Seq<char>>,
    pub opaque: Option<Seq<char>>,
    pub stale: Option<Seq<char>>,
    pub algorithm: Option<Seq<char>>,
    pub qop: Option<Seq<char>>,
    pub param: Map<Seq<char>, Option<Seq<char>>>,
}

impl<'a> View for DigestChallenge<'a> {
    type V = DigestChallengeView;

    open spec fn view(&self) -> DigestChallengeView {
        DigestChallengeView {
            realm: opt_str(self.realm),
            domain: opt_str(self.domain),
            nonce: opt_str(self.nonce),
            opaque: opt_str(self.opaque),
            stale: opt_str(self.stale),
            algorithm: opt_str(self.algorithm),
            qop: opt_str(self.qop),
            param: self.param@,
        }
    }
}

/// The names of the parameters with a field of their own in a DigestChallenge.
pub open spec fn challenge_keys() -> Seq<Seq<char>> {
    seq!["realm"@, "domain"@, "nonce"@, "opaque"@, "stale"@, "algorithm"@, "qop"@]
}

/// The DigestChallenge that a list of parameters makes: each field the value of
/// the last parameter of its name, and the other parameters kept apart.
pub open spec fn digest_challenge_of(l: Seq<AuthParam>) -> DigestChallengeView {
    let m = params_map(l);
    DigestChallengeView {
        realm: lookup(m, "realm"@),
        domain: lookup(m, "domain"@),
        nonce: lookup(m, "nonce"@),
        opaque: lookup(m, "opaque"@),
        stale: lookup(m, "stale"@),
        algorithm: lookup(m, "algorithm"@),
        qop: lookup(m, "qop"@),
        param: params_map(drop_names(l, challenge_keys())),
    }
}

impl<'a> DigestChallenge<'a> {
    /// The DigestChallenge that a list of parameters makes.
    pub fn from_params(list: Vec<Param<'a>>) -> (r: DigestChallenge<'a>)
        ensures
            r@ == digest_challenge_of(list@.map_values(|p: Param| p@)),
    {
        let keys: Vec<&str> = vec!["realm", "domain", "nonce", "opaque", "stale", "algorithm", "qop"];
        proof {
            assert(keys@.map_values(|k: &str| k@) =~= challenge_keys());
        }
        let others = without_names(&list, &keys);
        let all = Params::from_list(list);
        let realm = all.get("realm");
        let domain = all.get("domain");
        let nonce = all.get("nonce");
        let opaque = all.get("opaque");
        let stale = all.get("stale");
        let algorithm = all.get("algorithm");
        let qop = all.get("qop");
        DigestChallenge { realm, domain, nonce, opaque, stale, algorithm, qop, param: Params::from_list(others) }
    }
}

/// Credentials: Digest, or another scheme with its parameters.
#[derive(Debug, PartialEq, Eq)]
pub enum Credential<'a> {
    Digest(DigestCredential<'a>),
    Other { scheme: &'a str, param: Params<'a> },
}

/// What credentials hold.
pub enum CredentialView {
    Digest(DigestCredentialView),
    Other { scheme: Seq<char>, param: Map<Seq<char>, Option<Seq<char>>> },
}

impl<'a> View for Credential<'a> {
    type V = CredentialView;

    open spec fn view(&self) -> CredentialView {
        match self {
            Credential::Digest(d) => CredentialView::Digest(d@),
            Credential::Other { scheme, param } => CredentialView::Other { scheme: scheme@, param: param@ },
        }
    }
}

/// A challenge: Digest, or another scheme with its parameters.
#[derive(Debug, PartialEq, Eq)]
pub enum Challenge<'a> {
    Digest(DigestChallenge<'a>),
    Other { scheme: &'a str, param: Params<'a> },
}

/// What a challenge holds.
pub enum ChallengeView {
    Digest(DigestChallengeView),
    Other { scheme: Seq<char>, param: Map<Seq<char>, Option<Seq<char>>> },
}

impl<'a> View for Challenge<'a> {
    type V = ChallengeView;

    open spec fn view(&self) -> ChallengeView {
        match self {
            Challenge::Digest(d) => ChallengeView::Digest(d@),
            Challenge::Other { scheme, param } => ChallengeView::Other { scheme: scheme@, param: param@ },
        }
    }
}

/// After the scheme, at `j`: for `Digest`, its parameters; for another
/// scheme, spaces and then its parameters, the scheme being UTF-8. Gives
/// the scheme's text (for another scheme) and the parameters.
pub open spec fn spec_auth_body(s: Seq<u8>, sc: Seq<u8>, j: int) -> (Result<Seq<AuthParam>>, int) {
    if sc == digest_bytes() {
        spec_auth_params(s, j)
    } else {
        let j2 = scan_while(s, j, CharClass::Space);
        if !valid_utf8(sc) {
            (Err(SipParserError::InvalidUtf8), j2)
        } else {
            spec_auth_params(s, j2)
        }
    }
}

/// Credentials that start at `i`.
pub open spec fn spec_credential(s: Seq<u8>, i: int) -> (Result<CredentialView>, int) {
    match spec_auth_scheme(s, i) {
        (Err(e), j) => (Err(e), j),
        (Ok(sc), j) => match spec_auth_body(s, sc, j) {
            (Err(e), k) => (Err(e), k),
            (Ok(l), k) => (
                Ok(
                    if sc == digest_bytes() {
                        CredentialView::Digest(digest_credential_of(l))
                    } else {
                        CredentialView::Other { scheme: text(sc), param: params_map(l) }
                    },
                ),
                k,
            ),
        },
    }
}

/// A challenge that starts at `i`.
pub open spec fn spec_challenge(s: Seq<u8>, i: int) -> (Result<ChallengeView>, int) {
    match spec_auth_scheme(s, i) {
        (Err(e), j) => (Err(e), j),
        (Ok(sc), j) => match spec_auth_body(s, sc, j) {
            (Err(e), k) => (Err(e), k),
            (Ok(l), k) => (
                Ok(
                    if sc == digest_bytes() {
                        ChallengeView::Digest(digest_challenge_of(l))
                    } else {
                        ChallengeView::Other { scheme: text(sc), param: params_map(l) }
                    },
                ),
                k,
            ),
        },
    }
}

/// Reads what follows the scheme: the scheme's text where it is not
/// `Digest`, and the parameters.
fn parse_auth_body<'a>(bytes: &mut Bytes<'a>, sc: &'a [u8]) -> (r: Result<(Option<&'a str>, Vec<Param<'a>>)>)
    ensures
        final(bytes).data() == old(bytes).data(),
        old(bytes).pos() <= final(bytes).pos() <= final(bytes).data().len(),
        final(bytes).pos() == spec_auth_body(old(bytes).data(), sc@, old(bytes).pos()).1,
        r is Ok <==> spec_auth_body(old(bytes).data(), sc@, old(bytes).pos()).0 is Ok,
        r matches Ok((t, ps)) ==> {
            &&& ps@.map_values(|p: Param| p@) == spec_auth_body(old(bytes).data(), sc@, old(bytes).pos()).0->Ok_0
            &&& (sc@ == digest_bytes() ==> t is None)
            &&& (sc@ != digest_bytes() ==> (t matches Some(t) && t@ == text(sc@)))
        },
        r matches Err(e) ==> e == spec_auth_body(old(bytes).data(), sc@, old(bytes).pos()).0->Err_0,
{
    if is_digest(sc) {
        let list = parse_auth_params(bytes)?;
        Ok((None, list))
    } else {
        bytes.skip_space();
        let other = utf8_str(sc)?;
        let list = parse_auth_params(bytes)?;
        Ok((Some(other), list))
    }
}

/// Reads credentials: a scheme (a token or a quoted string), then for
/// `Digest` its parameters, for another scheme spaces and its parameters.
pub fn parse_auth_credential<'a>(bytes: &mut Bytes<'a>) -> (r: Result<Credential<'a>>)
    ensures
        final(bytes).data() == old(bytes).data(),
        old(bytes).pos() <= final(bytes).pos() <= final(bytes).data().len(),
        final(bytes).pos() == spec_credential(old(bytes).data(), old(bytes).pos()).1,
        r is Ok <==> spec_credential(old(bytes).data(), old(bytes).pos()).0 is Ok,
        r matches Ok(c) ==> c@ == spec_credential(old(bytes).data(), old(bytes).pos()).0->Ok_0,
        r matches Err(e) ==> e == spec_credential(old(bytes).data(), old(bytes).pos()).0->Err_0,
{
    let scheme = parse_auth_scheme(bytes)?;
    let (other, list) = parse_auth_body(bytes, scheme)?;
    match other {
        None => Ok(Credential::Digest(DigestCredential::from_params(list))),
        Some(scheme) => Ok(Credential::Other { scheme, param: Params::from_list(list) }),
    }
}

/// Reads a challenge: a scheme (a token or a quoted string), then for
/// `Digest` its parameters, for another scheme spaces and its parameters.
pub fn parse_auth_challenge<'a>(bytes: &mut Bytes<'a>) -> (r: Result<Challenge<'a>>)
    ensures
        final(bytes).data() == old(bytes).data(),
        old(bytes).pos() <= final(bytes).pos() <= final(bytes).data().len(),
        final(bytes).pos() == spec_challenge(old(bytes).data(), old(bytes).pos()).1,
        r is Ok <==> spec_challenge(old(bytes).data(), old(bytes).pos()).0 is Ok,
        r matches Ok(c) ==> c@ == spec_challenge(old(bytes).data(), old(bytes).pos()).0->Ok_0,
        r matches Err(e) ==> e == spec_challenge(old(bytes).data(), old(bytes).pos()).0->Err_0,
{
    let scheme = parse_auth_scheme(bytes)?;
    let (other, list) = parse_auth_body(bytes, scheme)?;
    match other {
        None => Ok(Challenge::Digest(DigestChallenge::from_params(list))),
        Some(scheme) => Ok(Challenge::Other { scheme, param: Params::from_list(list) }),
    }
}

} // verus!
