//! Character classes of the SIP grammar (RFC 3261, section 25.1).
use vstd::prelude::*;

verus! {

/// `ALPHA`: an ASCII letter.
pub open spec fn spec_is_alpha(b: u8) -> bool {
    (0x41 <= b && b <= 0x5a) || (0x61 <= b && b <= 0x7a)
}

/// `DIGIT`: an ASCII decimal digit.
pub open spec fn spec_is_digit(b: u8) -> bool {
    0x30 <= b && b <= 0x39
}

/// `HEXDIG`: a digit or a letter from `a` to `f`, either case.
pub open spec fn spec_is_hex(b: u8) -> bool {
    spec_is_digit(b) || (0x41 <= b && b <= 0x46) || (0x61 <= b && b <= 0x66)
}

/// `alphanum`: a letter or a digit.
pub open spec fn spec_is_alphanum(b: u8) -> bool {
    spec_is_alpha(b) || spec_is_digit(b)
}

/// `token` characters: alphanum and `-.!%*_+`'~`.
pub open spec fn spec_is_token(b: u8) -> bool {
    spec_is_alphanum(b) || b == 0x2d || b == 0x2e || b == 0x21 || b == 0x25 || b == 0x2a
        || b == 0x5f || b == 0x2b || b == 0x60 || b == 0x27 || b == 0x7e
}

/// `unreserved`: alphanum and the marks `-_.!~*'()`.
pub open spec fn spec_is_unreserved(b: u8) -> bool {
    spec_is_alphanum(b) || b == 0x2d || b == 0x5f || b == 0x2e || b == 0x21 || b == 0x7e || b == 0x2a
        || b == 0x27 || b == 0x28 || b == 0x29
}

pub fn is_unreserved(b: u8) -> (r: bool)
    ensures
        r == spec_is_unreserved(b),
{
    is_alphanum(b) || b == 0x2d || b == 0x5f || b == 0x2e || b == 0x21 || b == 0x7e || b == 0x2a
        || b == 0x27 || b == 0x28 || b == 0x29
}

/// Characters of the user part of a SIP URI: unreserved, `%` (of an escape)
/// and `&=+$,;?/`.
pub open spec fn spec_is_user(b: u8) -> bool {
    spec_is_unreserved(b) || b == 0x25 || b == 0x26 || b == 0x3d || b == 0x2b || b == 0x24 || b == 0x2c
        || b == 0x3b || b == 0x3f || b == 0x2f
}

/// Characters of the password of a SIP URI: unreserved, `%` and `&=+$,`.
pub open spec fn spec_is_password(b: u8) -> bool {
    spec_is_unreserved(b) || b == 0x25 || b == 0x26 || b == 0x3d || b == 0x2b || b == 0x24 || b == 0x2c
}

/// Characters of a URI parameter's name or value: unreserved, `%` and `[]/:&+$`.
pub open spec fn spec_is_uri_param(b: u8) -> bool {
    spec_is_unreserved(b) || b == 0x25 || b == 0x5b || b == 0x5d || b == 0x2f || b == 0x3a || b == 0x26
        || b == 0x2b || b == 0x24
}

/// Characters of the headers of a URI: unreserved, `%`, `[]/?:+$` and the
/// separators `=` and `&`.
pub open spec fn spec_is_uri_header(b: u8) -> bool {
    spec_is_unreserved(b) || b == 0x25 || b == 0x5b || b == 0x5d || b == 0x2f || b == 0x3f || b == 0x3a
        || b == 0x2b || b == 0x24 || b == 0x3d || b == 0x26
}

pub fn is_user(b: u8) -> (r: bool)
    ensures
        r == spec_is_user(b),
{
    is_unreserved(b) || b == 0x25 || b == 0x26 || b == 0x3d || b == 0x2b || b == 0x24 || b == 0x2c || b == 0x3b
        || b == 0x3f || b == 0x2f
}

pub fn is_password(b: u8) -> (r: bool)
    ensures
        r == spec_is_password(b),
{
    is_unreserved(b) || b == 0x25 || b == 0x26 || b == 0x3d || b == 0x2b || b == 0x24 || b == 0x2c
}

pub fn is_uri_param(b: u8) -> (r: bool)
    ensures
        r == spec_is_uri_param(b),
{
    is_unreserved(b) || b == 0x25 || b == 0x5b || b == 0x5d || b == 0x2f || b == 0x3a || b == 0x26 || b == 0x2b
        || b == 0x24
}

pub fn is_uri_header(b: u8) -> (r: bool)
    ensures
        r == spec_is_uri_header(b),
{
    is_unreserved(b) || b == 0x25 || b == 0x5b || b == 0x5d || b == 0x2f || b == 0x3f || b == 0x3a || b == 0x2b
        || b == 0x24 || b == 0x3d || b == 0x26
}

/// Characters of a Via parameter: token characters and `[`, `:`, `]`
/// (the last three so that IPv6 references can stand in `received`).
pub open spec fn spec_is_via_param(b: u8) -> bool {
    spec_is_token(b) || b == 0x5b || b == 0x3a || b == 0x5d
}

/// Linear white space inside a line: space or horizontal tab.
pub open spec fn spec_is_space(b: u8) -> bool {
    b == 0x20 || b == 0x09
}

/// Carriage return or line feed.
pub open spec fn spec_is_newline(b: u8) -> bool {
    b == 0x0d || b == 0x0a
}

pub fn is_alpha(b: u8) -> (r: bool)
    ensures
        r == spec_is_alpha(b),
{
    (0x41 <= b && b <= 0x5a) || (0x61 <= b && b <= 0x7a)
}

pub fn is_digit(b: u8) -> (r: bool)
    ensures
        r == spec_is_digit(b),
{
    0x30 <= b && b <= 0x39
}

pub fn is_hex(b: u8) -> (r: bool)
    ensures
        r == spec_is_hex(b),
{
    is_digit(b) || (0x41 <= b && b <= 0x46) || (0x61 <= b && b <= 0x66)
}

pub fn is_alphanum(b: u8) -> (r: bool)
    ensures
        r == spec_is_alphanum(b),
{
    is_alpha(b) || is_digit(b)
}

pub fn is_token(b: u8) -> (r: bool)
    ensures
        r == spec_is_token(b),
{
    is_alphanum(b) || b == 0x2d || b == 0x2e || b == 0x21 || b == 0x25 || b == 0x2a || b == 0x5f
        || b == 0x2b || b == 0x60 || b == 0x27 || b == 0x7e
}

/// Whether `b` may stand in a Via parameter's name or value.
pub fn is_via_param(b: &u8) -> (r: bool)
    ensures
        r == spec_is_via_param(*b),
{
    is_token(*b) || *b == 0x5b || *b == 0x3a || *b == 0x5d
}

/// The byte in lower case, where it is an ASCII capital letter.
pub open spec fn spec_to_lower(b: u8) -> u8 {
    if 0x41 <= b && b <= 0x5a {
        (b + 0x20) as u8
    } else {
        b
    }
}

/// Equality of byte strings up to ASCII case.
pub open spec fn spec_eq_ignore_case(a: Seq<u8>, b: Seq<u8>) -> bool {
    a.len() == b.len() && forall|k: int| 0 <= k < a.len() ==> spec_to_lower(#[trigger] a[k]) == spec_to_lower(b[k])
}

pub fn to_lower(b: u8) -> (r: u8)
    ensures
        r == spec_to_lower(b),
{
    if 0x41 <= b && b <= 0x5a {
        b + 0x20
    } else {
        b
    }
}

/// Whether `a` and `b` are equal up to ASCII case.
pub fn eq_ignore_ascii_case(a: &[u8], b: &[u8]) -> (r: bool)
    ensures
        r == spec_eq_ignore_case(a@, b@),
{
    if a.len() != b.len() {
        return false;
    }
    let mut k: usize = 0;
    while k < a.len()
        invariant
            a@.len() == b@.len(),
            k <= a@.len(),
            forall|j: int| 0 <= j < k ==> spec_to_lower(#[trigger] a@[j]) == spec_to_lower(b@[j]),
        decreases a@.len() - k,
    {
        if to_lower(a[k]) != to_lower(b[k]) {
            return false;
        }
        k = k + 1;
    }
    true
}

/// Whether `a` and `b` are equal, byte for byte.
pub fn bytes_eq(a: &[u8], b: &[u8]) -> (r: bool)
    ensures
        r == (a@ == b@),
{
    if a.len() != b.len() {
        return false;
    }
    let mut k: usize = 0;
    while k < a.len()
        invariant
            a@.len() == b@.len(),
            k <= a@.len(),
            forall|j: int| 0 <= j < k ==> a@[j] == b@[j],
        decreases a@.len() - k,
    {
        if a[k] != b[k] {
            return false;
        }
        k = k + 1;
    }
    assert(a@ =~= b@);
    true
}

} // verus!
