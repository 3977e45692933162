//! A cursor over the bytes of a message, with the scanning steps that the
//! header parsers are built from.
use vstd::prelude::*;
use vstd::slice::slice_subrange;
use crate::chars::{is_user, is_password, is_uri_param, is_uri_header, spec_is_user, spec_is_password, spec_is_uri_param, spec_is_uri_header, is_alpha, is_alphanum, is_digit, is_hex, is_token, is_via_param, spec_is_alpha, spec_is_alphanum, spec_is_digit, spec_is_hex, spec_is_newline, spec_is_space, spec_is_token, spec_is_via_param};

verus! {

/// A set of bytes that a scan may run over.
#[derive(Clone, Copy, PartialEq, Eq, Debug)]
pub enum CharClass {
    Token,
    Alpha,
    Digit,
    Space,
    ViaParam,
    /// Characters of a host name: alphanum, `-` and `.`.
    HostName,
    /// Characters of the user part of a SIP URI.
    User,
    /// Characters of the password of a SIP URI.
    Password,
    /// Characters of a URI parameter.
    UriParam,
    /// Characters of the headers of a URI.
    UriHeader,
    /// Hexadecimal digits.
    Hex,
    /// Characters of an IPv6 reference: hex digits, `:` and `.`.
    Ipv6,
    /// Every byte but carriage return and line feed.
    NotNewline,
    /// Every byte but the given one.
    Except(u8),
}

impl CharClass {
    pub open spec fn spec_contains(self, b: u8) -> bool {
        match self {
            CharClass::Token => spec_is_token(b),
            CharClass::Alpha => spec_is_alpha(b),
            CharClass::Digit => spec_is_digit(b),
            CharClass::Space => spec_is_space(b),
            CharClass::ViaParam => spec_is_via_param(b),
            CharClass::HostName => spec_is_alphanum(b) || b == 0x2d || b == 0x2e,
            CharClass::Hex => spec_is_hex(b),
            CharClass::Ipv6 => spec_is_hex(b) || b == 0x3a || b == 0x2e,
            CharClass::User => spec_is_user(b),
            CharClass::Password => spec_is_password(b),
            CharClass::UriParam => spec_is_uri_param(b),
            CharClass::UriHeader => spec_is_uri_header(b),
            CharClass::NotNewline => !spec_is_newline(b),
            CharClass::Except(x) => b != x,
        }
    }

    /// Whether every byte of the class is ASCII.
    pub open spec fn ascii_only(self) -> bool {
        match self {
            CharClass::NotNewline | CharClass::Except(_) => false,
            _ => true,
        }
    }

    pub fn contains(self, b: u8) -> (r: bool)
        ensures
            r == self.spec_contains(b),
    {
        match self {
            CharClass::Token => is_token(b),
            CharClass::Alpha => is_alpha(b),
            CharClass::Digit => is_digit(b),
            CharClass::Space => b == 0x20 || b == 0x09,
            CharClass::ViaParam => is_via_param(&b),
            CharClass::HostName => is_alphanum(b) || b == 0x2d || b == 0x2e,
            CharClass::Hex => is_hex(b),
            CharClass::Ipv6 => is_hex(b) || b == 0x3a || b == 0x2e,
            CharClass::User => is_user(b),
            CharClass::Password => is_password(b),
            CharClass::UriParam => is_uri_param(b),
            CharClass::UriHeader => is_uri_header(b),
            CharClass::NotNewline => !(b == 0x0d || b == 0x0a),
            CharClass::Except(x) => b != x,
        }
    }
}

/// The position at which a scan over `c` that starts at `i` stops: the first
/// position at or after `i` whose byte is not in `c`, or the end of `s`.
pub open spec fn scan_while(s: Seq<u8>, i: int, c: CharClass) -> int
    decreases s.len() - i,
{
    if 0 <= i < s.len() && c.spec_contains(s[i]) {
        scan_while(s, i + 1, c)
    } else {
        i
    }
}

/// The byte at `i`, if there is one.
pub open spec fn byte_at(s: Seq<u8>, i: int) -> Option<u8> {
    if 0 <= i < s.len() {
        Some(s[i])
    } else {
        None
    }
}

/// What a scan over `c` from `i` stops at: every byte it passes is in `c`,
/// and the byte it stops at, if any, is not.
pub proof fn lemma_scan_while(s: Seq<u8>, i: int, c: CharClass)
    requires
        0 <= i <= s.len(),
    ensures
        i <= scan_while(s, i, c) <= s.len(),
        forall|k: int| i <= k < scan_while(s, i, c) ==> c.spec_contains(#[trigger] s[k]),
        scan_while(s, i, c) < s.len() ==> !c.spec_contains(s[scan_while(s, i, c)]),
    decreases s.len() - i,
{
    if i < s.len() && c.spec_contains(s[i]) {
        lemma_scan_while(s, i + 1, c);
    }
}

/// A scan over `c` from `i` that runs over `t`, all of whose bytes are in
/// `c`, and that then meets a byte not in `c` (or the end), stops right after `t`.
pub proof fn lemma_scan_over(s: Seq<u8>, i: int, t: Seq<u8>, c: CharClass)
    requires
        0 <= i,
        i + t.len() <= s.len(),
        s.subrange(i, i + t.len()) == t,
        forall|k: int| 0 <= k < t.len() ==> c.spec_contains(#[trigger] t[k]),
        i + t.len() < s.len() ==> !c.spec_contains(s[i + t.len()]),
    ensures
        scan_while(s, i, c) == i + t.len(),
    decreases t.len(),
{
    if t.len() > 0 {
        assert(s[i] == t[0]);
        let t1 = t.drop_first();
        assert forall|k: int| 0 <= k < t1.len() implies c.spec_contains(#[trigger] t1[k]) by {
            assert(t1[k] == t[k + 1]);
        }
        assert(s.subrange(i + 1, i + 1 + t1.len()) =~= t1);
        lemma_scan_over(s, i + 1, t1, c);
    }
}

/// The bytes a scan over an ASCII-only class passes are ASCII.
pub proof fn lemma_scan_ascii(s: Seq<u8>, i: int, c: CharClass)
    requires
        0 <= i <= s.len(),
        c.ascii_only(),
    ensures
        crate::text::all_ascii(s.subrange(i, scan_while(s, i, c))),
{
    lemma_scan_while(s, i, c);
    let j = scan_while(s, i, c);
    assert forall|k: int| 0 <= k < j - i implies #[trigger] s.subrange(i, j)[k] < 0x80 by {
        assert(c.spec_contains(s[i + k]));
    }
}

/// A cursor over a byte slice: the bytes and the position of the next one to read.
pub struct Bytes<'a> {
    src: &'a [u8],
    pos: usize,
}

impl<'a> Bytes<'a> {
    #[verifier::type_invariant]
    spec fn inv(&self) -> bool {
        self.pos <= self.src@.len()
    }

    /// All the bytes, read and unread.
    pub closed spec fn data(&self) -> Seq<u8> {
        self.src@
    }

    /// The position of the next byte to read.
    pub closed spec fn pos(&self) -> int {
        self.pos as int
    }

    /// The bytes not read yet.
    pub open spec fn rest(&self) -> Seq<u8> {
        self.data().subrange(self.pos(), self.data().len() as int)
    }

    pub fn new(src: &'a [u8]) -> (b: Self)
        ensures
            b.data() == src@,
            b.pos() == 0,
    {
        Bytes { src, pos: 0 }
    }

    /// A second cursor at the same place, to look ahead with.
    pub fn fork(&self) -> (b: Bytes<'a>)
        ensures
            b.data() == self.data(),
            b.pos() == self.pos(),
    {
        proof {
            use_type_invariant(self);
        }
        Bytes { src: self.src, pos: self.pos }
    }

    /// The position of the next byte to read.
    pub fn position(&self) -> (p: usize)
        ensures
            p == self.pos(),
            p <= self.data().len(),
    {
        proof {
            use_type_invariant(self);
        }
        self.pos
    }

    /// The bytes from `a` up to `b`.
    pub fn slice(&self, a: usize, b: usize) -> (r: &'a [u8])
        requires
            a <= b <= self.data().len(),
        ensures
            r@ == self.data().subrange(a as int, b as int),
    {
        slice_subrange(self.src, a, b)
    }

    /// The bytes not read yet.
    pub fn as_ref(&self) -> (r: &'a [u8])
        ensures
            r@ == self.rest(),
    {
        proof {
            use_type_invariant(self);
        }
        slice_subrange(self.src, self.pos, self.src.len())
    }

    /// Whether every byte has been read.
    pub fn is_eof(&self) -> (r: bool)
        ensures
            r == (self.pos() >= self.data().len()),
    {
        self.pos >= self.src.len()
    }

    /// The next byte, without reading it.
    pub fn peek(&self) -> (r: Option<u8>)
        ensures
            r == byte_at(self.data(), self.pos()),
    {
        if self.pos < self.src.len() {
            Some(self.src[self.pos])
        } else {
            None
        }
    }

    /// Reads the next byte, if there is one.
    pub fn next(&mut self) -> (r: Option<u8>)
        ensures
            r == byte_at(old(self).data(), old(self).pos()),
            final(self).data() == old(self).data(),
            old(self).pos() <= final(self).pos() <= final(self).data().len(),
            final(self).pos() == if r is Some { old(self).pos() + 1 } else { old(self).pos() },
    {
        proof {
            use_type_invariant(&*self);
        }
        if self.pos < self.src.len() {
            let b = self.src[self.pos];
            self.pos = self.pos + 1;
            Some(b)
        } else {
            None
        }
    }

    /// The `n` bytes that come next, without reading them, where there are that many.
    pub fn peek_n(&self, n: usize) -> (r: Option<&'a [u8]>)
        ensures
            r is Some <==> self.pos() + n <= self.data().len(),
            r matches Some(v) ==> v@ == self.data().subrange(self.pos(), self.pos() + n) && v@.len() == n,
    {
        proof {
            use_type_invariant(self);
        }
        if n <= self.src.len() - self.pos {
            Some(slice_subrange(self.src, self.pos, self.pos + n))
        } else {
            None
        }
    }

    /// Skips `n` bytes.
    pub fn advance(&mut self, n: usize)
        requires
            old(self).pos() + n <= old(self).data().len(),
        ensures
            final(self).data() == old(self).data(),
            old(self).pos() <= final(self).pos() <= final(self).data().len(),
            final(self).pos() == old(self).pos() + n,
    {
        proof {
            use_type_invariant(&*self);
        }
        let len = self.src.len();
        assert(self.pos + n <= len);
        self.pos = self.pos + n;
    }

    /// Reads the bytes of class `c` that come next, and returns them.
    pub fn read_while(&mut self, c: CharClass) -> (r: &'a [u8])
        ensures
            final(self).data() == old(self).data(),
            old(self).pos() <= final(self).pos() <= final(self).data().len(),
            final(self).pos() == scan_while(old(self).data(), old(self).pos(), c),
            r@ == old(self).data().subrange(old(self).pos(), final(self).pos()),
    {
        proof {
            use_type_invariant(&*self);
        }
        let start = self.pos;
        let mut j = self.pos;
        while j < self.src.len() && c.contains(self.src[j])
            invariant
                start <= j <= self.src@.len(),
                start == self.pos,
                scan_while(self.src@, j as int, c) == scan_while(self.src@, start as int, c),
            decreases self.src@.len() - j,
        {
            j = j + 1;
        }
        self.pos = j;
        slice_subrange(self.src, start, j)
    }

    /// Skips the spaces and tabs that come next.
    pub fn skip_space(&mut self)
        ensures
            final(self).data() == old(self).data(),
            old(self).pos() <= final(self).pos() <= final(self).data().len(),
            final(self).pos() == scan_while(old(self).data(), old(self).pos(), CharClass::Space),
    {
        let _ = self.read_while(CharClass::Space);
    }

    /// Reads the bytes up to the next `b` (or to the end), leaving `b` unread.
    pub fn read_until(&mut self, b: u8) -> (r: &'a [u8])
        ensures
            final(self).data() == old(self).data(),
            old(self).pos() <= final(self).pos() <= final(self).data().len(),
            final(self).pos() == scan_while(old(self).data(), old(self).pos(), CharClass::Except(b)),
            r@ == old(self).data().subrange(old(self).pos(), final(self).pos()),
    {
        self.read_while(CharClass::Except(b))
    }

    /// Reads the bytes up to the end of the line, leaving the line break unread.
    pub fn read_until_newline(&mut self) -> (r: &'a [u8])
        ensures
            final(self).data() == old(self).data(),
            old(self).pos() <= final(self).pos() <= final(self).data().len(),
            final(self).pos() == scan_while(old(self).data(), old(self).pos(), CharClass::NotNewline),
            r@ == old(self).data().subrange(old(self).pos(), final(self).pos()),
    {
        self.read_while(CharClass::NotNewline)
    }
}

} // verus!
