//! Parameters (`;name=value`) and their collection.
use vstd::prelude::*;
use crate::error::Result;
use crate::scanner::{Bytes, CharClass, byte_at, scan_while, lemma_scan_while, lemma_scan_ascii};
use crate::text::{text, ascii_str, str_eq};

verus! {

/// A parameter: a name and an optional value.
#[derive(Debug, Clone, Copy, PartialEq, Eq)]
pub struct Param<'a> {
    pub name: &'a str,
    pub value: Option<&'a str>,
}

/// The text of an optional string slice.
pub open spec fn opt_str(o: Option<&str>) -> Option<Seq<char>> {
    match o {
        Some(s) => Some(s@),
        None => None,
    }
}

/// The text of an optional string.
pub open spec fn opt_text(o: Option<String>) -> Option<Seq<char>> {
    match o {
        Some(s) => Some(s@),
        None => None,
    }
}

impl<'a> View for Param<'a> {
    type V = (Seq<char>, Option<Seq<char>>);

    open spec fn view(&self) -> (Seq<char>, Option<Seq<char>>) {
        (self.name@, opt_str(self.value))
    }
}

/// The value a collection of parameters gives a name: `None` where the name
/// is absent or has no value.
pub open spec fn lookup(m: Map<Seq<char>, Option<Seq<char>>>, k: Seq<char>) -> Option<Seq<char>> {
    if m.contains_key(k) {
        m[k]
    } else {
        None
    }
}

/// The parameters of a list whose names are not among `keys`, in order.
pub open spec fn drop_names(l: Seq<(Seq<char>, Option<Seq<char>>)>, keys: Seq<Seq<char>>) -> Seq<(Seq<char>, Option<Seq<char>>)>
    decreases l.len(),
{
    if l.len() == 0 {
        l
    } else if keys.contains(l.last().0) {
        drop_names(l.drop_last(), keys)
    } else {
        drop_names(l.drop_last(), keys).push(l.last())
    }
}

/// Whether `name` is among `keys`.
pub fn is_among(name: &str, keys: &Vec<&str>) -> (r: bool)
    ensures
        r == keys@.map_values(|k: &str| k@).contains(name@),
{
    let ghost kv = keys@.map_values(|k: &str| k@);
    let mut i: usize = 0;
    while i < keys.len()
        invariant
            i <= keys@.len(),
            kv == keys@.map_values(|k: &str| k@),
            forall|j: int| 0 <= j < i ==> kv[j] != name@,
        decreases keys@.len() - i,
    {
        if str_eq(keys[i], name) {
            proof {
                assert(kv[i as int] == name@);
            }
            return true;
        }
        i = i + 1;
    }
    false
}

/// The parameters of `list` whose names are not among `keys`, in order.
pub fn without_names<'a>(list: &Vec<Param<'a>>, keys: &Vec<&str>) -> (r: Vec<Param<'a>>)
    ensures
        r@.map_values(|p: Param| p@) == drop_names(
            list@.map_values(|p: Param| p@),
            keys@.map_values(|k: &str| k@),
        ),
{
    let ghost l = list@.map_values(|p: Param| p@);
    let ghost kv = keys@.map_values(|k: &str| k@);
    let mut out: Vec<Param<'a>> = Vec::new();
    let mut i: usize = 0;
    while i < list.len()
        invariant
            i <= list@.len(),
            l == list@.map_values(|p: Param| p@),
            kv == keys@.map_values(|k: &str| k@),
            out@.map_values(|p: Param| p@) == drop_names(l.take(i as int), kv),
        decreases list@.len() - i,
    {
        proof {
            assert(l.take(i + 1).drop_last() =~= l.take(i as int));
            assert(l.take(i + 1).last() == list@[i as int]@);
        }
        let ghost o0 = out@.map_values(|p: Param| p@);
        if !is_among(list[i].name, keys) {
            let p = list[i];
            out.push(p);
            proof {
                assert(out@.map_values(|p: Param| p@) =~= o0.push(l[i as int]));
            }
        }
        i = i + 1;
    }
    proof {
        assert(l.take(i as int) =~= l);
    }
    out
}

/// The map that a list of parameters sets: each name to the value of its
/// last occurrence.
pub open spec fn params_map(s: Seq<(Seq<char>, Option<Seq<char>>)>) -> Map<Seq<char>, Option<Seq<char>>>
    decreases s.len(),
{
    if s.len() == 0 {
        Map::empty()
    } else {
        params_map(s.drop_last()).insert(s.last().0, s.last().1)
    }
}

/// A collection of parameters, each name mapped to its optional value.
#[derive(Debug, PartialEq, Eq)]
pub struct Params<'a> {
    entries: Vec<Param<'a>>,
}

impl<'a> View for Params<'a> {
    type V = Map<Seq<char>, Option<Seq<char>>>;

    closed spec fn view(&self) -> Map<Seq<char>, Option<Seq<char>>> {
        params_map(self.entries@.map_values(|p: Param| p@))
    }
}

/// Entries past `i` that do not carry `name` leave the map's entry for
/// `name` as the first `i` entries set it.
proof fn lemma_params_map_suffix(s: Seq<(Seq<char>, Option<Seq<char>>)>, i: int, name: Seq<char>)
    requires
        0 <= i <= s.len(),
        forall|j: int| i <= j < s.len() ==> (#[trigger] s[j]).0 != name,
    ensures
        params_map(s).contains_key(name) == params_map(s.take(i)).contains_key(name),
        params_map(s).contains_key(name) ==> params_map(s)[name] == params_map(s.take(i))[name],
    decreases s.len() - i,
{
    if i < s.len() {
        lemma_params_map_suffix(s.drop_last(), i, name);
        assert(s.drop_last().take(i) =~= s.take(i));
    } else {
        assert(s.take(i) =~= s);
    }
}

impl<'a> Params<'a> {
    /// An empty collection.
    pub fn new() -> (p: Self)
        ensures
            p@ == Map::<Seq<char>, Option<Seq<char>>>::empty(),
    {
        let p = Params { entries: Vec::new() };
        assert(p.entries@.map_values(|p: Param| p@) =~= Seq::<(Seq<char>, Option<Seq<char>>)>::empty());
        p
    }

    /// The collection that a list of parameters sets, the last occurrence of
    /// a name giving its value.
    pub fn from_list(list: Vec<Param<'a>>) -> (p: Self)
        ensures
            p@ == params_map(list@.map_values(|q: Param| q@)),
    {
        Params { entries: list }
    }

    /// Sets `name` to `value`, replacing any value it had.
    pub fn set(&mut self, name: &'a str, value: Option<&'a str>)
        ensures
            final(self)@ == old(self)@.insert(name@, opt_str(value)),
    {
        let ghost before = self.entries@.map_values(|p: Param| p@);
        let ghost pv = (name@, opt_str(value));
        self.entries.push(Param { name, value });
        assert(self.entries@.map_values(|p: Param| p@) =~= before.push(pv));
        assert(before.push(pv).drop_last() =~= before);
    }

    /// Whether `name` has been set.
    pub fn contains(&self, name: &str) -> (r: bool)
        ensures
            r == self@.contains_key(name@),
    {
        self.find(name).is_some()
    }

    /// The value of `name`, if it has been set with one.
    pub fn get(&self, name: &str) -> (r: Option<&'a str>)
        ensures
            r is Some <==> (self@.contains_key(name@) && self@[name@] is Some),
            r matches Some(v) ==> self@[name@] == Some(v@),
    {
        match self.find(name) {
            Some(i) => self.entries[i].value,
            None => None,
        }
    }

    /// The index of the last entry that carries `name`.
    fn find(&self, name: &str) -> (r: Option<usize>)
        ensures
            r is Some <==> self@.contains_key(name@),
            r matches Some(i) ==> i < self.entries@.len() && self.entries@[i as int].name@ == name@
                && self@[name@] == opt_str(self.entries@[i as int].value),
    {
        let ghost s = self.entries@.map_values(|p: Param| p@);
        let mut i = self.entries.len();
        while i > 0
            invariant
                i <= self.entries@.len(),
                s == self.entries@.map_values(|p: Param| p@),
                forall|j: int| i <= j < s.len() ==> (#[trigger] s[j]).0 != name@,
            decreases i,
        {
            if str_eq(self.entries[i - 1].name, name) {
                proof {
                    lemma_params_map_suffix(s, i as int, name@);
                    assert(s.take(i as int).drop_last() =~= s.take(i - 1));
                    assert(s.take(i as int).last() == s[i - 1]);
                }
                return Some(i - 1);
            }
            i = i - 1;
        }
        proof {
            lemma_params_map_suffix(s, 0, name@);
            assert(s.take(0) =~= Seq::<(Seq<char>, Option<Seq<char>>)>::empty());
        }
        None
    }
}

/// A parameter as bytes of the input: its name and optional value.
pub type RawParam = (Seq<u8>, Option<Seq<u8>>);

/// The text of a parameter read from the input.
pub open spec fn raw_param_text(p: RawParam) -> (Seq<char>, Option<Seq<char>>) {
    (
        text(p.0),
        match p.1 {
            Some(v) => Some(text(v)),
            None => None,
        },
    )
}

/// The parameter that starts at `i` (at its `;`, which is skipped whatever it
/// is): spaces, a name of class `c`, and, after `=`, a value of class `c`;
/// with the position after it.
pub open spec fn spec_param(s: Seq<u8>, i: int, c: CharClass) -> (RawParam, int) {
    let i1 = if 0 <= i < s.len() { i + 1 } else { i };
    let i2 = scan_while(s, i1, CharClass::Space);
    let i3 = scan_while(s, i2, c);
    if byte_at(s, i3) == Some(0x3du8) {
        let i4 = scan_while(s, i3 + 1, c);
        ((s.subrange(i2, i3), Some(s.subrange(i3 + 1, i4))), i4)
    } else {
        ((s.subrange(i2, i3), None), i3)
    }
}

/// The parameters that follow `i`: while a `;` comes (after spaces, where
/// `lws`), one parameter; with the position after the last one (and, where
/// `lws`, the spaces after it).
pub open spec fn spec_params(s: Seq<u8>, i: int, c: CharClass, lws: bool) -> (Seq<RawParam>, int)
    decreases s.len() - i,
{
    let i1 = if lws { scan_while(s, i, CharClass::Space) } else { i };
    if 0 <= i <= s.len() && byte_at(s, i1) == Some(0x3bu8) {
        let (p, j) = spec_param(s, i1, c);
        proof {
            lemma_param_advances(s, i1, c);
            lemma_scan_while(s, i, CharClass::Space);
        }
        let (rest, k) = spec_params(s, j, c, lws);
        (seq![p] + rest, k)
    } else {
        (seq![], i1)
    }
}

/// A parameter that starts at a byte of the input ends after that byte, and
/// within the input.
pub proof fn lemma_param_advances(s: Seq<u8>, i: int, c: CharClass)
    requires
        0 <= i < s.len(),
    ensures
        i < spec_param(s, i, c).1 <= s.len(),
{
    let i2 = scan_while(s, i + 1, CharClass::Space);
    lemma_scan_while(s, i + 1, CharClass::Space);
    let i3 = scan_while(s, i2, c);
    lemma_scan_while(s, i2, c);
    if byte_at(s, i3) == Some(0x3du8) {
        lemma_scan_while(s, i3 + 1, c);
    }
}

/// Reads a parameter that starts at its `;`: `;` (skipped, whatever byte it
/// is), spaces, a name of class `c`, and optionally `=` and a value of class `c`.
pub fn parse_param_of<'a>(bytes: &mut Bytes<'a>, c: CharClass) -> (p: Param<'a>)
    requires
        c.ascii_only(),
    ensures
        final(bytes).data() == old(bytes).data(),
        old(bytes).pos() <= final(bytes).pos() <= final(bytes).data().len(),
        final(bytes).pos() == spec_param(old(bytes).data(), old(bytes).pos(), c).1,
        p@ == raw_param_text(spec_param(old(bytes).data(), old(bytes).pos(), c).0),
{
    let _ = bytes.position();
    let _ = bytes.next();
    bytes.skip_space();
    let p2 = bytes.position();
    let name = bytes.read_while(c);
    proof {
        lemma_scan_ascii(bytes.data(), p2 as int, c);
    }
    let name = ascii_str(name);
    if bytes.peek() == Some(0x3du8) {
        let _ = bytes.next();
        let p4 = bytes.position();
        let value = bytes.read_while(c);
        proof {
            lemma_scan_ascii(bytes.data(), p4 as int, c);
        }
        Param { name, value: Some(ascii_str(value)) }
    } else {
        Param { name, value: None }
    }
}

/// Reads the parameters that follow: while a `;` comes (after spaces, where
/// `lws`), one parameter of class `c`.
pub fn parse_params_of<'a>(bytes: &mut Bytes<'a>, c: CharClass, lws: bool) -> (ps: Vec<Param<'a>>)
    requires
        c.ascii_only(),
    ensures
        final(bytes).data() == old(bytes).data(),
        old(bytes).pos() <= final(bytes).pos() <= final(bytes).data().len(),
        final(bytes).pos() == spec_params(old(bytes).data(), old(bytes).pos(), c, lws).1,
        ps@.map_values(|p: Param| p@) == spec_params(old(bytes).data(), old(bytes).pos(), c, lws).0.map_values(
            |p: RawParam| raw_param_text(p),
        ),
{
    let ghost s = bytes.data();
    let ghost i0 = bytes.pos();
    let _ = bytes.position();
    let mut out: Vec<Param<'a>> = Vec::new();
    let ghost mut acc: Seq<RawParam> = seq![];
    loop
        invariant_except_break
            c.ascii_only(),
            bytes.data() == s,
            i0 <= bytes.pos() <= s.len(),
            spec_params(s, i0, c, lws).0 == acc + spec_params(s, bytes.pos(), c, lws).0,
            spec_params(s, i0, c, lws).1 == spec_params(s, bytes.pos(), c, lws).1,
            out@.map_values(|p: Param| p@) == acc.map_values(|p: RawParam| raw_param_text(p)),
        ensures
            bytes.data() == s,
            i0 <= bytes.pos() <= s.len(),
            bytes.pos() == spec_params(s, i0, c, lws).1,
            out@.map_values(|p: Param| p@) == spec_params(s, i0, c, lws).0.map_values(|p: RawParam| raw_param_text(p)),
        decreases s.len() - bytes.pos(),
    {
        let ghost before = bytes.pos();
        if lws {
            bytes.skip_space();
        }
        let p1 = bytes.position();
        proof {
            lemma_scan_while(s, before, CharClass::Space);
        }
        if bytes.peek() == Some(0x3bu8) {
            let p = parse_param_of(bytes, c);
            let ghost rp = spec_param(s, p1 as int, c).0;
            let ghost j = spec_param(s, p1 as int, c).1;
            proof {
                lemma_param_advances(s, p1 as int, c);
                assert(seq![rp] + spec_params(s, j, c, lws).0 == spec_params(s, before, c, lws).0);
                assert(acc + (seq![rp] + spec_params(s, j, c, lws).0) =~= acc.push(rp) + spec_params(s, j, c, lws).0);
            }
            let ghost old_out = out@;
            let ghost old_acc = acc;
            out.push(p);
            proof {
                assert(old_out.map_values(|p: Param| p@).len() == old_out.len());
                assert(old_acc.map_values(|p: RawParam| raw_param_text(p)).len() == old_acc.len());
                acc = acc.push(rp);
                assert(p@ == raw_param_text(rp));
                assert forall|k: int| 0 <= k < out@.len() implies #[trigger] out@[k]@ == raw_param_text(acc[k]) by {
                    if k < old_out.len() {
                        assert(old_out.map_values(|p: Param| p@)[k] == old_acc.map_values(|p: RawParam| raw_param_text(p))[k]);
                    }
                }
                assert(out@.map_values(|p: Param| p@) =~= acc.map_values(|p: RawParam| raw_param_text(p)));
            }
        } else {
            proof {
                assert(spec_params(s, before, c, lws).0 =~= Seq::<RawParam>::empty());
                assert(acc + Seq::<RawParam>::empty() =~= acc);
            }
            break;
        }
    }
    out
}

/// Reads a generic parameter (`;` name [`=` value], names and values made of
/// token characters) and returns its name and optional value.
pub fn parse_generic_param<'a>(bytes: &mut Bytes<'a>) -> (r: Result<(&'a str, Option<&'a str>)>)
    ensures
        final(bytes).data() == old(bytes).data(),
        old(bytes).pos() <= final(bytes).pos() <= final(bytes).data().len(),
        final(bytes).pos() == spec_param(old(bytes).data(), old(bytes).pos(), CharClass::Token).1,
        r matches Ok((n, v)) && (n@, opt_str(v)) == raw_param_text(
            spec_param(old(bytes).data(), old(bytes).pos(), CharClass::Token).0,
        ),
{
    let p = parse_param_of(bytes, CharClass::Token);
    Ok((p.name, p.value))
}

/// The parameters a list of them sets, or `None` for an empty list.
pub open spec fn params_of(list: Seq<RawParam>) -> Option<Map<Seq<char>, Option<Seq<char>>>> {
    if list.len() == 0 {
        None
    } else {
        Some(params_map(list.map_values(|p: RawParam| raw_param_text(p))))
    }
}

/// The view of optional parameters.
pub open spec fn opt_params(p: Option<Params>) -> Option<Map<Seq<char>, Option<Seq<char>>>> {
    match p {
        Some(p) => Some(p@),
        None => None,
    }
}

/// Reads the parameters that follow, as `None` where there is none.
pub fn parse_opt_params<'a>(bytes: &mut Bytes<'a>, c: CharClass, lws: bool) -> (r: Option<Params<'a>>)
    requires
        c.ascii_only(),
    ensures
        final(bytes).data() == old(bytes).data(),
        old(bytes).pos() <= final(bytes).pos() <= final(bytes).data().len(),
        final(bytes).pos() == spec_params(old(bytes).data(), old(bytes).pos(), c, lws).1,
        opt_params(r) == params_of(spec_params(old(bytes).data(), old(bytes).pos(), c, lws).0),
{
    let list = parse_params_of(bytes, c, lws);
    let ghost lv = list@.map_values(|q: Param| q@);
    if list.len() == 0 {
        proof {
            assert(lv.len() == 0);
        }
        None
    } else {
        Some(Params::from_list(list))
    }
}

} // verus!
