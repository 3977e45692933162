//! Decimal numbers.
use vstd::prelude::*;
use crate::chars::{is_digit, spec_is_digit};

verus! {

/// The value of a string of decimal digits.
pub open spec fn digits_value(d: Seq<u8>) -> nat
    decreases d.len(),
{
    if d.len() == 0 {
        0
    } else {
        digits_value(d.drop_last()) * 10 + (d.last() - 0x30) as nat
    }
}

/// Whether every byte is a decimal digit.
pub open spec fn all_digits(d: Seq<u8>) -> bool {
    forall|k: int| 0 <= k < d.len() ==> spec_is_digit(#[trigger] d[k])
}

/// What `u16::from_str` gives: an optional `+`, then one or more digits
/// whose value fits in a `u16`.
pub open spec fn spec_parse_u16(b: Seq<u8>) -> Option<u16> {
    let d = if b.len() > 0 && b[0] == 0x2bu8 { b.drop_first() } else { b };
    if d.len() > 0 && all_digits(d) && digits_value(d) <= 0xffff {
        Some(digits_value(d) as u16)
    } else {
        None
    }
}

/// Adding digits never lowers the value.
pub proof fn lemma_digits_prefix_le(d: Seq<u8>, k: int)
    requires
        0 <= k <= d.len(),
        all_digits(d),
    ensures
        digits_value(d.take(k)) <= digits_value(d),
    decreases d.len(),
{
    if k < d.len() {
        assert(d.drop_last().take(k) =~= d.take(k));
        lemma_digits_prefix_le(d.drop_last(), k);
    } else {
        assert(d.take(k) =~= d);
    }
}

/// The value of the digits `d`, where they are one or more and their value
/// is at most `max`.
pub fn digits_value_upto(d: &[u8], max: u32) -> (r: Option<u32>)
    ensures
        r == (if d@.len() > 0 && all_digits(d@) && digits_value(d@) <= max {
            Some(digits_value(d@) as u32)
        } else {
            None
        }),
{
    if d.len() == 0 {
        return None;
    }
    let mut acc: u64 = 0;
    let mut k: usize = 0;
    while k < d.len()
        invariant
            k <= d@.len(),
            acc == digits_value(d@.take(k as int)),
            acc <= max,
            all_digits(d@.take(k as int)),
        decreases d@.len() - k,
    {
        let b = d[k];
        if !is_digit(b) {
            proof {
                assert(!spec_is_digit(d@[k as int]));
            }
            return None;
        }
        proof {
            assert(d@.take(k + 1).drop_last() =~= d@.take(k as int));
        }
        acc = acc * 10 + (b - 0x30) as u64;
        k = k + 1;
        if acc > max as u64 {
            proof {
                if all_digits(d@) {
                    lemma_digits_prefix_le(d@, k as int);
                }
            }
            return None;
        }
    }
    proof {
        assert(d@.take(k as int) =~= d@);
    }
    Some(acc as u32)
}

/// Parses a `u16` as `u16::from_str` does.
pub fn parse_u16(b: &[u8]) -> (r: Option<u16>)
    ensures
        r == spec_parse_u16(b@),
{
    let d = if b.len() > 0 && b[0] == 0x2b {
        vstd::slice::slice_subrange(b, 1, b.len())
    } else {
        b
    };
    proof {
        if b@.len() > 0 && b@[0] == 0x2bu8 {
            assert(d@ =~= b@.drop_first());
        }
    }
    match digits_value_upto(d, 0xffff) {
        Some(v) => Some(v as u16),
        None => None,
    }
}

} // verus!
