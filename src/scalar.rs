//! Reading flags and unsigned numbers out of element text.
use vstd::prelude::*;

verus! {

pub open spec fn is_digit(c: char) -> bool {
    '0' <= c && c <= '9'
}

/// The value of a string of decimal digits, most significant first.
pub open spec fn digits_value(t: Seq<char>) -> nat
    decreases t.len(),
{
    if t.len() == 0 {
        0
    } else {
        digits_value(t.drop_last()) * 10 + ((t.last() as u32) - ('0' as u32)) as nat
    }
}

/// The digits of a number, after an optional leading `+`.
pub open spec fn unsigned_digits(t: Seq<char>) -> Seq<char> {
    if t.len() > 0 && t[0] == '+' {
        t.drop_first()
    } else {
        t
    }
}

pub open spec fn all_digits(t: Seq<char>) -> bool {
    forall|i: int| 0 <= i < t.len() ==> is_digit(#[trigger] t[i])
}

/// A decimal number, optionally signed `+`, that is at most `max`.
pub open spec fn bounded_value(t: Seq<char>, max: nat) -> Option<nat> {
    let d = unsigned_digits(t);
    if d.len() > 0 && all_digits(d) && digits_value(d) <= max {
        Some(digits_value(d))
    } else {
        None
    }
}

/// The 16-bit unsigned number written in `t`.
pub open spec fn u16_of(t: Seq<char>) -> Option<u16> {
    match bounded_value(t, 65535) {
        Some(v) => Some(v as u16),
        None => None,
    }
}

/// The byte written in `t`.
pub open spec fn u8_of(t: Seq<char>) -> Option<u8> {
    match bounded_value(t, 255) {
        Some(v) => Some(v as u8),
        None => None,
    }
}

/// The flag written in `t`: `true` or `1`, `false` or `0`.
pub open spec fn bool_of(t: Seq<char>) -> Option<bool> {
    if t == "true"@ || t == "1"@ {
        Some(true)
    } else if t == "false"@ || t == "0"@ {
        Some(false)
    } else {
        None
    }
}

proof fn lemma_digits_value_grows(t: Seq<char>, c: char)
    requires
        is_digit(c),
    ensures
        digits_value(t.push(c)) >= digits_value(t),
        digits_value(t.push(c)) == digits_value(t) * 10 + ((c as u32) - ('0' as u32)) as nat,
{
    assert(t.push(c).drop_last() =~= t);
}

fn parse_bounded(s: &str, max: u32) -> (r: Option<u32>)
    requires
        max <= 65535,
    ensures
        match r {
            Some(v) => bounded_value(s@, max as nat) == Some(v as nat),
            None => bounded_value(s@, max as nat) is None,
        },
{
    let mut acc: u32 = 0;
    let mut ok: bool = true;
    let mut seen_digit: bool = false;
    let mut first: bool = true;
    let ghost mut d: Seq<char> = Seq::empty();
    for c in it: s.chars()
        invariant
            it.seq() == s@,
            max <= 65535,
            d == unsigned_digits(s@.subrange(0, it.index() as int)),
            first == (it.index() == 0),
            seen_digit == (d.len() > 0),
            ok <==> (all_digits(d) && digits_value(d) <= max as nat),
            ok ==> acc as nat == digits_value(d),
    {
        let ghost prefix = s@.subrange(0, it.index() as int);
        let ghost next = s@.subrange(0, it.index() + 1);
        proof {
            assert(next =~= prefix.push(c));
            if prefix.len() > 0 {
                assert(next[0] == prefix[0]);
                if prefix[0] == '+' {
                    assert(next.drop_first() =~= prefix.drop_first().push(c));
                }
            } else if c == '+' {
                assert(next.drop_first() =~= Seq::<char>::empty());
            } else {
                assert(next =~= Seq::<char>::empty().push(c));
            }
        }
        if first && c == '+' {
            proof {
                d = Seq::empty();
            }
        } else {
            proof {
                let old_d = d;
                d = d.push(c);
                if !is_digit(c) {
                    assert(!all_digits(d)) by {
                        assert(d[d.len() - 1] == c);
                    }
                } else {
                    lemma_digits_value_grows(old_d, c);
                    assert(all_digits(d) <==> all_digits(old_d)) by {
                        if all_digits(old_d) {
                            assert forall|i: int| 0 <= i < d.len() implies is_digit(#[trigger] d[i]) by {
                                if i < old_d.len() {
                                    assert(d[i] == old_d[i]);
                                }
                            }
                        }
                        if all_digits(d) {
                            assert forall|i: int| 0 <= i < old_d.len() implies is_digit(#[trigger] old_d[i]) by {
                                assert(d[i] == old_d[i]);
                            }
                        }
                    }
                }
            }
            seen_digit = true;
            if ok {
                if '0' <= c && c <= '9' {
                    let digit = (c as u32) - ('0' as u32);
                    let next_acc = acc * 10 + digit;
                    if next_acc <= max {
                        acc = next_acc;
                    } else {
                        ok = false;
                    }
                } else {
                    ok = false;
                }
            }
        }
        first = false;
    }
    proof {
        assert(s@.subrange(0, s@.len() as int) =~= s@);
    }
    if ok && seen_digit {
        Some(acc)
    } else {
        None
    }
}

/// Reads a 16-bit unsigned number.
pub fn parse_u16(s: &str) -> (r: Option<u16>)
    ensures
        r == u16_of(s@),
{
    match parse_bounded(s, 65535) {
        Some(v) => Some(v as u16),
        None => None,
    }
}

/// Reads a byte.
pub fn parse_u8(s: &str) -> (r: Option<u8>)
    ensures
        r == u8_of(s@),
{
    match parse_bounded(s, 255) {
        Some(v) => Some(v as u8),
        None => None,
    }
}

/// Whether `s` reads exactly `lit`.
pub(crate) fn text_is(s: &String, lit: &str) -> (r: bool)
    ensures
        r == (s@ == lit@),
{
    let t = lit.to_owned();
    *s == t
}

/// Reads a flag.
pub fn parse_bool(s: &String) -> (r: Option<bool>)
    ensures
        r == bool_of(s@),
{
    if text_is(s, "true") || text_is(s, "1") {
        Some(true)
    } else if text_is(s, "false") || text_is(s, "0") {
        Some(false)
    } else {
        None
    }
}

} // verus!
