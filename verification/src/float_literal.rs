//! Recognition of the decimal literals that `f32::from_str` accepts.
//!
//! The standard library documents the accepted language as this grammar,
//! applied to the lowercased text, with no surrounding white space:
//!
//! ```text
//! Float  ::= Sign? ( 'inf' | 'infinity' | 'nan' | Number )
//! Number ::= ( Digit+ | Digit+ '.' Digit* | Digit* '.' Digit+ ) Exp?
//! Exp    ::= 'e' Sign? Digit+
//! ```
//!
//! The script checker asks whether a value parses; the script reader keeps
//! a number as the literal the script wrote, which `f32::from_str` turns
//! into the number wherever one is needed.
use vstd::prelude::*;
use crate::text::{chars_eq, find_char, first_index_of, is_ascii_digit, lemma_first_index_unique, lower_seq, sub_chars, to_ascii_lower_chars};

verus! {

pub open spec fn is_sign(c: char) -> bool {
    c == '+' || c == '-'
}

/// `Digit+ | Digit+ '.' Digit* | Digit* '.' Digit+`: digits with at most one
/// point and at least one digit.
pub open spec fn is_mantissa(m: Seq<char>) -> bool {
    &&& forall|i: int| 0 <= i < m.len() ==> is_ascii_digit(#[trigger] m[i]) || m[i] == '.'
    &&& forall|i: int, j: int|
        0 <= i < m.len() && 0 <= j < m.len() && #[trigger] m[i] == '.' && #[trigger] m[j] == '.'
            ==> i == j
    &&& exists|i: int| 0 <= i < m.len() && is_ascii_digit(#[trigger] m[i])
}

/// What follows the `e` of an exponent: `Sign? Digit+`.
pub open spec fn is_exponent_tail(e: Seq<char>) -> bool {
    let d = without_sign(e);
    d.len() > 0 && forall|i: int| 0 <= i < d.len() ==> is_ascii_digit(#[trigger] d[i])
}

/// `Number`: a mantissa, then optionally `e` and an exponent. A mantissa
/// holds no `e`, so the exponent starts at the first `e`.
pub open spec fn is_number(t: Seq<char>) -> bool {
    let k = first_index_of(lower_seq(t), 'e');
    is_mantissa(t.take(k)) && (k == t.len() || is_exponent_tail(t.skip(k + 1)))
}

pub open spec fn without_sign(s: Seq<char>) -> Seq<char> {
    if s.len() > 0 && is_sign(s[0]) {
        s.drop_first()
    } else {
        s
    }
}

/// Whether `f32::from_str` accepts `s`.
pub open spec fn is_float_literal(s: Seq<char>) -> bool {
    let t = without_sign(s);
    let l = lower_seq(t);
    ||| l == seq!['i', 'n', 'f']
    ||| l == seq!['i', 'n', 'f', 'i', 'n', 'i', 't', 'y']
    ||| l == seq!['n', 'a', 'n']
    ||| is_number(t)
}

fn is_digit_char(c: char) -> (r: bool)
    ensures
        r == is_ascii_digit(c),
{
    '0' <= c && c <= '9'
}

fn check_mantissa(m: &Vec<char>) -> (r: bool)
    ensures
        r == is_mantissa(m@),
{
    let mut dot: Option<usize> = None;
    let mut digit: Option<usize> = None;
    let mut i: usize = 0;
    while i < m.len()
        invariant
            i <= m.len(),
            forall|j: int| 0 <= j < i ==> is_ascii_digit(#[trigger] m@[j]) || m@[j] == '.',
            match dot {
                Some(d) => d < i && m@[d as int] == '.' && forall|j: int|
                    0 <= j < i && #[trigger] m@[j] == '.' ==> j == d,
                None => forall|j: int| 0 <= j < i ==> #[trigger] m@[j] != '.',
            },
            match digit {
                Some(d) => d < i && is_ascii_digit(m@[d as int]),
                None => forall|j: int| 0 <= j < i ==> !is_ascii_digit(#[trigger] m@[j]),
            },
        decreases m.len() - i,
    {
        let c = m[i];
        if c == '.' {
            if dot.is_some() {
                return false;
            }
            dot = Some(i);
        } else if is_digit_char(c) {
            digit = Some(i);
        } else {
            return false;
        }
        i += 1;
    }
    match digit {
        Some(d) => {
            assert(is_ascii_digit(m@[d as int]));
            true
        },
        None => false,
    }
}

fn check_exponent_tail(e: &Vec<char>) -> (r: bool)
    ensures
        r == is_exponent_tail(e@),
{
    let start: usize = if e.len() > 0 && (e[0] == '+' || e[0] == '-') {
        1
    } else {
        0
    };
    if start >= e.len() {
        return false;
    }
    let d = sub_chars(e, start, e.len());
    assert(start == 1 ==> d@ == e@.drop_first());
    assert(start == 0 ==> d@ == e@);
    let mut i: usize = 0;
    while i < d.len()
        invariant
            d@ == without_sign(e@),
            i <= d.len(),
            forall|j: int| 0 <= j < i ==> is_ascii_digit(#[trigger] d@[j]),
        decreases d.len() - i,
    {
        if !is_digit_char(d[i]) {
            assert(!is_ascii_digit(without_sign(e@)[i as int]));
            return false;
        }
        i += 1;
    }
    true
}

fn check_number(t: &Vec<char>) -> (r: bool)
    ensures
        r == is_number(t@),
{
    let l = to_ascii_lower_chars(t);
    let k = find_char(&l, 'e');
    proof {
        crate::text::lemma_first_index_of(l@, 'e');
    }
    let mantissa = sub_chars(t, 0, k);
    if !check_mantissa(&mantissa) {
        return false;
    }
    if k == t.len() {
        return true;
    }
    let tail = sub_chars(t, k + 1, t.len());
    assert(tail@ == t@.skip(k + 1));
    check_exponent_tail(&tail)
}

/// Whether `s` is text that `f32::from_str` turns into a number.
pub fn is_float_literal_chars(s: &Vec<char>) -> (r: bool)
    ensures
        r == is_float_literal(s@),
{
    let t = if s.len() > 0 && (s[0] == '+' || s[0] == '-') {
        sub_chars(s, 1, s.len())
    } else {
        sub_chars(s, 0, s.len())
    };
    assert(t@ == without_sign(s@));
    let l = to_ascii_lower_chars(&t);
    let inf = vec!['i', 'n', 'f'];
    let infinity = vec!['i', 'n', 'f', 'i', 'n', 'i', 't', 'y'];
    let nan = vec!['n', 'a', 'n'];
    assert(inf@ == seq!['i', 'n', 'f']);
    assert(infinity@ == seq!['i', 'n', 'f', 'i', 'n', 'i', 't', 'y']);
    assert(nan@ == seq!['n', 'a', 'n']);
    chars_eq(&l, &inf) || chars_eq(&l, &infinity) || chars_eq(&l, &nan) || check_number(&t)
}

/// Every non-empty run of ASCII digits is a number `f32::from_str` takes,
/// with a sign in front of it or not.
pub proof fn law_digits_are_float_literals(s: Seq<char>, sign: Option<char>)
    requires
        s.len() > 0,
        forall|i: int| 0 <= i < s.len() ==> is_ascii_digit(#[trigger] s[i]),
        sign matches Some(c) ==> is_sign(c),
    ensures
        is_float_literal(match sign {
            Some(c) => seq![c] + s,
            None => s,
        }),
{
    let full = match sign {
        Some(c) => seq![c] + s,
        None => s,
    };
    assert(without_sign(full) =~= s) by {
        if sign is None {
            assert(!is_sign(s[0]));
        } else {
            assert((seq![sign->0] + s).drop_first() =~= s);
        }
    }
    let l = lower_seq(s);
    assert forall|j: int| 0 <= j < l.len() implies l[j] != 'e' by {
        assert(l[j] == crate::text::ascii_lower(s[j]));
    }
    lemma_first_index_unique(l, 'e', s.len() as int);
    assert(s.take(s.len() as int) =~= s);
    assert(is_ascii_digit(s[0]));
}

} // verus!
