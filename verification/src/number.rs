//! The syntax of a decimal floating-point literal, as Rust's `f64` parser
//! accepts it:
//!
//! ```text
//! Float  ::= Sign? ( 'inf' | 'infinity' | 'nan' | Number )
//! Number ::= ( Digit+ | Digit+ '.' Digit* | Digit* '.' Digit+ ) Exp?
//! Exp    ::= 'e' Sign? Digit+
//! Sign   ::= [+-]
//! Digit  ::= [0-9]
//! ```
//!
//! Letters are matched without regard to ASCII case.

use vstd::prelude::*;
use crate::text::{chars_of, is_white_space};

verus! {

pub open spec fn is_ascii_digit(c: char) -> bool {
    '0' <= c && c <= '9'
}

pub open spec fn is_sign(c: char) -> bool {
    c == '+' || c == '-'
}

pub open spec fn is_exponent_mark(c: char) -> bool {
    c == 'e' || c == 'E'
}

/// The text without one leading sign, if it has one.
pub open spec fn unsigned(s: Seq<char>) -> Seq<char> {
    if s.len() > 0 && is_sign(s[0]) {
        s.drop_first()
    } else {
        s
    }
}

/// Digits with at most one decimal point, and at least one digit.
pub open spec fn is_mantissa(m: Seq<char>) -> bool {
    &&& forall|i: int| 0 <= i < m.len() ==> is_ascii_digit(#[trigger] m[i]) || m[i] == '.'
    &&& forall|i: int, j: int|
        0 <= i < m.len() && 0 <= j < m.len() && #[trigger] m[i] == '.' && #[trigger] m[j] == '.'
            ==> i == j
    &&& exists|i: int| 0 <= i < m.len() && is_ascii_digit(#[trigger] m[i])
}

/// What follows the exponent mark: an optional sign and at least one digit.
pub open spec fn is_exponent(x: Seq<char>) -> bool {
    let d = unsigned(x);
    &&& d.len() > 0
    &&& forall|i: int| 0 <= i < d.len() ==> is_ascii_digit(#[trigger] d[i])
}

/// A mantissa, optionally followed by an exponent mark and an exponent.
pub open spec fn is_decimal_number(b: Seq<char>) -> bool {
    ||| is_mantissa(b)
    ||| exists|k: int|
        0 <= k < b.len() && is_exponent_mark(#[trigger] b[k]) && is_mantissa(b.take(k))
            && is_exponent(b.skip(k + 1))
}

pub open spec fn ascii_lower(c: char) -> char {
    if 'A' <= c && c <= 'Z' {
        ((c as u32) + 32) as char
    } else {
        c
    }
}

/// The text spells the lowercase `word`, ignoring ASCII case.
pub open spec fn spells(s: Seq<char>, word: Seq<char>) -> bool {
    s.len() == word.len() && forall|i: int| 0 <= i < s.len() ==> ascii_lower(#[trigger] s[i]) == word[i]
}

/// The text is a floating-point literal that `f64`'s parser accepts.
pub open spec fn is_float_literal(s: Seq<char>) -> bool {
    let b = unsigned(s);
    ||| spells(b, seq!['i', 'n', 'f'])
    ||| spells(b, seq!['i', 'n', 'f', 'i', 'n', 'i', 't', 'y'])
    ||| spells(b, seq!['n', 'a', 'n'])
    ||| is_decimal_number(b)
}

/// A run of digits, an optional decimal point and more digits (with at least
/// one digit on either side) is a floating-point literal, and so is such a
/// number with an exponent `e` or `E`, an optional sign and digits.
pub proof fn lemma_decimal_literals(
    int_part: Seq<char>,
    fraction: Seq<char>,
    with_point: bool,
    exponent: Option<(char, Seq<char>)>,
)
    requires
        forall|i: int| 0 <= i < int_part.len() ==> is_ascii_digit(#[trigger] int_part[i]),
        forall|i: int| 0 <= i < fraction.len() ==> is_ascii_digit(#[trigger] fraction[i]),
        int_part.len() + fraction.len() > 0,
        !with_point ==> fraction.len() == 0,
        exponent matches Some((mark, digits)) ==> is_exponent_mark(mark) && digits.len() > 0
            && forall|i: int| 0 <= i < digits.len() ==> is_ascii_digit(#[trigger] digits[i]),
    ensures
        ({
            let m = if with_point {
                int_part + seq!['.'] + fraction
            } else {
                int_part
            };
            is_float_literal(
                match exponent {
                    Some((mark, digits)) => m + seq![mark] + digits,
                    None => m,
                },
            )
        }),
{
    let m = if with_point {
        int_part + seq!['.'] + fraction
    } else {
        int_part
    };
    assert forall|i: int| 0 <= i < m.len() implies is_ascii_digit(#[trigger] m[i]) || m[i] == '.' by {
        if with_point && i >= int_part.len() + 1 {
            assert(m[i] == fraction[i - int_part.len() - 1]);
        } else if i < int_part.len() {
            assert(m[i] == int_part[i]);
        }
    }
    assert forall|i: int, j: int|
        0 <= i < m.len() && 0 <= j < m.len() && #[trigger] m[i] == '.' && #[trigger] m[j] == '.'
            implies i == j by {
        if with_point {
            if i < int_part.len() {
                assert(m[i] == int_part[i]);
            } else if i > int_part.len() {
                assert(m[i] == fraction[i - int_part.len() - 1]);
            }
            if j < int_part.len() {
                assert(m[j] == int_part[j]);
            } else if j > int_part.len() {
                assert(m[j] == fraction[j - int_part.len() - 1]);
            }
        } else {
            assert(m[i] == int_part[i]);
        }
    }
    if int_part.len() > 0 {
        assert(m[0] == int_part[0]);
        assert(is_ascii_digit(m[0]));
    } else {
        assert(m[1] == fraction[0]);
        assert(is_ascii_digit(m[1]));
    }
    assert(is_mantissa(m));
    assert(m.len() > 0 && !is_sign(m[0]));
    match exponent {
        Some((mark, digits)) => {
            let t = m + seq![mark] + digits;
            assert(t.len() > 0 && !is_sign(t[0])) by {
                assert(t[0] == m[0]);
            }
            let k = m.len() as int;
            assert(t.take(k) =~= m);
            assert(t.skip(k + 1) =~= digits);
            assert(t[k] == mark);
            assert(unsigned(digits) == digits);
            assert(is_exponent(t.skip(k + 1)));
            assert(is_decimal_number(t));
        },
        None => {},
    }
}

/// A text that holds white space anywhere is not a floating-point literal.
pub proof fn lemma_white_space_is_no_literal(s: Seq<char>, w: int)
    requires
        0 <= w < s.len(),
        is_white_space(s[w]),
    ensures
        !is_float_literal(s),
{
    let b = unsigned(s);
    let v = if s.len() > 0 && is_sign(s[0]) { w - 1 } else { w };
    assert(!is_sign(s[w]));
    if s.len() > 0 && is_sign(s[0]) {
        assert(w > 0);
        assert(b[v] == s[w]);
    } else {
        assert(b[v] == s[w]);
    }
    let c = b[v];
    assert(ascii_lower(c) == c);
    assert(!spells(b, seq!['i', 'n', 'f'])) by {
        if spells(b, seq!['i', 'n', 'f']) {
            assert(ascii_lower(b[v]) == seq!['i', 'n', 'f'][v]);
        }
    }
    assert(!spells(b, seq!['i', 'n', 'f', 'i', 'n', 'i', 't', 'y'])) by {
        if spells(b, seq!['i', 'n', 'f', 'i', 'n', 'i', 't', 'y']) {
            assert(ascii_lower(b[v]) == seq!['i', 'n', 'f', 'i', 'n', 'i', 't', 'y'][v]);
        }
    }
    assert(!spells(b, seq!['n', 'a', 'n'])) by {
        if spells(b, seq!['n', 'a', 'n']) {
            assert(ascii_lower(b[v]) == seq!['n', 'a', 'n'][v]);
        }
    }
    assert(!is_mantissa(b)) by {
        assert(!(is_ascii_digit(b[v]) || b[v] == '.'));
    }
    assert forall|k: int|
        0 <= k < b.len() && is_exponent_mark(#[trigger] b[k]) && is_mantissa(b.take(k)) implies
        !is_exponent(b.skip(k + 1)) by {
        if v < k {
            assert(b.take(k)[v] == b[v]);
        } else if v > k {
            let x = b.skip(k + 1);
            let d = unsigned(x);
            assert(x[v - k - 1] == b[v]);
            if x.len() > 0 && is_sign(x[0]) {
                assert(v - k - 1 > 0);
                assert(d[v - k - 2] == b[v]);
            } else {
                assert(d[v - k - 1] == b[v]);
            }
        }
    }
}

fn digit(c: char) -> (r: bool)
    ensures
        r == is_ascii_digit(c),
{
    '0' <= c && c <= '9'
}

fn lower(c: char) -> (r: char)
    ensures
        r == ascii_lower(c),
{
    if 'A' <= c && c <= 'Z' {
        let b = (c as u8) + 32;
        b as char
    } else {
        c
    }
}


fn mantissa_in(v: &Vec<char>, lo: usize, hi: usize) -> (r: bool)
    requires
        lo <= hi <= v@.len(),
    ensures
        r == is_mantissa(v@.subrange(lo as int, hi as int)),
{
    let ghost m = v@.subrange(lo as int, hi as int);
    let mut seen_dot = false;
    let mut seen_digit = false;
    let mut i: usize = lo;
    while i < hi
        invariant
            lo <= i <= hi <= v@.len(),
            m == v@.subrange(lo as int, hi as int),
            forall|j: int| 0 <= j < i - lo ==> is_ascii_digit(#[trigger] m[j]) || m[j] == '.',
            forall|j: int, k: int|
                0 <= j < i - lo && 0 <= k < i - lo && #[trigger] m[j] == '.' && #[trigger] m[k]
                    == '.' ==> j == k,
            seen_dot <==> exists|j: int| 0 <= j < i - lo && #[trigger] m[j] == '.',
            seen_digit <==> exists|j: int| 0 <= j < i - lo && is_ascii_digit(#[trigger] m[j]),
        decreases hi - i,
    {
        let c = v[i];
        assert(m[i - lo] == c);
        if c == '.' {
            if seen_dot {
                let ghost j = choose|j: int| 0 <= j < i - lo && #[trigger] m[j] == '.';
                assert(m[j] == '.' && m[i - lo] == '.' && j != i - lo);
                return false;
            }
            seen_dot = true;
        } else if digit(c) {
            seen_digit = true;
        } else {
            assert(!(is_ascii_digit(m[i - lo]) || m[i - lo] == '.'));
            return false;
        }
        i = i + 1;
    }
    seen_digit
}

fn exponent_in(v: &Vec<char>, lo: usize, hi: usize) -> (r: bool)
    requires
        lo <= hi <= v@.len(),
    ensures
        r == is_exponent(v@.subrange(lo as int, hi as int)),
{
    let ghost x = v@.subrange(lo as int, hi as int);
    let mut i = lo;
    if i < hi && (v[i] == '+' || v[i] == '-') {
        i = i + 1;
    }
    let ghost d = v@.subrange(i as int, hi as int);
    assert(unsigned(x) == d);
    if i == hi {
        return false;
    }
    let start = i;
    while i < hi
        invariant
            lo <= start <= i <= hi <= v@.len(),
            d == v@.subrange(start as int, hi as int),
            unsigned(x) == d,
            x == v@.subrange(lo as int, hi as int),
            forall|j: int| 0 <= j < i - start ==> is_ascii_digit(#[trigger] d[j]),
        decreases hi - i,
    {
        let c = v[i];
        assert(d[i - start] == c);
        if !digit(c) {
            assert(!is_ascii_digit(d[i - start]));
            assert(!is_exponent(x));
            return false;
        }
        i = i + 1;
    }
    true
}

/// The first exponent mark at or after `lo`, or `hi` if there is none.
fn first_exponent_mark(v: &Vec<char>, lo: usize, hi: usize) -> (k: usize)
    requires
        lo <= hi <= v@.len(),
    ensures
        lo <= k <= hi,
        forall|j: int| lo <= j < k ==> !is_exponent_mark(#[trigger] v@[j]),
        k < hi ==> is_exponent_mark(v@[k as int]),
{
    let mut k = lo;
    while k < hi && !(v[k] == 'e' || v[k] == 'E')
        invariant
            lo <= k <= hi <= v@.len(),
            forall|j: int| lo <= j < k ==> !is_exponent_mark(#[trigger] v@[j]),
        decreases hi - k,
    {
        k = k + 1;
    }
    k
}

fn decimal_number_in(v: &Vec<char>, lo: usize, hi: usize) -> (r: bool)
    requires
        lo <= hi <= v@.len(),
    ensures
        r == is_decimal_number(v@.subrange(lo as int, hi as int)),
{
    let ghost b = v@.subrange(lo as int, hi as int);
    let k = first_exponent_mark(v, lo, hi);
    let ghost kk = k - lo;
    if k == hi {
        assert(b == v@.subrange(lo as int, k as int));
        assert forall|k2: int| 0 <= k2 < b.len() implies !is_exponent_mark(#[trigger] b[k2]) by {
            assert(b[k2] == v@[lo + k2]);
        }
        mantissa_in(v, lo, hi)
    } else {
        assert(is_exponent_mark(b[kk]));
        assert(!is_mantissa(b)) by {
            assert(!(is_ascii_digit(b[kk]) || b[kk] == '.'));
        }
        assert(b.take(kk) == v@.subrange(lo as int, k as int));
        assert(b.skip(kk + 1) == v@.subrange(k + 1, hi as int));
        assert forall|k2: int|
            0 <= k2 < b.len() && is_exponent_mark(#[trigger] b[k2]) && is_mantissa(b.take(k2))
                implies k2 == kk by {
            if k2 < kk {
                assert(b[k2] == v@[lo + k2]);
            } else if k2 > kk {
                let t = b.take(k2);
                assert(t[kk] == b[kk]);
                assert(!(is_ascii_digit(t[kk]) || t[kk] == '.'));
            }
        }
        mantissa_in(v, lo, k) && exponent_in(v, k + 1, hi)
    }
}


fn spells_in(v: &Vec<char>, lo: usize, hi: usize, word: &Vec<char>) -> (r: bool)
    requires
        lo <= hi <= v@.len(),
    ensures
        r == spells(v@.subrange(lo as int, hi as int), word@),
{
    let ghost s = v@.subrange(lo as int, hi as int);
    if hi - lo != word.len() {
        return false;
    }
    let mut i: usize = 0;
    while i < word.len()
        invariant
            lo <= hi <= v@.len(),
            hi - lo == word@.len(),
            s == v@.subrange(lo as int, hi as int),
            i <= word@.len(),
            forall|j: int| 0 <= j < i ==> ascii_lower(#[trigger] s[j]) == word@[j],
        decreases word@.len() - i,
    {
        assert(s[i as int] == v@[lo + i]);
        if lower(v[lo + i]) != word[i] {
            return false;
        }
        i = i + 1;
    }
    true
}

/// Decides whether a text is a floating-point literal that `f64`'s parser
/// accepts (see the module documentation for the grammar).
pub fn float_literal(s: &str) -> (r: bool)
    ensures
        r == is_float_literal(s@),
{
    let v = chars_of(s);
    let n = v.len();
    let lo: usize = if n > 0 && (v[0] == '+' || v[0] == '-') {
        1
    } else {
        0
    };
    assert(unsigned(s@) == v@.subrange(lo as int, n as int));
    let inf = chars_of("inf");
    let infinity = chars_of("infinity");
    let nan = chars_of("nan");
    proof {
        reveal_strlit("inf");
        reveal_strlit("infinity");
        reveal_strlit("nan");
    }
    assert(inf@ == seq!['i', 'n', 'f']);
    assert(infinity@ == seq!['i', 'n', 'f', 'i', 'n', 'i', 't', 'y']);
    assert(nan@ == seq!['n', 'a', 'n']);
    spells_in(&v, lo, n, &inf) || spells_in(&v, lo, n, &infinity) || spells_in(&v, lo, n, &nan)
        || decimal_number_in(&v, lo, n)
}


/// Decides whether a text spells the lowercase `word`, ignoring ASCII case.
pub fn spells_text(s: &str, word: &str) -> (r: bool)
    ensures
        r == spells(s@, word@),
{
    let v = chars_of(s);
    let w = chars_of(word);
    assert(v@.subrange(0, v@.len() as int) == v@);
    spells_in(&v, 0, v.len(), &w)
}

} // verus!
