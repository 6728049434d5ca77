//! Character classes and small text transformations shared by the library.

use vstd::prelude::*;
use vstd::utf8::{decode_utf8, valid_utf8};

verus! {

/// Unicode `White_Space` property, the class that `char::is_whitespace` tests.
pub open spec fn is_white_space(c: char) -> bool {
    let u = c as u32;
    ||| 0x09 <= u <= 0x0D
    ||| u == 0x20
    ||| u == 0x85
    ||| u == 0xA0
    ||| u == 0x1680
    ||| 0x2000 <= u <= 0x200A
    ||| u == 0x2028
    ||| u == 0x2029
    ||| u == 0x202F
    ||| u == 0x205F
    ||| u == 0x3000
}

/// Tests a character for the Unicode `White_Space` property.
pub fn white_space(c: char) -> (r: bool)
    ensures
        r == is_white_space(c),
{
    let u = c as u32;
    (0x09 <= u && u <= 0x0D) || u == 0x20 || u == 0x85 || u == 0xA0 || u == 0x1680 || (0x2000
        <= u && u <= 0x200A) || u == 0x2028 || u == 0x2029 || u == 0x202F || u == 0x205F || u
        == 0x3000
}


/// The text with its leading white space removed.
pub open spec fn trimmed_start(s: Seq<char>) -> Seq<char>
    decreases s.len(),
{
    if s.len() > 0 && is_white_space(s[0]) {
        trimmed_start(s.drop_first())
    } else {
        s
    }
}

/// The text with its trailing white space removed.
pub open spec fn trimmed_end(s: Seq<char>) -> Seq<char>
    decreases s.len(),
{
    if s.len() > 0 && is_white_space(s.last()) {
        trimmed_end(s.drop_last())
    } else {
        s
    }
}

/// The text with white space removed at both ends, as `str::trim` does.
pub open spec fn trimmed(s: Seq<char>) -> Seq<char> {
    trimmed_end(trimmed_start(s))
}

proof fn lemma_trimmed_start(s: Seq<char>)
    ensures
        exists|a: int|
            0 <= a <= s.len() && trimmed_start(s) == s.skip(a) && (forall|i: int|
                0 <= i < a ==> is_white_space(#[trigger] s[i])) && (a < s.len() ==> !is_white_space(
                s[a],
            )),
    decreases s.len(),
{
    if s.len() > 0 && is_white_space(s[0]) {
        lemma_trimmed_start(s.drop_first());
        let a = choose|a: int|
            0 <= a <= s.drop_first().len() && trimmed_start(s.drop_first()) == s.drop_first().skip(a)
                && (forall|i: int| 0 <= i < a ==> is_white_space(#[trigger] s.drop_first()[i])) && (a
                < s.drop_first().len() ==> !is_white_space(s.drop_first()[a]));
        assert(s.drop_first().skip(a) =~= s.skip(a + 1));
        assert forall|i: int| 0 <= i < a + 1 implies is_white_space(#[trigger] s[i]) by {
            if i > 0 {
                assert(s[i] == s.drop_first()[i - 1]);
            }
        }
        if a + 1 < s.len() {
            assert(s[a + 1] == s.drop_first()[a]);
        }
    } else {
        assert(s.skip(0) =~= s);
    }
}

proof fn lemma_trimmed_end(s: Seq<char>)
    ensures
        exists|b: int|
            0 <= b <= s.len() && trimmed_end(s) == s.take(b) && (forall|i: int|
                b <= i < s.len() ==> is_white_space(#[trigger] s[i])) && (b > 0 ==> !is_white_space(
                s[b - 1],
            )),
    decreases s.len(),
{
    if s.len() > 0 && is_white_space(s.last()) {
        lemma_trimmed_end(s.drop_last());
        let b = choose|b: int|
            0 <= b <= s.drop_last().len() && trimmed_end(s.drop_last()) == s.drop_last().take(b)
                && (forall|i: int| b <= i < s.drop_last().len() ==> is_white_space(
                #[trigger] s.drop_last()[i],
            )) && (b > 0 ==> !is_white_space(s.drop_last()[b - 1]));
        assert(s.drop_last().take(b) =~= s.take(b));
        assert forall|i: int| b <= i < s.len() implies is_white_space(#[trigger] s[i]) by {
            if i < s.len() - 1 {
                assert(s[i] == s.drop_last()[i]);
            }
        }
        if b > 0 {
            assert(s[b - 1] == s.drop_last()[b - 1]);
        }
    } else {
        assert(s.take(s.len() as int) =~= s);
    }
}

/// Trimming keeps a stretch of the text, removes only white space around it,
/// and leaves no white space at either end.
pub proof fn lemma_trimmed_is_inner_stretch(s: Seq<char>)
    ensures
        exists|a: int, b: int|
            0 <= a <= b <= s.len() && trimmed(s) == s.subrange(a, b) && (forall|i: int|
                0 <= i < a ==> is_white_space(#[trigger] s[i])) && (forall|i: int|
                b <= i < s.len() ==> is_white_space(#[trigger] s[i])),
        trimmed(s).len() > 0 ==> !is_white_space(trimmed(s)[0]) && !is_white_space(
            trimmed(s).last(),
        ),
{
    lemma_trimmed_start(s);
    let a = choose|a: int|
        0 <= a <= s.len() && trimmed_start(s) == s.skip(a) && (forall|i: int|
            0 <= i < a ==> is_white_space(#[trigger] s[i])) && (a < s.len() ==> !is_white_space(
            s[a],
        ));
    let t = s.skip(a);
    lemma_trimmed_end(t);
    let b = choose|b: int|
        0 <= b <= t.len() && trimmed_end(t) == t.take(b) && (forall|i: int|
            b <= i < t.len() ==> is_white_space(#[trigger] t[i])) && (b > 0 ==> !is_white_space(
            t[b - 1],
        ));
    assert(t.take(b) =~= s.subrange(a, a + b));
    assert forall|i: int| a + b <= i < s.len() implies is_white_space(#[trigger] s[i]) by {
        assert(s[i] == t[i - a]);
    }
    if b > 0 {
        assert(trimmed(s)[0] == t[0]);
        assert(t[0] == s[a]);
    }
}

/// A text without white space at either end is left as it is.
pub proof fn lemma_trimmed_keeps_bare_text(s: Seq<char>)
    requires
        s.len() > 0 ==> !is_white_space(s[0]) && !is_white_space(s.last()),
    ensures
        trimmed(s) == s,
{
}

/// Removes the white space at both ends of a text.
pub fn trim_text(s: &str) -> (r: String)
    ensures
        r@ == trimmed(s@),
{
    let n = s.unicode_len();
    let mut i: usize = 0;
    assert(s@.skip(0) == s@);
    while i < n && white_space(s.get_char(i))
        invariant
            n == s@.len(),
            i <= n,
            trimmed_start(s@) == trimmed_start(s@.skip(i as int)),
        decreases n - i,
    {
        assert(s@.skip(i as int).drop_first() == s@.skip(i + 1));
        i = i + 1;
    }
    assert(trimmed_start(s@) == s@.skip(i as int));
    let mut j: usize = n;
    while j > i && white_space(s.get_char(j - 1))
        invariant
            n == s@.len(),
            i <= j <= n,
            trimmed(s@) == trimmed_end(s@.subrange(i as int, j as int)),
        decreases j,
    {
        assert(s@.subrange(i as int, j as int).drop_last() == s@.subrange(i as int, j - 1));
        j = j - 1;
    }
    assert(s@.subrange(i as int, n as int) == s@.skip(i as int));
    let t = s.substring_char(i, j);
    t.to_owned()
}


/// The characters of a text, one per element.
pub fn chars_of(s: &str) -> (v: Vec<char>)
    ensures
        v@ == s@,
{
    let n = s.unicode_len();
    let mut v: Vec<char> = Vec::new();
    let mut i: usize = 0;
    while i < n
        invariant
            n == s@.len(),
            i <= n,
            v@ == s@.take(i as int),
        decreases n - i,
    {
        v.push(s.get_char(i));
        assert(s@.take(i + 1) == s@.take(i as int).push(s@[i as int]));
        i = i + 1;
    }
    assert(s@.take(n as int) == s@);
    v
}


/// Calls `std::str::from_utf8`. Claims what its documentation says: it
/// succeeds exactly on valid UTF-8, and then yields the decoded characters.
#[verifier::external_body]
pub(crate) fn utf8_text(bytes: &[u8]) -> (r: Option<String>)
    ensures
        r is Some <==> valid_utf8(bytes@),
        r matches Some(t) ==> t@ == decode_utf8(bytes@),
{
    match std::str::from_utf8(bytes) {
        Ok(t) => Some(t.to_owned()),
        Err(_) => None,
    }
}


/// The decimal digit `d`.
pub open spec fn digit_char(d: nat) -> char {
    (48 + d) as char
}

/// The decimal notation of `n`, without sign or leading zeros.
pub open spec fn decimal(n: nat) -> Seq<char>
    decreases n,
{
    if n < 10 {
        seq![digit_char(n)]
    } else {
        decimal(n / 10).push(digit_char(n % 10))
    }
}

/// The decimal notation of a number.
pub fn decimal_text(n: usize) -> (r: String)
    ensures
        r@ == decimal(n as nat),
    decreases n,
{
    let d: u8 = (n % 10) as u8;
    let c: char = (48u8 + d) as char;
    assert(c == digit_char((n % 10) as nat));
    if n < 10 {
        char_text(c)
    } else {
        let r = decimal_text(n / 10).concat(char_text(c).as_str());
        assert(r@ =~= decimal((n / 10) as nat).push(c));
        r
    }
}

/// Calls `char::to_string`. Claims that the text is the character alone.
#[verifier::external_body]
pub(crate) fn char_text(c: char) -> (r: String)
    ensures
        r@ == seq![c],
{
    c.to_string()
}

} // verus!
