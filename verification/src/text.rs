//! Character classes, decimal numbers, and the few string operations of the
//! standard library that the parsers rely on.

use vstd::prelude::*;
use vstd::std_specs::iter::IteratorSpec;

verus! {

// ---------------------------------------------------------------------------
// Character classes
// ---------------------------------------------------------------------------

/// `char::is_whitespace`: the Unicode `White_Space` property, which holds of
/// 25 code points: tab to carriage return, space, next line, no-break space,
/// the Ogham space mark, the en quad to the hair space, the line and
/// paragraph separators, the narrow no-break space, the medium mathematical
/// space and the ideographic space.
pub open spec fn unicode_white_space(c: char) -> bool {
    ('\u{9}' <= c && c <= '\u{d}') || c == ' ' || c == '\u{85}' || c == '\u{a0}' || c == '\u{1680}'
        || ('\u{2000}' <= c && c <= '\u{200a}') || c == '\u{2028}' || c == '\u{2029}' || c
        == '\u{202f}' || c == '\u{205f}' || c == '\u{3000}'
}

/// `char::is_alphanumeric`: the Unicode `Alphabetic` or `Numeric` property.
pub uninterp spec fn unicode_alphanumeric(c: char) -> bool;

/// Whether `c` has the Unicode `White_Space` property, as
/// `char::is_whitespace` tells it.
pub(crate) fn char_is_whitespace(c: char) -> (b: bool)
    ensures
        b == unicode_white_space(c),
{
    ('\u{9}' <= c && c <= '\u{d}') || c == ' ' || c == '\u{85}' || c == '\u{a0}' || c == '\u{1680}'
        || ('\u{2000}' <= c && c <= '\u{200a}') || c == '\u{2028}' || c == '\u{2029}' || c
        == '\u{202f}' || c == '\u{205f}' || c == '\u{3000}'
}

/// Calls `char::is_alphanumeric`. The Unicode `Alphabetic` and `Numeric`
/// tables of the standard library decide it; the contract names the result.
#[verifier::external_body]
pub(crate) fn char_is_alphanumeric(c: char) -> (b: bool)
    ensures
        b == unicode_alphanumeric(c),
{
    c.is_alphanumeric()
}

/// An ASCII decimal digit (`char::is_ascii_digit`).
pub open spec fn is_digit(c: char) -> bool {
    '0' <= c && c <= '9'
}

/// An ASCII letter (`char::is_ascii_alphabetic`).
pub open spec fn is_ascii_letter(c: char) -> bool {
    ('a' <= c && c <= 'z') || ('A' <= c && c <= 'Z')
}

pub fn ascii_digit(c: char) -> (b: bool)
    ensures
        b == is_digit(c),
{
    '0' <= c && c <= '9'
}

pub fn ascii_letter(c: char) -> (b: bool)
    ensures
        b == is_ascii_letter(c),
{
    ('a' <= c && c <= 'z') || ('A' <= c && c <= 'Z')
}

// ---------------------------------------------------------------------------
// Strings and character sequences
// ---------------------------------------------------------------------------

/// Collects the characters of `s` in order.
pub fn str_to_chars(s: &str) -> (chars: Vec<char>)
    ensures
        chars@ == s@,
{
    let mut chars: Vec<char> = Vec::new();
    for c in it: s.chars()
        invariant
            chars@ == it.seq().take(it.index() as int),
            it.seq() == s@,
    {
        chars.push(c);
    }
    chars
}

/// A new `String` holding the characters of `s`.
pub fn string_from_str(s: &str) -> (r: String)
    ensures
        r@ == s@,
{
    let mut r = String::new();
    for c in it: s.chars()
        invariant
            r@ == it.seq().take(it.index() as int),
            it.seq() == s@,
    {
        push_char(&mut r, c);
    }
    r
}

/// Calls `String::push`, which appends one character.
#[verifier::external_body]
pub(crate) fn push_char(s: &mut String, c: char)
    ensures
        final(s)@ == old(s)@.push(c),
{
    s.push(c);
}

/// Builds a `String` holding the characters of `chars[from..to]`.
pub fn chars_to_string(chars: &Vec<char>, from: usize, to: usize) -> (s: String)
    requires
        from <= to <= chars.len(),
    ensures
        s@ == chars@.subrange(from as int, to as int),
{
    let mut s = String::new();
    let mut i = from;
    while i < to
        invariant
            from <= i <= to <= chars.len(),
            s@ == chars@.subrange(from as int, i as int),
        decreases to - i,
    {
        push_char(&mut s, chars[i]);
        assert(chars@.subrange(from as int, i + 1) == chars@.subrange(from as int, i as int).push(
            chars@[i as int],
        ));
        i = i + 1;
    }
    s
}

/// `str::to_lowercase`: the Unicode lowercase mapping of a character sequence.
pub uninterp spec fn unicode_lowercase(s: Seq<char>) -> Seq<char>;

/// Calls `str::to_lowercase`. Its result follows the Unicode case tables of
/// the standard library, a function of the input alone; the contract names it.
#[verifier::external_body]
pub(crate) fn str_to_lowercase(s: &str) -> (r: String)
    ensures
        r@ == unicode_lowercase(s@),
{
    s.to_lowercase()
}

/// The characters of `s` with the first `from.len()`-long occurrence of `from`,
/// and each later one that does not overlap an earlier one, replaced by `to`.
pub open spec fn replace_all(s: Seq<char>, from: Seq<char>, to: Seq<char>) -> Seq<char>
    decreases s.len(),
{
    if from.len() == 0 || s.len() < from.len() {
        s
    } else if s.take(from.len() as int) == from {
        to + replace_all(s.skip(from.len() as int), from, to)
    } else {
        seq![s[0]] + replace_all(s.drop_first(), from, to)
    }
}

/// Calls `str::replace`, which replaces all non-overlapping matches of `from`,
/// scanning from the start, by `to`.
#[verifier::external_body]
pub(crate) fn str_replace(s: &str, from: &str, to: &str) -> (r: String)
    requires
        from@.len() > 0,
    ensures
        r@ == replace_all(s@, from@, to@),
{
    s.replace(from, to)
}

/// Whether two strings hold the same characters.
pub fn str_eq(a: &str, b: &str) -> (r: bool)
    ensures
        r == (a@ == b@),
{
    let x = str_to_chars(a);
    let y = str_to_chars(b);
    if x.len() != y.len() {
        return false;
    }
    let mut i: usize = 0;
    while i < x.len()
        invariant
            x@ == a@,
            y@ == b@,
            x.len() == y.len(),
            i <= x.len(),
            forall|k: int| 0 <= k < i ==> x@[k] == y@[k],
        decreases x.len() - i,
    {
        if x[i] != y[i] {
            return false;
        }
        i = i + 1;
    }
    assert(x@ =~= y@);
    true
}

/// Whether the character `c` occurs in `haystack`.
pub open spec fn contains_char(haystack: Seq<char>, c: char) -> bool {
    exists|i: int| 0 <= i < haystack.len() && haystack[i] == c
}

/// Whether the character `c` occurs in `s`.
pub fn str_contains_char(s: &str, c: char) -> (b: bool)
    ensures
        b == contains_char(s@, c),
{
    let chars = str_to_chars(s);
    let mut i: usize = 0;
    while i < chars.len()
        invariant
            chars@ == s@,
            i <= chars.len(),
            forall|k: int| 0 <= k < i ==> chars@[k] != c,
        decreases chars.len() - i,
    {
        if chars[i] == c {
            return true;
        }
        i = i + 1;
    }
    false
}

/// `str::split` on the character `sep`: the pieces between the occurrences of
/// `sep`, empty ones included, so that there is always one more piece than
/// there are separators.
pub open spec fn split_on(s: Seq<char>, sep: char) -> Seq<Seq<char>>
    decreases s.len(),
{
    if s.len() == 0 {
        seq![Seq::empty()]
    } else {
        let pieces = split_on(s.drop_last(), sep);
        if s.last() == sep {
            pieces.push(Seq::empty())
        } else {
            pieces.update(pieces.len() - 1, pieces.last().push(s.last()))
        }
    }
}

pub proof fn lemma_split_on_nonempty(s: Seq<char>, sep: char)
    ensures
        split_on(s, sep).len() >= 1,
    decreases s.len(),
{
    if s.len() > 0 {
        lemma_split_on_nonempty(s.drop_last(), sep);
    }
}

/// The views of a sequence of strings.
pub open spec fn views(v: Seq<String>) -> Seq<Seq<char>> {
    v.map_values(|x: String| x@)
}

/// Splits `s` at each `sep`, as `str::split` does.
pub fn split_str(s: &str, sep: char) -> (pieces: Vec<String>)
    ensures
        views(pieces@) == split_on(s@, sep),
{
    let chars = str_to_chars(s);
    let mut pieces: Vec<String> = Vec::new();
    let mut current = String::new();
    let mut i: usize = 0;
    assert(chars@.take(0) =~= Seq::<char>::empty());
    assert(views(pieces@).push(current@) =~= split_on(chars@.take(0), sep));
    while i < chars.len()
        invariant
            chars@ == s@,
            i <= chars.len(),
            views(pieces@).push(current@) == split_on(chars@.take(i as int), sep),
        decreases chars.len() - i,
    {
        let c = chars[i];
        let ghost before = views(pieces@);
        proof {
            assert(chars@.take(i + 1).drop_last() =~= chars@.take(i as int));
            lemma_split_on_nonempty(chars@.take(i as int), sep);
        }
        if c == sep {
            let done = current;
            pieces.push(done);
            current = String::new();
            assert(views(pieces@) =~= before.push(done@));
        } else {
            push_char(&mut current, c);
            assert(views(pieces@).push(current@) =~= before.push(current@));
        }
        i = i + 1;
    }
    assert(chars@.take(chars.len() as int) =~= chars@);
    pieces.push(current);
    assert(views(pieces@) =~= split_on(s@, sep));
    pieces
}

// ---------------------------------------------------------------------------
// Decimal numbers
// ---------------------------------------------------------------------------

/// The value of a decimal digit character.
pub open spec fn digit_value(c: char) -> int {
    c as int - '0' as int
}

/// The character of a decimal digit.
pub open spec fn digit_char(d: int) -> char {
    if d == 0 {
        '0'
    } else if d == 1 {
        '1'
    } else if d == 2 {
        '2'
    } else if d == 3 {
        '3'
    } else if d == 4 {
        '4'
    } else if d == 5 {
        '5'
    } else if d == 6 {
        '6'
    } else if d == 7 {
        '7'
    } else if d == 8 {
        '8'
    } else {
        '9'
    }
}

pub open spec fn all_digits(s: Seq<char>) -> bool {
    forall|i: int| 0 <= i < s.len() ==> #[trigger] is_digit(s[i])
}

/// The value of a run of decimal digits, most significant first.
pub open spec fn digits_value(s: Seq<char>) -> int
    decreases s.len(),
{
    if s.len() == 0 {
        0
    } else {
        digits_value(s.drop_last()) * 10 + digit_value(s.last())
    }
}

/// What `FromStr` for a primitive integer reads: an optional `+` or `-`
/// followed by one or more decimal digits; `None` for anything else.
pub open spec fn parse_integer(s: Seq<char>) -> Option<int> {
    if s.len() > 0 && (s[0] == '+' || s[0] == '-') {
        let rest = s.drop_first();
        if rest.len() > 0 && all_digits(rest) {
            if s[0] == '-' {
                Some(-digits_value(rest))
            } else {
                Some(digits_value(rest))
            }
        } else {
            None
        }
    } else if s.len() > 0 && all_digits(s) {
        Some(digits_value(s))
    } else {
        None
    }
}

/// `str::parse::<i64>`: the integer read, when it fits in an `i64`.
pub open spec fn parse_i64(s: Seq<char>) -> Option<i64> {
    match parse_integer(s) {
        Some(v) => if i64::MIN <= v <= i64::MAX {
            Some(v as i64)
        } else {
            None
        },
        None => None,
    }
}

/// `str::parse::<i32>`: the integer read, when it fits in an `i32`.
pub open spec fn parse_i32(s: Seq<char>) -> Option<i32> {
    match parse_integer(s) {
        Some(v) => if i32::MIN <= v <= i32::MAX {
            Some(v as i32)
        } else {
            None
        },
        None => None,
    }
}

/// Calls `str::parse::<i64>`; `None` where it returns an error.
#[verifier::external_body]
pub(crate) fn str_parse_i64(s: &str) -> (r: Option<i64>)
    ensures
        r == parse_i64(s@),
{
    s.parse::<i64>().ok()
}

/// Calls `str::parse::<i32>`; `None` where it returns an error.
#[verifier::external_body]
pub(crate) fn str_parse_i32(s: &str) -> (r: Option<i32>)
    ensures
        r == parse_i32(s@),
{
    s.parse::<i32>().ok()
}

/// The decimal digits of a natural number, without leading zeros.
pub open spec fn nat_digits(n: nat) -> Seq<char>
    decreases n,
{
    if n < 10 {
        seq![digit_char(n as int)]
    } else {
        nat_digits(n / 10).push(digit_char((n % 10) as int))
    }
}

/// How `Display` writes an integer: its decimal digits, after a `-` when it is
/// negative.
pub open spec fn decimal(x: int) -> Seq<char> {
    if x < 0 {
        seq!['-'] + nat_digits((-x) as nat)
    } else {
        nat_digits(x as nat)
    }
}

/// Calls `ToString::to_string` on an `i64`, whose `Display` writes it in
/// decimal: a `-` for a negative number, then its digits without leading
/// zeros.
#[verifier::external_body]
pub(crate) fn i64_to_string(x: i64) -> (s: String)
    ensures
        s@ == decimal(x as int),
{
    x.to_string()
}

proof fn lemma_digit_char(d: int)
    requires
        0 <= d < 10,
    ensures
        is_digit(digit_char(d)),
        digit_value(digit_char(d)) == d,
{
}

/// The digits of `n` read back give `n`.
pub proof fn lemma_nat_digits(n: nat)
    ensures
        nat_digits(n).len() > 0,
        all_digits(nat_digits(n)),
        digits_value(nat_digits(n)) == n,
    decreases n,
{
    if n < 10 {
        lemma_digit_char(n as int);
        assert(nat_digits(n).drop_last() =~= Seq::<char>::empty());
        assert(digits_value(nat_digits(n).drop_last()) == 0);
    } else {
        lemma_nat_digits(n / 10);
        lemma_digit_char((n % 10) as int);
        let s = nat_digits(n);
        assert(s.drop_last() =~= nat_digits(n / 10));
        assert forall|i: int| 0 <= i < s.len() implies #[trigger] is_digit(s[i]) by {
            if i < s.len() - 1 {
                assert(s[i] == nat_digits(n / 10)[i]);
            }
        }
        assert(s.last() == digit_char((n % 10) as int));
        assert(digits_value(s) == digits_value(nat_digits(n / 10)) * 10 + digit_value(s.last()));
        assert((n / 10) * 10 + n % 10 == n) by (nonlinear_arith);
    }
}

/// Parsing what `Display` writes for an `i64` gives back the same `i64`.
pub proof fn lemma_decimal_roundtrip(x: i64)
    ensures
        parse_i64(decimal(x as int)) == Some(x),
{
    if x < 0 {
        let n = (-x) as nat;
        lemma_nat_digits(n);
        let s = decimal(x as int);
        assert(s.drop_first() =~= nat_digits(n));
        assert(s[0] == '-');
    } else {
        lemma_nat_digits(x as nat);
        let s = decimal(x as int);
        assert(is_digit(s[0]));
    }
}

/// `s` left-padded with `'0'` to at least `width` characters.
pub open spec fn zero_pad(s: Seq<char>, width: nat) -> Seq<char> {
    if s.len() >= width {
        s
    } else {
        Seq::new((width - s.len()) as nat, |i: int| '0') + s
    }
}

} // verus!
