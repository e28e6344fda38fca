//! Text helpers: conversion between strings and character vectors, decimal
//! numbers, the grammar of numeric cells, joining, splitting and ordering.

use vstd::prelude::*;
use vstd::string::StringExecFns;

verus! {

/// Equality of string slices in std holds exactly when the two slices hold the
/// same characters. Verus has no specification for it, so it is given here
/// without proof.
pub assume_specification[ <str as PartialEq>::eq ](a: &str, b: &str) -> (r: bool)
    ensures
        r == (a@ == b@),
;

/// `String::push` of std appends one character to the string. The contract is
/// believed, not proved.
#[verifier::external_body]
pub(crate) fn push_char(s: &mut String, c: char)
    ensures
        final(s)@ == old(s)@.push(c),
{
    s.push(c)
}

/// The characters of a string slice, in order.
pub fn chars_of(s: &str) -> (v: Vec<char>)
    ensures
        v@ == s@,
{
    let mut v: Vec<char> = Vec::new();
    for c in it: s.chars()
        invariant
            it.seq() == s@,
            v@ =~= it.seq().take(it.index()),
    {
        v.push(c);
    }
    v
}

/// The string made of the given characters, in order.
pub fn text_of(v: &Vec<char>) -> (s: String)
    ensures
        s@ == v@,
{
    let mut s = String::new();
    let mut i: usize = 0;
    while i < v.len()
        invariant
            i <= v.len(),
            s@ =~= v@.take(i as int),
        decreases v.len() - i,
    {
        push_char(&mut s, v[i]);
        i += 1;
    }
    s
}

/// Whether two string slices hold the same characters.
pub fn same_text(a: &str, b: &str) -> (r: bool)
    ensures
        r == (a@ == b@),
{
    *a == *b
}

/// An owned copy of a string slice.
pub fn owned(s: &str) -> (r: String)
    ensures
        r@ == s@,
{
    s.to_owned()
}

/// The views of a sequence of strings.
pub open spec fn texts(v: Seq<String>) -> Seq<Seq<char>> {
    Seq::new(v.len(), |i: int| v[i]@)
}

/// Whether two vectors of strings hold the same texts in the same order.
pub fn same_texts(a: &Vec<String>, b: &Vec<String>) -> (r: bool)
    ensures
        r == (texts(a@) == texts(b@)),
{
    if a.len() != b.len() {
        assert(texts(a@).len() != texts(b@).len());
        return false;
    }
    let mut i: usize = 0;
    while i < a.len()
        invariant
            i <= a.len(),
            a.len() == b.len(),
            forall|k: int| 0 <= k < i ==> a@[k]@ == b@[k]@,
        decreases a.len() - i,
    {
        if !same_text(a[i].as_str(), b[i].as_str()) {
            assert(texts(a@)[i as int] != texts(b@)[i as int]);
            return false;
        }
        i += 1;
    }
    assert(texts(a@) =~= texts(b@));
    true
}

/// Whether `c` is one of the ten ASCII decimal digits.
pub open spec fn is_digit(c: char) -> bool {
    48 <= c as u32 <= 57
}

/// The value of an ASCII decimal digit.
pub open spec fn digit_value(c: char) -> nat {
    (c as u32 - 48) as nat
}

/// Whether every character of `s` is a decimal digit.
pub open spec fn all_digits(s: Seq<char>) -> bool {
    forall|i: int| 0 <= i < s.len() ==> is_digit(#[trigger] s[i])
}

/// The number that a run of decimal digits denotes; the empty run denotes 0.
pub open spec fn decimal_value(s: Seq<char>) -> nat
    decreases s.len(),
{
    if s.len() == 0 {
        0
    } else {
        decimal_value(s.drop_last()) * 10 + digit_value(s.last())
    }
}

/// The digits of an unsigned decimal: the text without an optional leading `+`.
pub open spec fn unsigned_digits(s: Seq<char>) -> Seq<char> {
    if s.len() > 0 && s[0] == '+' {
        s.skip(1)
    } else {
        s
    }
}

/// What an unsigned decimal text denotes, if it is an optional `+` followed by
/// at least one digit and its value is at most `max`.
pub open spec fn parse_unsigned(s: Seq<char>, max: nat) -> Option<nat> {
    let body = unsigned_digits(s);
    if body.len() > 0 && all_digits(body) && decimal_value(body) <= max {
        Some(decimal_value(body))
    } else {
        None
    }
}

/// A prefix of a digit run never denotes more than a longer prefix.
pub proof fn lemma_decimal_prefix_le(s: Seq<char>, i: int, j: int)
    requires
        0 <= i <= j <= s.len(),
    ensures
        decimal_value(s.take(i)) <= decimal_value(s.take(j)),
    decreases j - i,
{
    if i < j {
        lemma_decimal_prefix_le(s, i, j - 1);
        assert(s.take(j).drop_last() =~= s.take(j - 1));
    }
}

/// The value of the digits of `v` from index `start` on, if there is at
/// least one character there, all of them are digits, and the value is at
/// most `limit`.
fn parse_digits(v: &Vec<char>, start: usize, limit: u64) -> (r: Option<u64>)
    requires
        start <= v.len(),
    ensures
        match r {
            Some(n) => {
                &&& v@.skip(start as int).len() > 0
                &&& all_digits(v@.skip(start as int))
                &&& decimal_value(v@.skip(start as int)) == n
                &&& n <= limit
            },
            None => !(v@.skip(start as int).len() > 0 && all_digits(v@.skip(start as int))
                && decimal_value(v@.skip(start as int)) <= limit),
        },
{
    let ghost body = v@.skip(start as int);
    if start == v.len() {
        return None;
    }
    let mut acc: u64 = 0;
    let mut i: usize = start;
    while i < v.len()
        invariant
            start <= i <= v.len(),
            body == v@.skip(start as int),
            all_digits(body.take(i - start)),
            acc as nat == decimal_value(body.take(i - start)),
            acc <= limit,
        decreases v.len() - i,
    {
        let c: u32 = v[i] as u32;
        let ghost k = i - start;
        assert(body[k] == v@[i as int]);
        if c < 48 || c > 57 {
            return None;
        }
        let d: u64 = (c - 48) as u64;
        assert(body.take(k + 1).drop_last() =~= body.take(k));
        if d > limit || acc > (limit - d) / 10 {
            proof {
                lemma_decimal_prefix_le(body, k + 1, body.len() as int);
                assert(body.take(body.len() as int) =~= body);
            }
            return None;
        }
        acc = acc * 10 + d;
        i += 1;
    }
    assert(body.take(i - start) =~= body);
    Some(acc)
}

/// Parses an unsigned decimal that fits in 64 bits.
pub fn parse_u64(s: &str) -> (r: Option<u64>)
    ensures
        match r {
            Some(n) => parse_unsigned(s@, u64::MAX as nat) == Some(n as nat),
            None => parse_unsigned(s@, u64::MAX as nat) is None,
        },
{
    let v = chars_of(s);
    let start: usize = if v.len() > 0 && v[0] == '+' { 1 } else { 0 };
    assert(unsigned_digits(s@) =~= v@.skip(start as int));
    parse_digits(&v, start, u64::MAX)
}

/// What a signed decimal text denotes, if it is an optional `+` or `-`
/// followed by at least one digit and its value lies from `min` to `max`.
pub open spec fn parse_signed(s: Seq<char>, min: int, max: int) -> Option<int> {
    let negative = s.len() > 0 && s[0] == '-';
    let body = if negative {
        s.skip(1)
    } else {
        unsigned_digits(s)
    };
    let value = if negative {
        -(decimal_value(body) as int)
    } else {
        decimal_value(body) as int
    };
    if body.len() > 0 && all_digits(body) && min <= value <= max {
        Some(value)
    } else {
        None
    }
}

/// Parses a signed decimal that fits in 64 bits.
pub fn parse_i64(s: &str) -> (r: Option<i64>)
    ensures
        match r {
            Some(n) => parse_signed(s@, i64::MIN as int, i64::MAX as int) == Some(n as int),
            None => parse_signed(s@, i64::MIN as int, i64::MAX as int) is None,
        },
{
    let v = chars_of(s);
    let negative = v.len() > 0 && v[0] == '-';
    let start: usize = if v.len() > 0 && (v[0] == '-' || v[0] == '+') { 1 } else { 0 };
    assert(v@.skip(start as int) =~= if negative { s@.skip(1) } else { unsigned_digits(s@) });
    // The magnitude of the least 64-bit value is one more than that of the greatest.
    let limit: u64 = if negative { 9_223_372_036_854_775_808 } else { 9_223_372_036_854_775_807 };
    match parse_digits(&v, start, limit) {
        None => None,
        Some(magnitude) => {
            if !negative {
                Some(magnitude as i64)
            } else if magnitude == 9_223_372_036_854_775_808 {
                Some(i64::MIN)
            } else {
                Some(-(magnitude as i64))
            }
        },
    }
}

/// The index after the longest run of digits of `s` that starts at `from`.
pub open spec fn digit_run(s: Seq<char>, from: int) -> int
    decreases s.len() - from,
{
    if 0 <= from < s.len() && is_digit(s[from]) {
        digit_run(s, from + 1)
    } else {
        from
    }
}

/// The lower-case form of an ASCII letter; any other character is unchanged.
pub open spec fn ascii_lower(c: char) -> u32 {
    if 65 <= c as u32 <= 90 {
        (c as u32 + 32) as u32
    } else {
        c as u32
    }
}

/// Whether `s` from index `from` to its end is `word`, letter case aside.
/// `word` is taken to be in lower case.
pub open spec fn rest_is_word(s: Seq<char>, from: int, word: Seq<char>) -> bool {
    &&& s.len() - from == word.len()
    &&& forall|i: int| 0 <= i < word.len() ==> ascii_lower(#[trigger] s[from + i]) == word[i] as u32
}

/// Whether `s` from index `from` to its end names an infinity or a
/// not-a-number: `inf`, `infinity` or `nan`, letter case aside.
pub open spec fn is_special_number(s: Seq<char>, from: int) -> bool {
    rest_is_word(s, from, "inf"@) || rest_is_word(s, from, "infinity"@) || rest_is_word(
        s,
        from,
        "nan"@,
    )
}

/// Whether `s` from index `at` to its end is an exponent: `e` or `E`, an
/// optional sign, and at least one digit.
pub open spec fn is_exponent(s: Seq<char>, at: int) -> bool {
    &&& 0 <= at < s.len()
    &&& (s[at] == 'e' || s[at] == 'E')
    &&& {
        let digits = if at + 1 < s.len() && (s[at + 1] == '+' || s[at + 1] == '-') {
            at + 2
        } else {
            at + 1
        };
        digits < digit_run(s, digits) && digit_run(s, digits) == s.len()
    }
}

/// Whether `s` from index `from` to its end is a decimal number: digits with
/// at most one point among them, at least one digit in all, and an optional
/// exponent.
pub open spec fn is_decimal_number(s: Seq<char>, from: int) -> bool {
    let whole_end = digit_run(s, from);
    let has_point = whole_end < s.len() && s[whole_end] == '.';
    let mantissa_end = if has_point {
        digit_run(s, whole_end + 1)
    } else {
        whole_end
    };
    let digits = if has_point {
        mantissa_end - from - 1
    } else {
        mantissa_end - from
    };
    digits >= 1 && (mantissa_end == s.len() || is_exponent(s, mantissa_end))
}

/// Whether a text is a number in the notation that std reads as a binary
/// floating-point value: an optional sign, followed by `inf`, `infinity`,
/// `nan` (in any letter case) or by a decimal number with an optional
/// exponent.
pub open spec fn is_numeric(s: Seq<char>) -> bool {
    let from: int = if s.len() > 0 && (s[0] == '+' || s[0] == '-') {
        1
    } else {
        0
    };
    is_special_number(s, from) || is_decimal_number(s, from)
}

/// The end of the run of digits that starts at `from`.
fn scan_digits(v: &Vec<char>, from: usize) -> (end: usize)
    requires
        from <= v.len(),
    ensures
        end == digit_run(v@, from as int),
        from <= end <= v.len(),
{
    let mut i: usize = from;
    while i < v.len() && 48 <= v[i] as u32 && v[i] as u32 <= 57
        invariant
            from <= i <= v.len(),
            digit_run(v@, from as int) == digit_run(v@, i as int),
        decreases v.len() - i,
    {
        i += 1;
    }
    i
}

/// Whether the characters from `from` on spell `word`, letter case aside.
fn rest_matches(v: &Vec<char>, from: usize, word: &str) -> (r: bool)
    requires
        from <= v.len(),
    ensures
        r == rest_is_word(v@, from as int, word@),
{
    let w = chars_of(word);
    if v.len() - from != w.len() {
        return false;
    }
    let mut i: usize = 0;
    while i < w.len()
        invariant
            i <= w.len(),
            from + w.len() == v.len(),
            w@ == word@,
            forall|k: int| 0 <= k < i ==> ascii_lower(#[trigger] v@[from + k]) == w@[k] as u32,
        decreases w.len() - i,
    {
        let c: u32 = v[from + i] as u32;
        let low: u32 = if 65 <= c && c <= 90 { c + 32 } else { c };
        if low != w[i] as u32 {
            assert(ascii_lower(v@[from + i]) != word@[i as int] as u32);
            return false;
        }
        i += 1;
    }
    true
}

/// Whether the characters from `at` on are an exponent.
fn exponent_follows(v: &Vec<char>, at: usize) -> (r: bool)
    requires
        at < v.len(),
    ensures
        r == is_exponent(v@, at as int),
{
    if v[at] != 'e' && v[at] != 'E' {
        return false;
    }
    let digits: usize = if at + 1 < v.len() && (v[at + 1] == '+' || v[at + 1] == '-') {
        at + 2
    } else {
        at + 1
    };
    let end = scan_digits(v, digits);
    digits < end && end == v.len()
}

/// Whether a text is a number in the notation of numeric cells.
pub fn is_numeric_text(s: &str) -> (r: bool)
    ensures
        r == is_numeric(s@),
{
    let v = chars_of(s);
    let from: usize = if v.len() > 0 && (v[0] == '+' || v[0] == '-') { 1 } else { 0 };
    if rest_matches(&v, from, "inf") || rest_matches(&v, from, "infinity") || rest_matches(
        &v,
        from,
        "nan",
    ) {
        return true;
    }
    let whole_end = scan_digits(&v, from);
    let has_point = whole_end < v.len() && v[whole_end] == '.';
    let mantissa_end: usize = if has_point {
        scan_digits(&v, whole_end + 1)
    } else {
        whole_end
    };
    let digits: usize = if has_point {
        mantissa_end - from - 1
    } else {
        mantissa_end - from
    };
    if digits < 1 {
        return false;
    }
    if mantissa_end == v.len() {
        return true;
    }
    exponent_follows(&v, mantissa_end)
}

/// Whether `needle` occurs in `hay` at index `at`.
pub open spec fn occurs_at(hay: Seq<char>, needle: Seq<char>, at: int) -> bool {
    &&& 0 <= at <= hay.len() - needle.len()
    &&& hay.subrange(at, at + needle.len()) == needle
}

/// Whether `needle` occurs somewhere in `hay`.
pub open spec fn has_infix(hay: Seq<char>, needle: Seq<char>) -> bool {
    exists|at: int| occurs_at(hay, needle, at)
}

/// Whether `needle` occurs in `hay` at index `at`.
fn matches_at(hay: &Vec<char>, needle: &Vec<char>, at: usize) -> (r: bool)
    requires
        at + needle.len() <= hay.len(),
    ensures
        r == occurs_at(hay@, needle@, at as int),
{
    let mut k: usize = 0;
    while k < needle.len()
        invariant
            k <= needle.len(),
            at + needle.len() <= hay.len(),
            forall|j: int| 0 <= j < k ==> hay@[at + j] == needle@[j],
        decreases needle.len() - k,
    {
        if hay[at + k] != needle[k] {
            assert(hay@.subrange(at as int, at + needle.len())[k as int] != needle@[k as int]);
            return false;
        }
        k += 1;
    }
    assert(hay@.subrange(at as int, at + needle.len()) =~= needle@);
    true
}

/// Whether `needle` occurs somewhere in `hay`.
pub fn contains_text(hay: &str, needle: &str) -> (r: bool)
    ensures
        r == has_infix(hay@, needle@),
{
    let h = chars_of(hay);
    let n = chars_of(needle);
    if n.len() > h.len() {
        return false;
    }
    if n.len() == 0 {
        assert(h@.subrange(0, 0) =~= n@);
        assert(occurs_at(h@, n@, 0));
        return true;
    }
    let last: usize = h.len() - n.len();
    let mut at: usize = 0;
    while at <= last
        invariant
            at <= last + 1,
            last == h.len() - n.len(),
            last < h.len(),
            h@ == hay@,
            n@ == needle@,
            forall|j: int| 0 <= j < at ==> !occurs_at(h@, n@, j),
        decreases last + 1 - at,
    {
        if matches_at(&h, &n, at) {
            return true;
        }
        at += 1;
    }
    false
}

/// The parts written one after another with `sep` between neighbours.
pub open spec fn joined(parts: Seq<Seq<char>>, sep: Seq<char>) -> Seq<char>
    decreases parts.len(),
{
    if parts.len() == 0 {
        Seq::empty()
    } else if parts.len() == 1 {
        parts[0]
    } else {
        joined(parts.drop_last(), sep) + sep + parts.last()
    }
}

/// Writes the parts one after another with `sep` between neighbours.
pub fn join(parts: &Vec<String>, sep: &str) -> (r: String)
    ensures
        r@ == joined(texts(parts@), sep@),
{
    let mut r = String::new();
    let mut i: usize = 0;
    assert(texts(parts@).take(0) =~= Seq::empty());
    while i < parts.len()
        invariant
            i <= parts.len(),
            r@ == joined(texts(parts@).take(i as int), sep@),
        decreases parts.len() - i,
    {
        let ghost prefix = texts(parts@).take(i + 1);
        assert(prefix.drop_last() =~= texts(parts@).take(i as int));
        assert(prefix.last() == parts@[i as int]@);
        if i > 0 {
            r.append(sep);
        } else {
            assert(r@ + parts@[i as int]@ =~= parts@[i as int]@);
        }
        r.append(parts[i].as_str());
        i += 1;
    }
    assert(texts(parts@).take(i as int) =~= texts(parts@));
    r
}

/// The character of a decimal digit.
pub open spec fn digit_char(d: nat) -> char {
    ((48 + d) as u8) as char
}

/// A number in decimal notation, without a sign or leading zeros.
pub open spec fn decimal_text(n: nat) -> Seq<char>
    decreases n,
{
    if n < 10 {
        seq![digit_char(n)]
    } else {
        decimal_text(n / 10).push(digit_char(n % 10))
    }
}

/// The decimal notation of a number is a run of digits that denotes it, and
/// it parses back to the number under any bound that admits it.
pub proof fn lemma_decimal_text(n: nat)
    ensures
        decimal_text(n).len() > 0,
        all_digits(decimal_text(n)),
        decimal_value(decimal_text(n)) == n,
        unsigned_digits(decimal_text(n)) == decimal_text(n),
        forall|max: nat| n <= max ==> parse_unsigned(decimal_text(n), max) == Some(n),
    decreases n,
{
    if n < 10 {
        let t = decimal_text(n);
        assert(t.drop_last() =~= Seq::<char>::empty());
        assert(decimal_value(t.drop_last()) == 0);
        assert(t.last() == digit_char(n));
        assert(decimal_value(t) == n);
    } else {
        lemma_decimal_text(n / 10);
        let t = decimal_text(n);
        assert(t.drop_last() =~= decimal_text(n / 10));
        assert(t.last() == digit_char(n % 10));
        assert(t[0] == decimal_text(n / 10)[0]);
    }
    assert(decimal_text(n)[0] != '+');
}

/// Writes a number in decimal notation.
pub fn format_decimal(n: u64) -> (r: String)
    ensures
        r@ == decimal_text(n as nat),
{
    // The digits are taken from the low end, so they are gathered in reverse.
    let mut reversed: Vec<char> = Vec::new();
    let mut rest: u64 = n;
    while rest >= 10
        invariant
            decimal_text(n as nat) == decimal_text(rest as nat) + reversed@.reverse(),
        decreases rest,
    {
        let d: u8 = (rest % 10) as u8;
        let ghost before = reversed@;
        reversed.push((48 + d) as char);
        assert(reversed@.reverse() =~= seq![digit_char((rest % 10) as nat)] + before.reverse());
        assert(decimal_text(rest as nat) + before.reverse() =~= decimal_text((rest / 10) as nat)
            + reversed@.reverse());
        rest = rest / 10;
    }
    let ghost before = reversed@;
    reversed.push((48 + (rest as u8)) as char);
    assert(reversed@.reverse() =~= decimal_text(rest as nat) + before.reverse());
    let mut r = String::new();
    let mut i: usize = reversed.len();
    while i > 0
        invariant
            i <= reversed@.len(),
            r@ == reversed@.reverse().take(reversed@.len() - i),
        decreases i,
    {
        i -= 1;
        push_char(&mut r, reversed[i]);
        assert(r@ =~= reversed@.reverse().take(reversed@.len() - i));
    }
    assert(reversed@.reverse().take(reversed@.len() as int) =~= reversed@.reverse());
    r
}

/// The empty text is no number.
pub proof fn lemma_empty_not_numeric()
    ensures
        !is_numeric(Seq::<char>::empty()),
        parse_unsigned(Seq::<char>::empty(), usize::MAX as nat) is None,
{
    reveal_strlit("inf");
    reveal_strlit("infinity");
    reveal_strlit("nan");
    let s = Seq::<char>::empty();
    assert(digit_run(s, 0) == 0);
}

/// Whether `c` is white space as Unicode defines it.
pub open spec fn is_space(c: char) -> bool {
    let n = c as u32;
    ||| 0x09 <= n <= 0x0D
    ||| n == 0x20
    ||| n == 0x85
    ||| n == 0xA0
    ||| n == 0x1680
    ||| 0x2000 <= n <= 0x200A
    ||| n == 0x2028
    ||| n == 0x2029
    ||| n == 0x202F
    ||| n == 0x205F
    ||| n == 0x3000
}

/// Whether `c` is white space.
fn is_space_char(c: char) -> (r: bool)
    ensures
        r == is_space(c),
{
    let n: u32 = c as u32;
    (0x09 <= n && n <= 0x0D) || n == 0x20 || n == 0x85 || n == 0xA0 || n == 0x1680 || (0x2000 <= n
        && n <= 0x200A) || n == 0x2028 || n == 0x2029 || n == 0x202F || n == 0x205F || n == 0x3000
}

/// The index after the run of white space of `s` that starts at `from` and
/// ends before `to`.
pub open spec fn space_run(s: Seq<char>, from: int, to: int) -> int
    decreases to - from,
{
    if 0 <= from < to <= s.len() && is_space(s[from]) {
        space_run(s, from + 1, to)
    } else {
        from
    }
}

/// The index at which the run of white space of `s` that ends before `to`
/// starts, looking back no further than `from`.
pub open spec fn space_run_back(s: Seq<char>, from: int, to: int) -> int
    decreases to - from,
{
    if 0 <= from < to <= s.len() && is_space(s[to - 1]) {
        space_run_back(s, from, to - 1)
    } else {
        to
    }
}

/// The part of `s` from `from` to `to` without the white space at its ends.
pub open spec fn trimmed_part(s: Seq<char>, from: int, to: int) -> Seq<char> {
    let a = space_run(s, from, to);
    let b = space_run_back(s, a, to);
    s.subrange(a, b)
}

/// The index of the first comma of `s` at or after `from`, or the length of
/// `s` where there is none.
pub open spec fn first_comma(s: Seq<char>, from: int) -> int
    decreases s.len() - from,
{
    if 0 <= from < s.len() && s[from] != ',' {
        first_comma(s, from + 1)
    } else {
        from
    }
}

/// The names listed in `s` from index `from` on: the parts between commas,
/// each without the white space at its ends, leaving out the empty ones.
pub open spec fn listed_names(s: Seq<char>, from: int) -> Seq<Seq<char>>
    decreases s.len() - from,
{
    if 0 <= from <= s.len() {
        let comma = first_comma(s, from);
        let name = trimmed_part(s, from, comma);
        let rest = if from <= comma < s.len() {
            listed_names(s, comma + 1)
        } else {
            Seq::empty()
        };
        if name.len() > 0 {
            seq![name] + rest
        } else {
            rest
        }
    } else {
        Seq::empty()
    }
}

/// The names listed in a text, separated by commas.
pub fn split_names(s: &str) -> (names: Vec<String>)
    ensures
        texts(names@) == listed_names(s@, 0),
{
    let v = chars_of(s);
    let mut names: Vec<String> = Vec::new();
    let mut from: usize = 0;
    let mut done: bool = false;
    assert(texts(names@) =~= Seq::empty());
    while !done
        invariant
            v@ == s@,
            from <= v@.len(),
            !done ==> listed_names(s@, 0) == texts(names@) + listed_names(s@, from as int),
            done ==> listed_names(s@, 0) == texts(names@),
        decreases v@.len() - from + (if done { 0int } else { 1int }),
    {
        let ghost before = texts(names@);
        // The comma that ends this part, or the end of the text.
        let mut comma: usize = from;
        while comma < v.len() && v[comma] != ','
            invariant
                from <= comma <= v@.len(),
                first_comma(v@, from as int) == first_comma(v@, comma as int),
            decreases v@.len() - comma,
        {
            comma += 1;
        }
        let mut a: usize = from;
        while a < comma && is_space_char(v[a])
            invariant
                from <= a <= comma <= v@.len(),
                space_run(v@, from as int, comma as int) == space_run(v@, a as int, comma as int),
            decreases comma - a,
        {
            a += 1;
        }
        let mut b: usize = comma;
        while a < b && is_space_char(v[b - 1])
            invariant
                a <= b <= comma <= v@.len(),
                space_run_back(v@, a as int, comma as int) == space_run_back(v@, a as int, b as int),
            decreases b - a,
        {
            b -= 1;
        }
        if a < b {
            let mut name = String::new();
            let mut k: usize = a;
            while k < b
                invariant
                    a <= k <= b <= v@.len(),
                    name@ == v@.subrange(a as int, k as int),
                decreases b - k,
            {
                push_char(&mut name, v[k]);
                assert(name@ =~= v@.subrange(a as int, k + 1));
                k += 1;
            }
            names.push(name);
            assert(texts(names@) =~= before.push(v@.subrange(a as int, b as int)));
            assert(before.push(v@.subrange(a as int, b as int)) =~= before + seq![
                v@.subrange(a as int, b as int),
            ]);
        }
        if comma < v.len() {
            assert(before + (seq![trimmed_part(s@, from as int, comma as int)] + listed_names(
                s@,
                comma + 1,
            )) =~= before + seq![trimmed_part(s@, from as int, comma as int)] + listed_names(
                s@,
                comma + 1,
            ));
            from = comma + 1;
        } else {
            assert(before + Seq::<Seq<char>>::empty() =~= before);
            assert(texts(names@) + Seq::<Seq<char>>::empty() =~= texts(names@));
            done = true;
        }
    }
    names
}

/// Whether `a` comes before `b` in the order of strings, comparing from index
/// `i` on: character by character, by code point, a proper prefix first.
pub open spec fn text_lt_from(a: Seq<char>, b: Seq<char>, i: int) -> bool
    decreases b.len() - i,
{
    if i < 0 || i >= b.len() {
        false
    } else if i >= a.len() {
        true
    } else if a[i] != b[i] {
        (a[i] as int) < (b[i] as int)
    } else {
        text_lt_from(a, b, i + 1)
    }
}

/// Whether `a` comes before `b` in the order of strings.
pub open spec fn text_lt(a: Seq<char>, b: Seq<char>) -> bool {
    text_lt_from(a, b, 0)
}

/// Whether `a` comes before `b` in the order of strings.
pub fn text_before(a: &str, b: &str) -> (r: bool)
    ensures
        r == text_lt(a@, b@),
{
    let x = chars_of(a);
    let y = chars_of(b);
    let mut i: usize = 0;
    while i < y.len()
        invariant
            i <= y@.len(),
            x@ == a@,
            y@ == b@,
            text_lt(a@, b@) == text_lt_from(a@, b@, i as int),
        decreases y@.len() - i,
    {
        if i >= x.len() {
            return true;
        }
        if x[i] != y[i] {
            return x[i] < y[i];
        }
        i += 1;
    }
    false
}

/// A whole number in decimal notation: a `-` before the digits of a negative
/// number, no sign otherwise.
pub open spec fn signed_text(n: int) -> Seq<char> {
    if n < 0 {
        seq!['-'] + decimal_text((-n) as nat)
    } else {
        decimal_text(n as nat)
    }
}

/// Writes a whole number in decimal notation.
pub fn format_signed(n: i64) -> (r: String)
    ensures
        r@ == signed_text(n as int),
{
    if n >= 0 {
        format_decimal(n as u64)
    } else {
        // The magnitude of the least value does not fit the signed type.
        let magnitude: u64 = if n == i64::MIN {
            9_223_372_036_854_775_808
        } else {
            (-n) as u64
        };
        let digits = format_decimal(magnitude);
        let mut r = String::new();
        push_char(&mut r, '-');
        r.append(digits.as_str());
        assert(r@ =~= seq!['-'] + decimal_text((-n) as nat));
        r
    }
}

/// The order of strings is transitive.
pub proof fn lemma_text_lt_transitive(a: Seq<char>, b: Seq<char>, c: Seq<char>, i: int)
    requires
        0 <= i,
        text_lt_from(a, b, i),
        text_lt_from(b, c, i),
    ensures
        text_lt_from(a, c, i),
    decreases c.len() - i,
{
    if i < a.len() && a[i] == b[i] && b[i] == c[i] {
        lemma_text_lt_transitive(a, b, c, i + 1);
    }
}

/// Of two strings that differ from some index on, one comes before the other.
pub proof fn lemma_text_lt_total(a: Seq<char>, b: Seq<char>, i: int)
    requires
        0 <= i <= a.len(),
        i <= b.len(),
        !text_lt_from(a, b, i),
        !text_lt_from(b, a, i),
    ensures
        a.skip(i) == b.skip(i),
    decreases a.len() - i,
{
    if i < a.len() {
        // `b` reaches index `i` too, or it would come first.
        assert(i < b.len());
        if a[i] != b[i] {
            assert((a[i] as int) < (b[i] as int) || (b[i] as int) < (a[i] as int));
        }
        assert(a[i] == b[i]);
        lemma_text_lt_total(a, b, i + 1);
        assert(a.skip(i) =~= seq![a[i]] + a.skip(i + 1));
        assert(b.skip(i) =~= seq![b[i]] + b.skip(i + 1));
    } else {
        assert(i == b.len());
        assert(a.skip(i) =~= b.skip(i));
    }
}

/// What is not before a string that is not before `s` is not before `s`.
pub proof fn lemma_text_not_before_chain(c: Seq<char>, b: Seq<char>, s: Seq<char>)
    requires
        !text_lt(c, b),
        !text_lt(b, s),
    ensures
        !text_lt(c, s),
{
    if text_lt(c, s) {
        if text_lt(s, b) {
            lemma_text_lt_transitive(c, s, b, 0);
        } else {
            lemma_text_lt_total(b, s, 0);
            assert(b.skip(0) =~= b);
            assert(s.skip(0) =~= s);
        }
    }
}

/// What is not before a string that is after `e` is after `e`.
pub proof fn lemma_text_after_chain(e: Seq<char>, b: Seq<char>, c: Seq<char>)
    requires
        text_lt(e, b),
        !text_lt(c, b),
    ensures
        text_lt(e, c),
{
    if text_lt(b, c) {
        lemma_text_lt_transitive(e, b, c, 0);
    } else {
        lemma_text_lt_total(b, c, 0);
        assert(b.skip(0) =~= b);
        assert(c.skip(0) =~= c);
    }
}

} // verus!
