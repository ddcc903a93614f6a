//! Text, character by character.

use vstd::prelude::*;

verus! {

/// Whether `needle` stands in `text` at position `at`.
pub open spec fn occurs_at(needle: Seq<char>, text: Seq<char>, at: int) -> bool {
    0 <= at <= text.len() - needle.len() && text.subrange(at, at + needle.len()) == needle
}

/// Whether `needle` occurs somewhere in `text`.
pub open spec fn occurs_in(needle: Seq<char>, text: Seq<char>) -> bool {
    exists|at: int| occurs_at(needle, text, at)
}

/// The characters with the Unicode property `White_Space`.
pub open spec fn is_white_space(c: char) -> bool {
    ||| '\u{9}' <= c <= '\u{d}'
    ||| c == '\u{20}'
    ||| c == '\u{85}'
    ||| c == '\u{a0}'
    ||| c == '\u{1680}'
    ||| '\u{2000}' <= c <= '\u{200a}'
    ||| c == '\u{2028}'
    ||| c == '\u{2029}'
    ||| c == '\u{202f}'
    ||| c == '\u{205f}'
    ||| c == '\u{3000}'
}

/// `text` without the white space at its two ends.
pub open spec fn trimmed(text: Seq<char>) -> Seq<char>
    decreases text.len(),
{
    if text.len() > 0 && is_white_space(text.first()) {
        trimmed(text.drop_first())
    } else if text.len() > 0 && is_white_space(text.last()) {
        trimmed(text.drop_last())
    } else {
        text
    }
}

/// `c` with an ASCII capital letter made small.
pub open spec fn ascii_lower(c: char) -> char {
    if 'A' <= c <= 'Z' {
        (c as u32 + 32) as char
    } else {
        c
    }
}

/// Whether two texts are equal but for the case of ASCII letters.
pub open spec fn same_ignoring_ascii_case(a: Seq<char>, b: Seq<char>) -> bool {
    &&& a.len() == b.len()
    &&& forall|i: int| 0 <= i < a.len() ==> ascii_lower(#[trigger] a[i]) == ascii_lower(b[i])
}

/// Whether `c` is an ASCII decimal digit.
pub open spec fn is_digit(c: char) -> bool {
    '0' <= c <= '9'
}

/// The number that decimal digits write, the most significant first.
pub open spec fn decimal_value(digits: Seq<char>) -> nat
    decreases digits.len(),
{
    if digits.len() == 0 {
        0
    } else {
        decimal_value(digits.drop_last()) * 10 + (digits.last() as u32 - '0' as u32) as nat
    }
}

/// The digits of a decimal numeral that may carry a plus sign.
pub open spec fn unsigned_digits(text: Seq<char>) -> Seq<char> {
    if text.len() > 0 && text[0] == '+' {
        text.drop_first()
    } else {
        text
    }
}

/// The `u64` that `text` writes in decimal: digits, at least one, after an
/// optional plus sign. `None` for any other text and for larger numbers.
pub open spec fn u64_of(text: Seq<char>) -> Option<u64> {
    let digits = unsigned_digits(text);
    if digits.len() > 0 && (forall|i: int| 0 <= i < digits.len() ==> is_digit(#[trigger] digits[i]))
        && decimal_value(digits) <= u64::MAX {
        Some(decimal_value(digits) as u64)
    } else {
        None
    }
}

/// The decimal digit of `n % 10`.
pub open spec fn digit_char(n: nat) -> char {
    ('0' as u32 + (n % 10) as u32) as char
}

/// `n` in decimal, without leading zeros.
pub open spec fn decimal(n: nat) -> Seq<char>
    decreases n,
{
    if n < 10 {
        seq![digit_char(n)]
    } else {
        decimal(n / 10).push(digit_char(n))
    }
}

/// `n` in decimal, with a minus sign where it is below zero.
pub open spec fn signed_decimal(n: int) -> Seq<char> {
    if n < 0 {
        seq!['-'] + decimal((-n) as nat)
    } else {
        decimal(n as nat)
    }
}

/// The characters of `text`.
pub fn chars_of(text: &str) -> (chars: Vec<char>)
    ensures
        chars@ == text@,
{
    let mut chars: Vec<char> = Vec::new();
    for c in it: text.chars()
        invariant
            chars@ == it.seq().take(it.index() as int),
            it.seq() == text@,
    {
        chars.push(c);
    }
    chars
}

/// Whether two texts are equal.
pub fn same(a: &str, b: &str) -> (result: bool)
    ensures
        result == (a@ == b@),
{
    same_chars(&chars_of(a), &chars_of(b))
}

fn same_chars(a: &Vec<char>, b: &Vec<char>) -> (result: bool)
    ensures
        result == (a@ == b@),
{
    if a.len() != b.len() {
        return false;
    }
    for i in 0..a.len()
        invariant
            a@.len() == b@.len(),
            forall|j: int| 0 <= j < i ==> a@[j] == b@[j],
    {
        if a[i] != b[i] {
            return false;
        }
    }
    assert(a@ =~= b@);
    true
}

/// Whether `needle` stands in `text` at position `at`.
fn stands_at(text: &Vec<char>, needle: &Vec<char>, at: usize) -> (result: bool)
    requires
        at + needle@.len() <= text@.len(),
    ensures
        result == occurs_at(needle@, text@, at as int),
{
    let len: usize = text.len();
    for i in 0..needle.len()
        invariant
            at + needle@.len() <= len == text@.len(),
            forall|j: int| 0 <= j < i ==> text@[at + j] == needle@[j],
    {
        if text[at + i] != needle[i] {
            assert(text@.subrange(at as int, at + needle@.len())[i as int] != needle@[i as int]);
            return false;
        }
    }
    assert(text@.subrange(at as int, at + needle@.len()) =~= needle@);
    true
}

/// Whether `text` begins with `prefix`.
pub fn starts_with(text: &str, prefix: &str) -> (result: bool)
    ensures
        result == prefix@.is_prefix_of(text@),
{
    let chars = chars_of(text);
    let start = chars_of(prefix);
    start.len() <= chars.len() && stands_at(&chars, &start, 0)
}

/// Whether `needle` occurs somewhere in `text`.
pub fn contains(text: &str, needle: &str) -> (result: bool)
    ensures
        result == occurs_in(needle@, text@),
{
    let chars = chars_of(text);
    let sought = chars_of(needle);
    if sought.len() > chars.len() {
        return false;
    }
    let last: usize = chars.len() - sought.len();
    let mut at: usize = 0;
    loop
        invariant
            chars@ == text@,
            sought@ == needle@,
            last == text@.len() - needle@.len(),
            at <= last,
            forall|j: int| 0 <= j < at ==> !#[trigger] occurs_at(needle@, text@, j),
        decreases last - at,
    {
        if stands_at(&chars, &sought, at) {
            return true;
        }
        if at == last {
            return false;
        }
        at = at + 1;
    }
}

/// Whether two texts are equal but for the case of ASCII letters.
pub fn eq_ignore_ascii_case(a: &str, b: &str) -> (result: bool)
    ensures
        result == same_ignoring_ascii_case(a@, b@),
{
    let left = chars_of(a);
    let right = chars_of(b);
    if left.len() != right.len() {
        return false;
    }
    for i in 0..left.len()
        invariant
            left@ == a@,
            right@ == b@,
            a@.len() == b@.len(),
            forall|j: int| 0 <= j < i ==> ascii_lower(#[trigger] a@[j]) == ascii_lower(b@[j]),
    {
        if to_ascii_lower(left[i]) != to_ascii_lower(right[i]) {
            assert(ascii_lower(a@[i as int]) != ascii_lower(b@[i as int]));
            return false;
        }
    }
    true
}

fn to_ascii_lower(c: char) -> (lower: char)
    ensures
        lower == ascii_lower(c),
{
    if 'A' <= c && c <= 'Z' {
        (c as u8 + 32) as char
    } else {
        c
    }
}

fn white_space(c: char) -> (result: bool)
    ensures
        result == is_white_space(c),
{
    ('\u{9}' <= c && c <= '\u{d}') || c == '\u{20}' || c == '\u{85}' || c == '\u{a0}' || c
        == '\u{1680}' || ('\u{2000}' <= c && c <= '\u{200a}') || c == '\u{2028}' || c == '\u{2029}'
        || c == '\u{202f}' || c == '\u{205f}' || c == '\u{3000}'
}

/// `text` without the white space at its two ends.
pub fn trim(text: &str) -> (result: &str)
    ensures
        result@ == trimmed(text@),
{
    let chars = chars_of(text);
    let mut from: usize = 0;
    let mut to: usize = chars.len();
    assert(text@.subrange(0, text@.len() as int) =~= text@);
    while from < to && white_space(chars[from])
        invariant
            from <= to == chars@.len(),
            chars@ == text@,
            trimmed(text@.subrange(from as int, to as int)) == trimmed(text@),
        decreases to - from,
    {
        assert(text@.subrange(from as int, to as int).drop_first() =~= text@.subrange(
            from + 1,
            to as int,
        ));
        from = from + 1;
    }
    while from < to && white_space(chars[to - 1])
        invariant
            from <= to <= chars@.len(),
            from < to ==> !is_white_space(chars@[from as int]),
            chars@ == text@,
            trimmed(text@.subrange(from as int, to as int)) == trimmed(text@),
        decreases to - from,
    {
        assert(text@.subrange(from as int, to as int).drop_last() =~= text@.subrange(
            from as int,
            to - 1,
        ));
        to = to - 1;
    }
    text.substring_char(from, to)
}

/// A numeral is worth at least as much as each of its beginnings.
proof fn lemma_decimal_value_grows(digits: Seq<char>, len: int)
    requires
        0 <= len <= digits.len(),
    ensures
        decimal_value(digits.take(len)) <= decimal_value(digits),
    decreases digits.len(),
{
    if len < digits.len() {
        lemma_decimal_value_grows(digits.drop_last(), len);
        assert(digits.drop_last().take(len) =~= digits.take(len));
    } else {
        assert(digits.take(len) =~= digits);
    }
}

/// The `u64` that `text` writes in decimal, where it writes one.
pub fn parse_u64(text: &str) -> (result: Option<u64>)
    ensures
        result == u64_of(text@),
{
    let chars = chars_of(text);
    let first: usize = if chars.len() > 0 && chars[0] == '+' {
        1
    } else {
        0
    };
    let ghost digits = unsigned_digits(text@);
    assert(digits =~= text@.skip(first as int));
    if first == chars.len() {
        return None;
    }
    let mut value: u64 = 0;
    let mut at: usize = first;
    while at < chars.len()
        invariant
            chars@ == text@,
            first <= at <= chars@.len(),
            first < chars@.len(),
            digits == unsigned_digits(text@),
            digits == text@.skip(first as int),
            value == decimal_value(digits.take(at - first)),
            forall|j: int| 0 <= j < at - first ==> is_digit(#[trigger] digits[j]),
        decreases chars.len() - at,
    {
        let c = chars[at];
        assert(digits[at - first] == c);
        if c < '0' || '9' < c {
            return None;
        }
        let digit: u64 = c as u64 - '0' as u64;
        proof {
            let next = digits.take(at - first + 1);
            assert(next.drop_last() =~= digits.take(at - first));
            assert(decimal_value(next) == value * 10 + digit);
            lemma_decimal_value_grows(digits, at - first + 1);
        }
        if value > (u64::MAX - digit) / 10 {
            return None;
        }
        value = value * 10 + digit;
        at = at + 1;
    }
    assert(digits.take(at - first) =~= digits);
    Some(value)
}

/// The decimal digit of `n`.
fn digit_text(n: u64) -> (text: &'static str)
    requires
        n < 10,
    ensures
        text@ == seq![digit_char(n as nat)],
{
    proof {
        reveal_strlit("0");
        reveal_strlit("1");
        reveal_strlit("2");
        reveal_strlit("3");
        reveal_strlit("4");
        reveal_strlit("5");
        reveal_strlit("6");
        reveal_strlit("7");
        reveal_strlit("8");
        reveal_strlit("9");
    }
    match n {
        0 => "0",
        1 => "1",
        2 => "2",
        3 => "3",
        4 => "4",
        5 => "5",
        6 => "6",
        7 => "7",
        8 => "8",
        _ => "9",
    }
}

/// `n` in decimal.
pub fn u64_text(n: u64) -> (text: String)
    ensures
        text@ == decimal(n as nat),
    decreases n,
{
    if n < 10 {
        digit_text(n).to_owned()
    } else {
        let mut text = u64_text(n / 10);
        text.append(digit_text(n % 10));
        assert(digit_char((n % 10) as nat) == digit_char(n as nat));
        text
    }
}

/// `n` in decimal, with a minus sign where it is below zero.
pub fn i64_text(n: i64) -> (text: String)
    ensures
        text@ == signed_decimal(n as int),
{
    if n < 0 {
        let mut text = "-".to_owned();
        text.append(u64_text((-(n as i128)) as u64).as_str());
        proof {
            reveal_strlit("-");
        }
        assert("-"@ =~= seq!['-']);
        text
    } else {
        u64_text(n as u64)
    }
}

} // verus!
