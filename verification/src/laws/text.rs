//! What holds of texts.

use crate::text::{
    ascii_lower, decimal, decimal_value, digit_char, is_digit, is_white_space, occurs_at,
    occurs_in, same_ignoring_ascii_case, signed_decimal, trimmed, u64_of, unsigned_digits,
};
use vstd::arithmetic::power::{lemma_pow1, lemma_pow_adds, pow};
use vstd::prelude::*;

verus! {

/// A text occurs in every text that has it in it, with anything around it.
pub proof fn law_occurrence_is_a_split(needle: Seq<char>, before: Seq<char>, after: Seq<char>)
    ensures
        occurs_in(needle, before + needle + after),
{
    let text = before + needle + after;
    assert(text.subrange(before.len() as int, (before.len() + needle.len()) as int) =~= needle);
    assert(occurs_at(needle, text, before.len() as int));
}

/// A text that occurs in another is a part of it.
pub proof fn law_occurrence_splits(needle: Seq<char>, text: Seq<char>) -> (split: (
    Seq<char>,
    Seq<char>,
))
    requires
        occurs_in(needle, text),
    ensures
        text == split.0 + needle + split.1,
{
    let at = choose|at: int| #[trigger] occurs_at(needle, text, at);
    let before = text.take(at);
    let after = text.skip(at + needle.len());
    assert(text =~= before + needle + after);
    (before, after)
}

/// White space is what Unicode counts as such, by its code points.
pub proof fn law_white_space(c: char)
    ensures
        is_white_space(c) <==> ({
            let point = c as u32;
            ||| 0x9 <= point <= 0xd
            ||| 0x2000 <= point <= 0x200a
            ||| seq![0x20u32, 0x85, 0xa0, 0x1680, 0x2028, 0x2029, 0x202f, 0x205f, 0x3000].contains(
                point,
            )
        }),
{
    let others = seq![0x20u32, 0x85, 0xa0, 0x1680, 0x2028, 0x2029, 0x202f, 0x205f, 0x3000];
    assert(others[0] == 0x20 && others[1] == 0x85 && others[2] == 0xa0 && others[3] == 0x1680
        && others[4] == 0x2028 && others[5] == 0x2029 && others[6] == 0x202f && others[7] == 0x205f
        && others[8] == 0x3000);
}

/// Trimming takes away white space from the two ends of a text and nothing else.
pub proof fn law_trimming_keeps_the_middle(text: Seq<char>) -> (ends: (int, int))
    ensures
        0 <= ends.0 <= ends.1 <= text.len(),
        trimmed(text) == text.subrange(ends.0, ends.1),
        forall|i: int|
            0 <= i < ends.0 || ends.1 <= i < text.len() ==> is_white_space(#[trigger] text[i]),
    decreases text.len(),
{
    if text.len() > 0 && is_white_space(text.first()) {
        let rest = text.drop_first();
        let ends = law_trimming_keeps_the_middle(rest);
        assert forall|i: int|
            0 <= i < ends.0 + 1 || ends.1 + 1 <= i < text.len() implies is_white_space(
            #[trigger] text[i],
        ) by {
            if i > 0 {
                assert(rest[i - 1] == text[i]);
            }
        }
        assert(rest.subrange(ends.0, ends.1) =~= text.subrange(ends.0 + 1, ends.1 + 1));
        (ends.0 + 1, ends.1 + 1)
    } else if text.len() > 0 && is_white_space(text.last()) {
        let rest = text.drop_last();
        let ends = law_trimming_keeps_the_middle(rest);
        assert forall|i: int|
            0 <= i < ends.0 || ends.1 <= i < text.len() implies is_white_space(
            #[trigger] text[i],
        ) by {
            if i < rest.len() {
                assert(rest[i] == text[i]);
            }
        }
        assert(rest.subrange(ends.0, ends.1) =~= text.subrange(ends.0, ends.1));
        ends
    } else {
        assert(text.subrange(0, text.len() as int) =~= text);
        (0int, text.len() as int)
    }
}

/// A text between white space is what is left after trimming, whole, as long as it does
/// not itself begin or end with white space.
pub proof fn law_trimming_finds_the_middle(before: Seq<char>, inner: Seq<char>, after: Seq<char>)
    requires
        inner.len() > 0,
        !is_white_space(inner.first()),
        !is_white_space(inner.last()),
        forall|i: int| 0 <= i < before.len() ==> is_white_space(#[trigger] before[i]),
        forall|i: int| 0 <= i < after.len() ==> is_white_space(#[trigger] after[i]),
    ensures
        trimmed(before + inner + after) == inner,
    decreases before.len() + after.len(),
{
    let text = before + inner + after;
    if before.len() > 0 {
        let rest = before.drop_first();
        assert(is_white_space(before[0]));
        assert(text.first() == before[0]);
        assert forall|i: int| 0 <= i < rest.len() implies is_white_space(#[trigger] rest[i]) by {
            assert(rest[i] == before[i + 1]);
        }
        assert(text.drop_first() =~= rest + inner + after);
        law_trimming_finds_the_middle(rest, inner, after);
    } else {
        assert(text.first() == inner.first());
        if after.len() > 0 {
            let rest = after.drop_last();
            assert(is_white_space(after[after.len() - 1]));
            assert(text.last() == after.last());
            assert forall|i: int| 0 <= i < rest.len() implies is_white_space(
                #[trigger] rest[i],
            ) by {
                assert(rest[i] == after[i]);
            }
            assert(text.drop_last() =~= before + inner + rest);
            law_trimming_finds_the_middle(before, inner, rest);
        } else {
            assert(text =~= inner);
        }
    }
}

/// Two texts are the same but for case exactly where at each place they have the same
/// character, or an ASCII letter in its two cases.
pub proof fn law_same_but_for_case(a: Seq<char>, b: Seq<char>)
    ensures
        same_ignoring_ascii_case(a, b) <==> a.len() == b.len() && forall|i: int|
            0 <= i < a.len() ==> {
                ||| #[trigger] a[i] == b[i]
                ||| 'A' <= a[i] <= 'Z' && b[i] as u32 == a[i] as u32 + 32
                ||| 'a' <= a[i] <= 'z' && b[i] as u32 + 32 == a[i] as u32
            },
{
    assert forall|i: int| 0 <= i < a.len() && a.len() == b.len() implies (ascii_lower(
        #[trigger] a[i],
    ) == ascii_lower(b[i]) <==> {
        ||| a[i] == b[i]
        ||| 'A' <= a[i] <= 'Z' && b[i] as u32 == a[i] as u32 + 32
        ||| 'a' <= a[i] <= 'z' && b[i] as u32 + 32 == a[i] as u32
    }) by {
        lemma_lower(a[i], b[i]);
    }
    if same_ignoring_ascii_case(a, b) {
        assert forall|i: int| 0 <= i < a.len() implies {
            ||| #[trigger] a[i] == b[i]
            ||| 'A' <= a[i] <= 'Z' && b[i] as u32 == a[i] as u32 + 32
            ||| 'a' <= a[i] <= 'z' && b[i] as u32 + 32 == a[i] as u32
        } by {
            assert(ascii_lower(a[i]) == ascii_lower(b[i]));
        }
    }
}

proof fn lemma_lower(a: char, b: char)
    ensures
        ascii_lower(a) == ascii_lower(b) <==> {
            ||| a == b
            ||| 'A' <= a <= 'Z' && b as u32 == a as u32 + 32
            ||| 'a' <= a <= 'z' && b as u32 + 32 == a as u32
        },
{
    if 'A' <= a <= 'Z' {
        assert(ascii_lower(a) as u32 == a as u32 + 32);
    }
    if 'A' <= b <= 'Z' {
        assert(ascii_lower(b) as u32 == b as u32 + 32);
    }
}

/// The digits of a number count by their places: the first by as many tens as digits
/// follow it.
pub proof fn law_digits_count_by_place(digit: char, others: Seq<char>)
    requires
        is_digit(digit),
    ensures
        decimal_value(seq![]) == 0,
        decimal_value(seq![digit] + others) == (digit as u32 - '0' as u32) * pow(
            10,
            others.len(),
        ) + decimal_value(others),
    decreases others.len(),
{
    let all = seq![digit] + others;
    if others.len() == 0 {
        assert(all.drop_last() =~= seq![]);
        assert(pow(10, 0) == 1) by {
            reveal(pow);
        }
        assert(decimal_value(all) == decimal_value(all.drop_last()) * 10 + (digit as u32
            - '0' as u32) as nat);
    } else {
        let init = others.drop_last();
        law_digits_count_by_place(digit, init);
        assert(all.drop_last() =~= seq![digit] + init);
        assert(all.last() == others.last());
        lemma_pow_adds(10, init.len(), 1);
        lemma_pow1(10);
        let tens = pow(10, init.len());
        let first: int = digit as u32 - '0' as u32;
        assert((first * tens + decimal_value(init)) * 10 == first * (tens * 10) + decimal_value(
            init,
        ) * 10) by (nonlinear_arith);
    }
}

/// A number in decimal is digits alone, has its value, and no zero in front but for
/// the number zero itself.
pub proof fn law_decimal(n: nat)
    ensures
        decimal(n).len() > 0,
        forall|i: int| 0 <= i < decimal(n).len() ==> is_digit(#[trigger] decimal(n)[i]),
        decimal_value(decimal(n)) == n,
        decimal(n).len() > 1 ==> decimal(n)[0] != '0',
    decreases n,
{
    let text = decimal(n);
    let digit = digit_char(n);
    assert(is_digit(digit) && digit as u32 - '0' as u32 == n % 10);
    if n < 10 {
        assert(text.drop_last() =~= seq![]);
        assert(decimal_value(text.drop_last()) == 0);
    } else {
        law_decimal(n / 10);
        assert(text.drop_last() =~= decimal(n / 10));
        if decimal(n / 10).len() == 1 {
            assert(decimal(n / 10).drop_last() =~= seq![]);
            assert(decimal_value(decimal(n / 10).drop_last()) == 0);
        }
    }
}

/// `count` zeros.
pub open spec fn zeros(count: nat) -> Seq<char> {
    Seq::new(count, |i: int| '0')
}

/// A number in decimal with zeros in front of it, and a plus sign where there is one.
pub open spec fn numeral(plus: bool, count: nat, n: nat) -> Seq<char> {
    if plus {
        seq!['+'] + zeros(count) + decimal(n)
    } else {
        zeros(count) + decimal(n)
    }
}

proof fn lemma_zeros_in_front(count: nat, digits: Seq<char>)
    ensures
        decimal_value(zeros(count) + digits) == decimal_value(digits),
    decreases count,
{
    if count == 0 {
        assert(zeros(0) + digits =~= digits);
    } else {
        let fewer = zeros((count - 1) as nat);
        lemma_zeros_in_front((count - 1) as nat, digits);
        assert(zeros(count) + digits =~= seq!['0'] + (fewer + digits));
        law_digits_count_by_place('0', fewer + digits);
        let tens = pow(10, (fewer + digits).len());
        assert(0 * tens == 0);
    }
}

/// Every numeral is read: a plus sign and zeros in front change nothing.
pub proof fn law_numerals_are_read(plus: bool, count: nat, n: u64)
    ensures
        u64_of(numeral(plus, count, n as nat)) == Some(n),
{
    let text = numeral(plus, count, n as nat);
    let digits = zeros(count) + decimal(n as nat);
    law_decimal(n as nat);
    lemma_zeros_in_front(count, decimal(n as nat));
    assert forall|i: int| 0 <= i < digits.len() implies is_digit(#[trigger] digits[i]) by {
        if i >= count {
            assert(digits[i] == decimal(n as nat)[i - count]);
        }
    }
    if plus {
        assert(text.drop_first() =~= digits);
    } else {
        assert(is_digit(digits[0]));
    }
}

/// Decimal digits are zeros and a number in decimal.
pub proof fn lemma_digits_are_a_numeral(digits: Seq<char>) -> (count: nat)
    requires
        digits.len() > 0,
        forall|i: int| 0 <= i < digits.len() ==> is_digit(#[trigger] digits[i]),
    ensures
        digits == zeros(count) + decimal(decimal_value(digits)),
    decreases digits.len(),
{
    let init = digits.drop_last();
    let last = digits.last();
    assert(is_digit(digits[digits.len() - 1]));
    let n = decimal_value(digits);
    assert(digit_char(n) == last);
    if init.len() == 0 {
        assert(decimal_value(init) == 0);
        assert(digits =~= zeros(0) + decimal(n));
        0
    } else {
        assert forall|i: int| 0 <= i < init.len() implies is_digit(#[trigger] init[i]) by {
            assert(init[i] == digits[i]);
        }
        let count = lemma_digits_are_a_numeral(init);
        let tens = decimal_value(init);
        if tens == 0 {
            assert(digit_char(0) == '0');
            assert(decimal(0) =~= seq!['0']);
            assert(digits =~= zeros(count + 1) + decimal(n)) by {
                assert(init =~= zeros(count + 1));
            }
            count + 1
        } else {
            assert(n / 10 == tens);
            assert(decimal(n) == decimal(tens).push(last));
            assert(digits =~= init.push(last));
            assert((zeros(count) + decimal(tens)).push(last) =~= zeros(count) + decimal(
                tens,
            ).push(last));
            count
        }
    }
}

/// Only numerals are read, each as its number.
pub proof fn law_only_numerals_are_read(text: Seq<char>)
    requires
        u64_of(text) is Some,
    ensures
        exists|plus: bool, count: nat|
            text == #[trigger] numeral(plus, count, u64_of(text)->0 as nat),
{
    let digits = unsigned_digits(text);
    let count = lemma_digits_are_a_numeral(digits);
    let plus = text[0] == '+';
    if plus {
        assert(text =~= seq!['+'] + digits);
        assert(text =~= numeral(true, count, u64_of(text)->0 as nat));
    } else {
        assert(text =~= numeral(false, count, u64_of(text)->0 as nat));
    }
}

/// Two numbers are two texts in decimal.
pub proof fn law_decimals_differ(n: nat, m: nat)
    requires
        n != m,
    ensures
        decimal(n) != decimal(m),
{
    law_decimal(n);
    law_decimal(m);
}

/// A number below zero is written as its opposite with a minus sign in front, any other
/// as the natural number that it is.
pub proof fn law_signed_decimal(n: nat)
    ensures
        signed_decimal(n as int) == decimal(n),
        n > 0 ==> signed_decimal(-n) == seq!['-'] + signed_decimal(n as int),
{
}

} // verus!
