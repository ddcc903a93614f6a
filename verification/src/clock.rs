//! The current time.

use crate::text::{decimal_value, is_digit};
use vstd::prelude::*;

verus! {

/// Whether `text[from..to]` is nothing but decimal digits.
pub open spec fn digits_in(text: Seq<char>, from: int, to: int) -> bool {
    forall|i: int| from <= i < to ==> is_digit(#[trigger] text[i])
}

/// Whether two digits at `at` write a number from `low` to `high`.
pub open spec fn two_digits(text: Seq<char>, at: int, low: nat, high: nat) -> bool {
    digits_in(text, at, at + 2) && low <= decimal_value(text.subrange(at, at + 2)) <= high
}

/// Whether `text` is a date and time of RFC 3339 in UTC: a year of `year`
/// characters, month and day, hour, minute and second, a fraction of `fraction`
/// characters and the offset. A year beyond 9999 carries a plus sign; a fraction is
/// a dot with three, six or nine digits.
pub open spec fn is_date_time(text: Seq<char>, year: int, fraction: int) -> bool {
    let end = year + 15 + fraction;
    &&& text.len() == end + 6
    &&& (year == 4 && digits_in(text, 0, 4)) || (year >= 6 && text[0] == '+' && digits_in(
        text,
        1,
        year,
    ))
    &&& text[year] == '-' && two_digits(text, year + 1, 1, 12)
    &&& text[year + 3] == '-' && two_digits(text, year + 4, 1, 31)
    &&& text[year + 6] == 'T' && two_digits(text, year + 7, 0, 23)
    &&& text[year + 9] == ':' && two_digits(text, year + 10, 0, 59)
    &&& text[year + 12] == ':' && two_digits(text, year + 13, 0, 60)
    &&& fraction == 0 || ((fraction == 4 || fraction == 7 || fraction == 10) && text[year + 15]
        == '.' && digits_in(text, year + 16, end))
    &&& text.skip(end) == "+00:00"@
}

/// What is known of every time that the clock gives: it is a date and time in UTC.
pub open spec fn is_utc_time(text: Seq<char>) -> bool {
    exists|year: int, fraction: int| is_date_time(text, year, fraction)
}

/// `chrono::Utc::now`, written by `DateTime::to_rfc3339`. The text is
/// a date and time in UTC. Which time that is depends on the system clock, which
/// has to stand after the Unix epoch.
#[verifier::external_body]
pub(crate) fn now() -> (text: String)
    ensures
        is_utc_time(text@),
{
    chrono::Utc::now().to_rfc3339()
}

} // verus!
