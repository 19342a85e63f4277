//! The calendar year of a result, read off its ISO date.

use vstd::prelude::*;
use vstd::string::StrSliceExecFns;

use crate::text::{digit, digit_value, is_digit};

verus! {

/// Whether `date` opens with a year: exactly four digits, followed by `-` or
/// by the end of the text.
pub open spec fn has_year(date: Seq<char>) -> bool {
    &&& date.len() >= 4
    &&& is_digit(date[0])
    &&& is_digit(date[1])
    &&& is_digit(date[2])
    &&& is_digit(date[3])
    &&& (date.len() == 4 || date[4] == '-')
}

/// The year that `date` opens with, if it opens with one.
pub open spec fn year_of(date: Seq<char>) -> Option<int> {
    if has_year(date) {
        Some(
            1000 * digit_value(date[0]) + 100 * digit_value(date[1]) + 10 * digit_value(date[2])
                + digit_value(date[3]),
        )
    } else {
        None
    }
}

/// The year a result dated `date` counts for: the year the date opens with,
/// or `fallback` where it opens with none.
pub open spec fn year_or(date: Seq<char>, fallback: i32) -> int {
    match year_of(date) {
        Some(year) => year,
        None => fallback as int,
    }
}

/// Reads the year off the front of an ISO date: the four digits before the
/// first `-`. Text that does not open that way has no year.
pub fn parse_year(date: &str) -> (year: Option<i32>)
    ensures
        year is Some <==> has_year(date@),
        year matches Some(y) ==> year_of(date@) == Some(y as int),
{
    let n = date.unicode_len();
    if n < 4 {
        return None;
    }
    if n > 4 && date.get_char(4) != '-' {
        return None;
    }
    let d0 = digit(date.get_char(0));
    let d1 = digit(date.get_char(1));
    let d2 = digit(date.get_char(2));
    let d3 = digit(date.get_char(3));
    match (d0, d1, d2, d3) {
        (Some(a), Some(b), Some(c), Some(d)) => Some(1000 * a + 100 * b + 10 * c + d),
        _ => None,
    }
}

/// The year a result dated `date` counts for, with `fallback` standing in
/// when the date does not open with a year.
pub fn result_year(date: &str, fallback: i32) -> (year: i32)
    ensures
        year == year_or(date@, fallback),
{
    match parse_year(date) {
        Some(year) => year,
        None => fallback,
    }
}

} // verus!
