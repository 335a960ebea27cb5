//! The calendar date of the machine, written day/month/year.

use vstd::prelude::*;

verus! {

/// Whether `c` is one of the ten decimal digits.
pub open spec fn is_digit(c: char) -> bool {
    '0' <= c <= '9'
}

/// Whether `s` is shaped as a date written day/month/year: two digits, a
/// slash, two digits, a slash, and four characters or more for the year.
pub open spec fn is_calendar_date(s: Seq<char>) -> bool {
    &&& s.len() >= 10
    &&& is_digit(s[0])
    &&& is_digit(s[1])
    &&& s[2] == '/'
    &&& is_digit(s[3])
    &&& is_digit(s[4])
    &&& s[5] == '/'
}

/// Trusted: the local date of the machine through chrono. The clock is
/// read with `SystemTime::now()` and handed to chrono's
/// `DateTime::<Local>::from`, which takes readings before 1970 as well as
/// after; the date is written with `format("%d/%m/%Y")`. Which date comes
/// back is the machine's affair, so the contract claims only the shape that
/// chrono gives every date under this format: `%d` and `%m` are each written
/// as two digits, padded with a zero, and `%Y` as four characters or more.
/// chrono gives up only on a reading outside the years that it can hold,
/// more than 262,000 from now, or where the time-zone data of the machine
/// names no offset for the reading.
#[verifier::external_body]
pub(crate) fn local_date() -> (date: String)
    ensures
        is_calendar_date(date@),
{
    chrono::DateTime::<chrono::Local>::from(std::time::SystemTime::now())
        .format("%d/%m/%Y")
        .to_string()
}

} // verus!
