//! Year validation and the derivation of a year's timestamp range.

use vstd::prelude::*;

use crate::errors::FetchError;

verus! {

/// Earliest year for which the remote service holds contribution data.
pub const EARLIEST_YEAR: u32 = 2008;

/// The character standing for one decimal digit value.
pub open spec fn decimal_digit(d: int) -> char {
    if d == 0 {
        '0'
    } else if d == 1 {
        '1'
    } else if d == 2 {
        '2'
    } else if d == 3 {
        '3'
    } else if d == 4 {
        '4'
    } else if d == 5 {
        '5'
    } else if d == 6 {
        '6'
    } else if d == 7 {
        '7'
    } else if d == 8 {
        '8'
    } else {
        '9'
    }
}

/// The usual decimal rendering of a non-negative integer: most significant
/// digit first, no leading zeros (a single `'0'` for zero itself).
pub open spec fn spec_decimal(n: int) -> Seq<char>
    recommends
        n >= 0,
    decreases n,
{
    if n < 10 {
        seq![decimal_digit(n)]
    } else {
        spec_decimal(n / 10).push(decimal_digit(n % 10))
    }
}

/// The start-of-year timestamp string: `"{year}-01-01T00:00:00Z"`.
pub open spec fn start_timestamp(year: u32) -> Seq<char> {
    spec_decimal(year as int) + "-01-01T00:00:00Z"@
}

/// The end-of-year timestamp string: `"{year}-12-31T11:59:59Z"`.
///
/// The hour reads `11`, not `23`; the service contract this library follows
/// uses exactly this string, so it is kept verbatim.
pub open spec fn end_timestamp(year: u32) -> Seq<char> {
    spec_decimal(year as int) + "-12-31T11:59:59Z"@
}

/// A one-character string holding the digit character for `d`.
fn digit_string(d: u32) -> (r: String)
    requires
        d < 10,
    ensures
        r@ == seq![decimal_digit(d as int)],
{
    let s: &str = if d == 0 {
        "0"
    } else if d == 1 {
        "1"
    } else if d == 2 {
        "2"
    } else if d == 3 {
        "3"
    } else if d == 4 {
        "4"
    } else if d == 5 {
        "5"
    } else if d == 6 {
        "6"
    } else if d == 7 {
        "7"
    } else if d == 8 {
        "8"
    } else {
        "9"
    };
    proof {
        reveal_strlit("0");
        reveal_strlit("1");
        reveal_strlit("2");
        reveal_strlit("3");
        reveal_strlit("4");
        reveal_strlit("5");
        reveal_strlit("6");
        reveal_strlit("7");
        reveal_strlit("8");
        reveal_strlit("9");
        assert(s@ =~= seq![decimal_digit(d as int)]);
    }
    String::from_str(s)
}

/// Renders `n` in decimal, most significant digit first.
fn u32_decimal(n: u32) -> (r: String)
    ensures
        r@ == spec_decimal(n as int),
    decreases n,
{
    if n < 10 {
        digit_string(n)
    } else {
        let mut s = u32_decimal(n / 10);
        let d = digit_string(n % 10);
        s.append(d.as_str());
        proof {
            assert(s@ =~= spec_decimal(n as int));
        }
        s
    }
}

/// Whether `year` is accepted by the validator: no earlier than the
/// service's first year of data, and strictly before the current year.
pub open spec fn year_in_range(year: u32, current_year: u32) -> bool {
    EARLIEST_YEAR <= year < current_year
}

/// Turns a calendar year into the `(start, end)` timestamp pair bounding it,
/// judged against `current_year`: years before the service's earliest data
/// and the current or a future year are rejected.
pub fn date_range_for_year(year: u32, current_year: u32) -> (r: Result<
    (String, String),
    FetchError,
>)
    ensures
        r is Ok <==> year_in_range(year, current_year),
        r matches Ok(range) ==> range.0@ == start_timestamp(year) && range.1@ == end_timestamp(
            year,
        ),
        r is Err ==> r == Err::<(String, String), FetchError>(FetchError::InvalidYear),
{
    if year < EARLIEST_YEAR || year >= current_year {
        Err(FetchError::InvalidYear)
    } else {
        let mut start = u32_decimal(year);
        start.append("-01-01T00:00:00Z");
        let mut end = u32_decimal(year);
        end.append("-12-31T11:59:59Z");
        Ok((start, end))
    }
}

/// Relies on chrono's `Utc::now` and `Datelike::year` for the current UTC
/// calendar year, cast to `u32` as the validator compares it.
#[verifier::external_body]
fn current_utc_year() -> (r: u32) {
    chrono::Datelike::year(&chrono::Utc::now()) as u32
}

/// Derives the timestamp range for `year`, judged against the machine's
/// current UTC calendar year. Whatever the clock read: an accepted year is
/// no earlier than the service's first year of data and yields exactly its
/// range; a rejection is exactly `InvalidYear`; a year before the earliest
/// is always rejected.
pub fn year_to_git_timestamp(year: u32) -> (r: Result<(String, String), FetchError>)
    ensures
        r matches Ok(range) ==> EARLIEST_YEAR <= year && range.0@ == start_timestamp(year)
            && range.1@ == end_timestamp(year),
        r is Err ==> r == Err::<(String, String), FetchError>(FetchError::InvalidYear),
        year < EARLIEST_YEAR ==> r is Err,
{
    let current_year = current_utc_year();
    date_range_for_year(year, current_year)
}

} // verus!
