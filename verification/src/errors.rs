use vstd::prelude::*;

verus! {

/// Failures of the retrieval pipeline.
///
/// `InvalidYear` rejects a year outside the accepted bounds before any query
/// is issued. `NoUserFound` reports a well-formed calendar response that
/// carried no user. `InvalidDay` and `InvalidWeek` are defensive bounds
/// against malformed calendars: they name the one-based running index that
/// overflowed, and `InvalidDay` also carries the date of the offending day.
#[derive(Debug, PartialEq, Eq)]
pub enum FetchError {
    InvalidYear,
    NoUserFound,
    InvalidDay { day: u32, date: String },
    InvalidWeek { week: u32 },
}

} // verus!
