//! An age limit, given in days and kept in seconds.

use crate::error::ParseError;
use crate::number::as_u64;
use crate::number::parse_u64;
use vstd::prelude::*;

verus! {

/// Seconds in one day.
pub const DAY_SECONDS: u64 = 86400;

/// An age in seconds.
#[derive(Debug, Clone, Copy, PartialEq, Eq, Structural)]
pub struct DaysSec {
    pub day_sec: u64,
}

/// The age limit that a number of days, written as text, stands for.
pub open spec fn days_of(s: Seq<char>) -> Result<DaysSec, ParseError> {
    match as_u64(s) {
        Some(days) => if days * DAY_SECONDS <= u64::MAX {
            Ok(DaysSec { day_sec: (days * DAY_SECONDS) as u64 })
        } else {
            Err(ParseError::Days)
        },
        None => Err(ParseError::Days),
    }
}

/// Reads a number of days and gives it in seconds.
pub fn parse_days(s: &str) -> (days: Result<DaysSec, ParseError>)
    ensures
        days == days_of(s@),
{
    match parse_u64(s) {
        Some(days) => match days.checked_mul(DAY_SECONDS) {
            Some(day_sec) => Ok(DaysSec { day_sec }),
            None => Err(ParseError::Days),
        },
        None => Err(ParseError::Days),
    }
}

impl std::str::FromStr for DaysSec {
    type Err = ParseError;

    fn from_str(s: &str) -> (days: Result<Self, Self::Err>)
        ensures
            days == days_of(s@),
    {
        parse_days(s)
    }
}

} // verus!
