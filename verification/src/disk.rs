//! The disk that holds the directory, and the share of it that must stay free.

use crate::error::ParseError;
use crate::number::as_u64;
use crate::number::parse_u64;
use vstd::prelude::*;

verus! {

/// Total and available capacity of the disk that holds the directory, in bytes.
#[derive(Debug, Clone, Copy, PartialEq, Eq, Structural)]
pub struct DiskInfo {
    pub total: u64,
    pub available: u64,
}

impl DiskInfo {
    /// Bytes that have to be available for `percent` hundredths of the disk to be free.
    pub open spec fn needed_bytes(self, percent: u64) -> int {
        self.total * percent / 100
    }

    /// Computes `needed_bytes`; the product is taken in 128 bits, so it never wraps.
    pub fn needed(self, percent: u64) -> (bytes: u128)
        ensures
            bytes == self.needed_bytes(percent),
    {
        let total: u128 = self.total as u128;
        let percent: u128 = percent as u128;
        assert(total * percent <= u64::MAX * u64::MAX) by (nonlinear_arith)
            requires
                total <= u64::MAX,
                percent <= u64::MAX,
        ;
        total * percent / 100
    }
}

/// The share of the disk, in hundredths, that should stay free.
#[derive(Debug, Clone, Copy, PartialEq, Eq, Structural)]
pub struct DiskFreePercent {
    pub percent: u64,
}

impl DiskFreePercent {
    /// A share is at most the whole disk.
    pub open spec fn wf(self) -> bool {
        self.percent <= 100
    }
}

/// The share that a number written as text stands for.
pub open spec fn percent_of(s: Seq<char>) -> Result<DiskFreePercent, ParseError> {
    match as_u64(s) {
        Some(percent) => if percent > 100 {
            Err(ParseError::PercentRange)
        } else {
            Ok(DiskFreePercent { percent })
        },
        None => Err(ParseError::Percent),
    }
}

/// Reads the share of the disk that should stay free.
pub fn parse_disk_percent(s: &str) -> (free: Result<DiskFreePercent, ParseError>)
    ensures
        free == percent_of(s@),
        free is Ok ==> free.unwrap().wf(),
{
    match parse_u64(s) {
        Some(percent) => if percent > 100 {
            Err(ParseError::PercentRange)
        } else {
            Ok(DiskFreePercent { percent })
        },
        None => Err(ParseError::Percent),
    }
}

impl std::str::FromStr for DiskFreePercent {
    type Err = ParseError;

    fn from_str(s: &str) -> (free: Result<Self, Self::Err>)
        ensures
            free == percent_of(s@),
    {
        parse_disk_percent(s)
    }
}

} // verus!
