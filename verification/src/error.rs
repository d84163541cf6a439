//! Why a threshold given as text was refused.

use vstd::prelude::*;
use vstd::string::StringExecFns;

verus! {

/// Why a threshold given as text was refused.
#[derive(Debug, Clone, Copy, PartialEq, Eq, Structural)]
pub enum ParseError {
    /// The regex engine refused the pattern that sizes are read with.
    Pattern,
    /// The text holds no size, or one that is too large.
    Size,
    /// The text is no number of days, or one that is too large.
    Days,
    /// The text is no number.
    Percent,
    /// The number is over 100.
    PercentRange,
}

impl ParseError {
    /// The words that tell the user who gave `text` what is wrong with it.
    pub open spec fn message_text(self, text: Seq<char>) -> Seq<char> {
        match self {
            ParseError::Pattern => "Failed to read sizes while parsing "@ + text,
            ParseError::Size => "Failed to parse size from "@ + text,
            ParseError::Days => "Failed to parse size from "@ + text,
            ParseError::Percent => "Failed to parse disk free percent from "@ + text
                + ". it should be usize"@,
            ParseError::PercentRange => "disk free percent should be between 0 and 100"@,
        }
    }

    /// What to tell the user who gave `text`.
    pub fn message(&self, text: &str) -> (message: String)
        ensures
            message@ == self.message_text(text@),
    {
        match self {
            ParseError::Pattern => String::from_str("Failed to read sizes while parsing ").concat(
                text,
            ),
            ParseError::Size => String::from_str("Failed to parse size from ").concat(text),
            ParseError::Days => String::from_str("Failed to parse size from ").concat(text),
            ParseError::Percent => String::from_str(
                "Failed to parse disk free percent from ",
            ).concat(text).concat(". it should be usize"),
            ParseError::PercentRange => String::from_str(
                "disk free percent should be between 0 and 100",
            ),
        }
    }
}

} // verus!
