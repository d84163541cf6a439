//! A size budget, written as gigabytes, megabytes and kilobytes.

use crate::error::ParseError;
use crate::number::as_u64;
use crate::number::parse_u64;
use vstd::prelude::*;

verus! {

/// Bytes in a kilobyte.
pub const KILO: u64 = 1024;

/// Bytes in a megabyte.
pub const MEGA: u64 = 1048576;

/// Bytes in a gigabyte.
pub const GIGA: u64 = 1073741824;

/// A size in bytes.
#[derive(Debug, Clone, Copy, PartialEq, Eq, Structural)]
pub struct FileSize {
    pub size: u64,
}

/// The pattern of a size: three numbers, followed by `g`, `m` and `k` in
/// either case.
pub const SIZE_PATTERN: &'static str = "([0-9]+)[gG]([0-9]+)[mM]([0-9]+)[kK]";

/// The error that `regex::Regex::new` gives for a pattern that it refuses.
#[verifier::external_type_specification]
#[verifier::external_body]
pub struct ExRegexError(regex::Error);

/// Whether `regex::Regex::new` accepts the pattern.
pub uninterp spec fn regex_compiles(pattern: Seq<char>) -> bool;

/// What `regex::Regex::captures` finds of an accepted pattern in a text:
/// nothing, or the leftmost match with the text of every group, the whole
/// match first; a group that took no part in the match has no text.
pub uninterp spec fn regex_captures(pattern: Seq<char>, text: Seq<char>) -> Option<
    Seq<Option<Seq<char>>>,
>;

/// Compiles `pattern` with `regex::Regex::new` and searches `text` with
/// `regex::Regex::captures`. The groups are read with `regex::Captures::iter`
/// and `regex::Match::as_str`.
///
/// Nothing is proved of this function. Its contract claims that the outcome
/// depends on the two texts alone: the pattern is refused exactly if
/// `regex_compiles` says so, and what is found is `regex_captures`.
#[verifier::external_body]
fn captures(pattern: &str, text: &str) -> (found: Result<Option<Vec<Option<String>>>, regex::Error>)
    ensures
        found is Ok <==> regex_compiles(pattern@),
        found matches Ok(groups) ==> groups.deep_view() == regex_captures(pattern@, text@),
{
    let re = regex::Regex::new(pattern)?;
    Ok(re.captures(text).map(|caps| caps.iter().map(|m| m.map(|m| m.as_str().to_owned())).collect()))
}

/// The number in group `index`; a group that is missing counts as zero.
pub open spec fn group_number(groups: Seq<Option<Seq<char>>>, index: int) -> Option<u64> {
    if 0 <= index < groups.len() && groups[index] is Some {
        as_u64(groups[index].unwrap())
    } else {
        Some(0)
    }
}

/// The size that gigabytes, megabytes and kilobytes add up to.
pub open spec fn bytes_of(giga: u64, mega: u64, kilo: u64) -> int {
    giga * GIGA + mega * MEGA + kilo * KILO
}

/// The size that the groups of a match stand for: group 1 counts
/// gigabytes, group 2 megabytes, group 3 kilobytes.
pub open spec fn size_of_groups(groups: Seq<Option<Seq<char>>>) -> Result<FileSize, ParseError> {
    match (group_number(groups, 1), group_number(groups, 2), group_number(groups, 3)) {
        (Some(giga), Some(mega), Some(kilo)) => if bytes_of(giga, mega, kilo) <= u64::MAX {
            Ok(FileSize { size: bytes_of(giga, mega, kilo) as u64 })
        } else {
            Err(ParseError::Size)
        },
        _ => Err(ParseError::Size),
    }
}

/// The size that the outcome of a search with the size pattern stands for.
pub open spec fn size_of_search(
    compiles: bool,
    found: Option<Seq<Option<Seq<char>>>>,
) -> Result<FileSize, ParseError> {
    if !compiles {
        Err(ParseError::Pattern)
    } else {
        match found {
            Some(groups) => size_of_groups(groups),
            None => Err(ParseError::Size),
        }
    }
}

/// Searches `text` for the first match of `pattern` and gives the text of
/// each group, the whole match first.
pub fn search(pattern: &str, text: &str) -> (found: Result<Option<Vec<Option<String>>>, ParseError>)
    ensures
        found is Ok <==> regex_compiles(pattern@),
        found matches Ok(groups) ==> groups.deep_view() == regex_captures(pattern@, text@),
        found matches Err(e) ==> e == ParseError::Pattern,
{
    match captures(pattern, text) {
        Ok(groups) => Ok(groups),
        Err(_) => Err(ParseError::Pattern),
    }
}

fn number_in_group(groups: &Vec<Option<String>>, index: usize) -> (number: Option<u64>)
    ensures
        number == group_number(groups.deep_view(), index as int),
{
    if index < groups.len() {
        match &groups[index] {
            Some(text) => parse_u64(text.as_str()),
            None => Some(0),
        }
    } else {
        Some(0)
    }
}

/// Adds up the three numbers of a match.
pub fn size_from_groups(groups: &Vec<Option<String>>) -> (size: Result<FileSize, ParseError>)
    ensures
        size == size_of_groups(groups.deep_view()),
{
    let giga = number_in_group(groups, 1);
    let mega = number_in_group(groups, 2);
    let kilo = number_in_group(groups, 3);
    match (giga, mega, kilo) {
        (Some(giga), Some(mega), Some(kilo)) => {
            let bytes: u128 = giga as u128 * (GIGA as u128) + mega as u128 * (MEGA as u128)
                + kilo as u128 * (KILO as u128);
            if bytes <= u64::MAX as u128 {
                Ok(FileSize { size: bytes as u64 })
            } else {
                Err(ParseError::Size)
            }
        },
        _ => Err(ParseError::Size),
    }
}

/// Reads a size such as `2g3M4k`: the first place in the text where the
/// size pattern matches counts.
pub fn parse_max_size(s: &str) -> (size: Result<FileSize, ParseError>)
    ensures
        size == size_of_search(
            regex_compiles(SIZE_PATTERN@),
            regex_captures(SIZE_PATTERN@, s@),
        ),
{
    match search(SIZE_PATTERN, s) {
        Ok(Some(groups)) => size_from_groups(&groups),
        Ok(None) => Err(ParseError::Size),
        Err(e) => Err(e),
    }
}

impl std::str::FromStr for FileSize {
    type Err = ParseError;

    fn from_str(s: &str) -> (size: Result<Self, Self::Err>)
        ensures
            size == size_of_search(
                regex_compiles(SIZE_PATTERN@),
                regex_captures(SIZE_PATTERN@, s@),
            ),
    {
        parse_max_size(s)
    }
}

} // verus!
