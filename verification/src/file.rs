//! One candidate file and how it is made from what the file system reports.

use std::path::PathBuf;
use vstd::prelude::*;
use vstd::string::StrSliceExecFns;
use vstd::string::StringExecFns;

verus! {

/// `std::path::PathBuf`, declared so that a record can carry one. Nothing
/// here looks inside a path.
#[verifier::external_type_specification]
#[verifier::external_body]
pub struct ExPathBuf(PathBuf);

/// One regular file of the directory.
///
/// `acc_len` and `reverse_acc_len` are running totals of `len` over the
/// ordered list of candidates; they are zero until the list is annotated.
#[derive(Debug)]
pub struct FileInfo {
    /// Where the file is; used to show or delete it.
    pub entry: PathBuf,
    /// Seconds since the file's reference time.
    pub elapsed: u64,
    /// Size in bytes.
    pub len: u64,
    /// Bytes held by this file and every older one.
    pub acc_len: u64,
    /// Bytes held by this file and every newer one.
    pub reverse_acc_len: u64,
}

/// Why a directory entry is no candidate.
#[derive(Debug, Clone, Copy, PartialEq, Eq, Structural)]
pub enum MyError {
    /// The entry is not a regular file.
    NotFile,
    /// The file system reports none of the three timestamps.
    NoTimestamp,
}

impl MyError {
    /// The words that say what went wrong.
    pub open spec fn message_text(self) -> Seq<char> {
        match self {
            MyError::NotFile => "invalid first item to double"@,
            MyError::NoTimestamp => "no timestamp of the file is known"@,
        }
    }

    /// What to tell the user.
    pub fn message(&self) -> (message: String)
        ensures
            message@ == self.message_text(),
    {
        match self {
            MyError::NotFile => String::from_str("invalid first item to double"),
            MyError::NoTimestamp => String::from_str("no timestamp of the file is known"),
        }
    }
}

/// The timestamp that counts for a directory entry: of a regular file the
/// creation, else the last modification, else the last access.
pub open spec fn reference_of<T>(
    is_file: bool,
    created: Option<T>,
    modified: Option<T>,
    accessed: Option<T>,
) -> Result<T, MyError> {
    if !is_file {
        Err(MyError::NotFile)
    } else if created is Some {
        Ok(created.unwrap())
    } else if modified is Some {
        Ok(modified.unwrap())
    } else if accessed is Some {
        Ok(accessed.unwrap())
    } else {
        Err(MyError::NoTimestamp)
    }
}

/// Picks the timestamp that counts among those that the file system has.
pub fn reference_time<T>(
    is_file: bool,
    created: Option<T>,
    modified: Option<T>,
    accessed: Option<T>,
) -> (time: Result<T, MyError>)
    ensures
        time == reference_of(is_file, created, modified, accessed),
{
    if !is_file {
        return Err(MyError::NotFile);
    }
    match created {
        Some(time) => Ok(time),
        None => match modified {
            Some(time) => Ok(time),
            None => match accessed {
                Some(time) => Ok(time),
                None => Err(MyError::NoTimestamp),
            },
        },
    }
}

/// The candidate that one directory entry makes: none for what is no
/// regular file, none for a file whose age is not known.
pub open spec fn candidate(
    entry: PathBuf,
    is_file: bool,
    elapsed: Option<u64>,
    len: u64,
) -> Result<FileInfo, MyError> {
    if !is_file {
        Err(MyError::NotFile)
    } else {
        match elapsed {
            Some(elapsed) => Ok(FileInfo { entry, elapsed, len, acc_len: 0, reverse_acc_len: 0 }),
            None => Err(MyError::NoTimestamp),
        }
    }
}

/// Makes the candidate for one directory entry.
///
/// `elapsed` is the time in seconds since the timestamp that
/// `reference_time` picked, where it picked one.
pub fn parse_file(entry: PathBuf, is_file: bool, elapsed: Option<u64>, len: u64) -> (info: Result<
    FileInfo,
    MyError,
>)
    ensures
        info == candidate(entry, is_file, elapsed, len),
{
    if !is_file {
        return Err(MyError::NotFile);
    }
    match elapsed {
        Some(elapsed) => Ok(FileInfo { entry, elapsed, len, acc_len: 0, reverse_acc_len: 0 }),
        None => Err(MyError::NoTimestamp),
    }
}

/// Whether a file of this name is wanted: its name starts with `prefix`.
pub fn has_prefix(name: &str, prefix: &str) -> (wanted: bool)
    ensures
        wanted == prefix@.is_prefix_of(name@),
{
    let n = prefix.unicode_len();
    if name.unicode_len() < n {
        return false;
    }
    let mut i: usize = 0;
    while i < n
        invariant
            n == prefix@.len(),
            n <= name@.len(),
            i <= n,
            forall|j: int| 0 <= j < i ==> prefix@[j] == name@[j],
        decreases n - i,
    {
        if prefix.get_char(i) != name.get_char(i) {
            assert(name@.subrange(0, n as int)[i as int] != prefix@[i as int]);
            return false;
        }
        i += 1;
    }
    assert(prefix@ =~= name@.subrange(0, n as int));
    true
}

} // verus!
