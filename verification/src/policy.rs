//! The retention policy and the files that it condemns.
//!
//! The policy is asked about a list that stands by rising age, the newest
//! file first: the place of a record in it counts the files that are newer.

use crate::days::DaysSec;
use crate::disk::DiskFreePercent;
use crate::disk::DiskInfo;
use crate::file::FileInfo;
use crate::file_size::FileSize;
use crate::order::annotate;
use crate::order::count_file_size;
use crate::order::newest_first;
use crate::order::sort_by_age;
use crate::order::total_len;
use vstd::prelude::*;

verus! {

/// Up to four thresholds. One that is absent condemns nothing.
#[derive(Debug, Clone, Copy, PartialEq, Eq, Structural)]
pub struct RetentionPolicy {
    /// How many of the newest files are kept.
    pub keep_count: Option<usize>,
    /// The age beyond which a file goes.
    pub max_age: Option<DaysSec>,
    /// The budget for the running total of sizes, counted from the oldest file.
    pub max_total: Option<FileSize>,
    /// The share of the disk that should be free.
    pub min_free: Option<DiskFreePercent>,
}

impl RetentionPolicy {
    /// The file at `index`, counted from the newest, is not among the
    /// `keep_count` newest.
    pub open spec fn too_many(self, index: int) -> bool {
        match self.keep_count {
            Some(keep) => index >= keep,
            None => false,
        }
    }

    /// The file is older than `max_age`.
    pub open spec fn too_old(self, file: FileInfo) -> bool {
        match self.max_age {
            Some(days) => file.elapsed > days.day_sec,
            None => false,
        }
    }

    /// The sizes of this file and of every older one exceed `max_total`.
    pub open spec fn too_big(self, file: FileInfo) -> bool {
        match self.max_total {
            Some(budget) => file.acc_len > budget.size,
            None => false,
        }
    }

    /// Even without this file and every newer one, no more than the wanted
    /// share of the disk would be available.
    pub open spec fn disk_too_full(self, disk: Option<DiskInfo>, file: FileInfo) -> bool {
        match (self.min_free, disk) {
            (Some(free), Some(info)) => info.available + file.reverse_acc_len
                <= info.needed_bytes(free.percent),
            _ => false,
        }
    }

    /// At least one threshold rules out the file, which stands at `index`.
    pub open spec fn condemns(self, disk: Option<DiskInfo>, file: FileInfo, index: int) -> bool {
        ||| self.too_many(index)
        ||| self.too_old(file)
        ||| self.too_big(file)
        ||| self.disk_too_full(disk, file)
    }

    /// Decides on the file at `index` of a list that stands newest first.
    pub fn is_condemned(&self, disk: &Option<DiskInfo>, file: &FileInfo, index: usize) -> (condemned:
        bool)
        ensures
            condemned == self.condemns(*disk, *file, index as int),
    {
        let too_many = match self.keep_count {
            Some(keep) => index >= keep,
            None => false,
        };
        let too_old = match self.max_age {
            Some(days) => file.elapsed > days.day_sec,
            None => false,
        };
        let too_big = match self.max_total {
            Some(budget) => file.acc_len > budget.size,
            None => false,
        };
        let disk_too_full = match (self.min_free, disk) {
            (Some(free), Some(info)) => {
                let projected: u128 = info.available as u128 + file.reverse_acc_len as u128;
                projected <= info.needed(free.percent)
            },
            _ => false,
        };
        too_many || too_old || too_big || disk_too_full
    }
}

/// The condemned among the first `upto` records of `files`, in the order
/// of the list.
pub open spec fn evicted_upto(
    files: Seq<FileInfo>,
    policy: RetentionPolicy,
    disk: Option<DiskInfo>,
    upto: int,
) -> Seq<FileInfo>
    decreases upto,
{
    if upto <= 0 {
        Seq::empty()
    } else if policy.condemns(disk, files[upto - 1], upto - 1) {
        evicted_upto(files, policy, disk, upto - 1).push(files[upto - 1])
    } else {
        evicted_upto(files, policy, disk, upto - 1)
    }
}

/// The condemned records of `files`, in the order of the list: newest
/// first, where the list stands so.
pub open spec fn evicted(
    files: Seq<FileInfo>,
    policy: RetentionPolicy,
    disk: Option<DiskInfo>,
) -> Seq<FileInfo> {
    evicted_upto(files, policy, disk, files.len() as int)
}

/// A record that any one threshold rules out is condemned, whatever the
/// other thresholds say of it; one that none rules out is not.
pub proof fn lemma_one_criterion_suffices(
    policy: RetentionPolicy,
    disk: Option<DiskInfo>,
    file: FileInfo,
    index: int,
)
    ensures
        policy.too_many(index) ==> policy.condemns(disk, file, index),
        policy.too_old(file) ==> policy.condemns(disk, file, index),
        policy.too_big(file) ==> policy.condemns(disk, file, index),
        policy.disk_too_full(disk, file) ==> policy.condemns(disk, file, index),
        policy.condemns(disk, file, index) ==> policy.too_many(index) || policy.too_old(file)
            || policy.too_big(file) || policy.disk_too_full(disk, file),
{
}

/// A threshold that is absent rules out no file.
pub proof fn lemma_absent_threshold_keeps(
    policy: RetentionPolicy,
    disk: Option<DiskInfo>,
    file: FileInfo,
    index: int,
)
    ensures
        policy.keep_count is None ==> !policy.too_many(index),
        policy.max_age is None ==> !policy.too_old(file),
        policy.max_total is None ==> !policy.too_big(file),
        policy.min_free is None || disk is None ==> !policy.disk_too_full(disk, file),
{
}

/// The age limit is strict: a file exactly as old as the limit stays, a
/// file one second older goes.
pub proof fn lemma_age_limit_is_strict(policy: RetentionPolicy, file: FileInfo)
    requires
        policy.max_age is Some,
    ensures
        file.elapsed == policy.max_age.unwrap().day_sec ==> !policy.too_old(file),
        file.elapsed == policy.max_age.unwrap().day_sec + 1 ==> policy.too_old(file),
{
}

/// Counted from the oldest of `count` files, the count threshold condemns
/// the file at a place in front of `count - keep_count`: every file but the
/// `keep_count` newest.
pub proof fn lemma_count_keeps_newest(policy: RetentionPolicy, index: int, count: int)
    requires
        policy.keep_count is Some,
        0 <= index < count,
    ensures
        policy.too_many(index) <==> (count - 1 - index) < count - policy.keep_count.unwrap(),
{
}

/// `file` is a condemned record of `files` in front of `upto`.
pub open spec fn condemned_before(
    files: Seq<FileInfo>,
    policy: RetentionPolicy,
    disk: Option<DiskInfo>,
    upto: int,
    file: FileInfo,
) -> bool {
    exists|i: int|
        0 <= i < upto && i < files.len() && policy.condemns(disk, files[i], i)
            && #[trigger] files[i] == file
}

/// The evicted records are the condemned records, all of them and no others.
pub proof fn lemma_evicted_upto_members(
    files: Seq<FileInfo>,
    policy: RetentionPolicy,
    disk: Option<DiskInfo>,
    upto: int,
)
    requires
        0 <= upto <= files.len(),
    ensures
        evicted_upto(files, policy, disk, upto).len() <= upto,
        forall|file: FileInfo| #[trigger]
            evicted_upto(files, policy, disk, upto).contains(file) <==> condemned_before(
                files,
                policy,
                disk,
                upto,
                file,
            ),
    decreases upto,
{
    let out = evicted_upto(files, policy, disk, upto);
    if upto > 0 {
        let rest = evicted_upto(files, policy, disk, upto - 1);
        lemma_evicted_upto_members(files, policy, disk, upto - 1);
        let last_goes = policy.condemns(disk, files[upto - 1], upto - 1);
        assert forall|file: FileInfo| #[trigger]
            out.contains(file) <==> condemned_before(files, policy, disk, upto, file) by {
            if out.contains(file) {
                let k = choose|k: int| 0 <= k < out.len() && out[k] == file;
                if last_goes && k == rest.len() {
                    assert(files[upto - 1] == file);
                } else {
                    assert(rest[k] == file);
                    assert(rest.contains(file));
                    let i = choose|i: int|
                        0 <= i < upto - 1 && i < files.len() && policy.condemns(
                            disk,
                            files[i],
                            i,
                        ) && #[trigger] files[i] == file;
                    assert(files[i] == file);
                }
            }
            if condemned_before(files, policy, disk, upto, file) {
                let i = choose|i: int|
                    0 <= i < upto && i < files.len() && policy.condemns(disk, files[i], i)
                        && #[trigger] files[i] == file;
                if i == upto - 1 {
                    assert(out[rest.len() as int] == file);
                } else {
                    assert(condemned_before(files, policy, disk, upto - 1, file));
                    assert(rest.contains(file));
                    let r = choose|r: int| 0 <= r < rest.len() && rest[r] == file;
                    assert(out[r] == file);
                }
            }
        }
    }
}

/// The evicted list holds exactly the condemned records.
pub proof fn lemma_evicted_members(
    files: Seq<FileInfo>,
    policy: RetentionPolicy,
    disk: Option<DiskInfo>,
)
    ensures
        evicted(files, policy, disk).len() <= files.len(),
        forall|file: FileInfo| #[trigger]
            evicted(files, policy, disk).contains(file) <==> condemned_before(
                files,
                policy,
                disk,
                files.len() as int,
                file,
            ),
{
    lemma_evicted_upto_members(files, policy, disk, files.len() as int);
}

/// The evicted records of a list that stands newest first stand newest
/// first, and none of them is older than the record at `upto`.
pub proof fn lemma_evicted_upto_newest_first(
    files: Seq<FileInfo>,
    policy: RetentionPolicy,
    disk: Option<DiskInfo>,
    upto: int,
)
    requires
        0 <= upto <= files.len(),
        newest_first(files),
    ensures
        newest_first(evicted_upto(files, policy, disk, upto)),
        forall|k: int|
            0 <= k < evicted_upto(files, policy, disk, upto).len() && upto < files.len()
                ==> evicted_upto(files, policy, disk, upto)[k].elapsed <= files[upto].elapsed,
    decreases upto,
{
    if upto > 0 {
        let out = evicted_upto(files, policy, disk, upto);
        let rest = evicted_upto(files, policy, disk, upto - 1);
        lemma_evicted_upto_newest_first(files, policy, disk, upto - 1);
        let last_goes = policy.condemns(disk, files[upto - 1], upto - 1);
        assert forall|i: int, j: int| 0 <= i < j < out.len() implies out[i].elapsed
            <= out[j].elapsed by {
            assert(out[i] == rest[i]);
            if j < rest.len() {
                assert(out[j] == rest[j]);
            }
        }
        assert forall|k: int| 0 <= k < out.len() && upto < files.len() implies out[k].elapsed
            <= files[upto].elapsed by {
            if k < rest.len() {
                assert(out[k] == rest[k]);
            }
        }
    }
}

/// The condemned files come out newest first.
pub proof fn lemma_evicted_newest_first(
    files: Seq<FileInfo>,
    policy: RetentionPolicy,
    disk: Option<DiskInfo>,
)
    requires
        newest_first(files),
    ensures
        newest_first(evicted(files, policy, disk)),
{
    lemma_evicted_upto_newest_first(files, policy, disk, files.len() as int);
}

/// Picks the condemned out of an annotated list, in the order of the list:
/// newest first, where the list stands so.
pub fn evict(files: Vec<FileInfo>, policy: &RetentionPolicy, disk: &Option<DiskInfo>) -> (out:
    Vec<FileInfo>)
    ensures
        out@ == evicted(files@, *policy, *disk),
        newest_first(files@) ==> newest_first(out@),
{
    let ghost input = files@;
    let count = files.len();
    let mut files = files;
    let mut last_first: Vec<FileInfo> = Vec::new();
    while files.len() > 0
        invariant
            count == input.len(),
            files@.len() + last_first@.len() == input.len(),
            files@ == input.take(files@.len() as int),
            forall|j: int|
                0 <= j < last_first@.len() ==> last_first@[j] == input[input.len() - 1 - j],
        decreases files@.len(),
    {
        let file = files.pop().unwrap();
        proof {
            assert(files@ =~= input.take(files@.len() as int));
        }
        last_first.push(file);
    }
    let mut out: Vec<FileInfo> = Vec::new();
    let mut index: usize = 0;
    while last_first.len() > 0
        invariant
            count == input.len(),
            index + last_first@.len() == input.len(),
            forall|j: int|
                0 <= j < last_first@.len() ==> last_first@[j] == input[input.len() - 1 - j],
            out@ == evicted_upto(input, *policy, *disk, index as int),
        decreases last_first@.len(),
    {
        let file = last_first.pop().unwrap();
        if policy.is_condemned(disk, &file, index) {
            out.push(file);
        }
        index += 1;
    }
    proof {
        if newest_first(input) {
            lemma_evicted_newest_first(input, *policy, *disk);
        }
    }
    out
}

/// The files of a directory that the policy condemns, newest first.
///
/// The candidates come in any order. They are put by rising age and
/// annotated with their running totals before the policy is asked.
pub fn list_file(paths: Vec<FileInfo>, policy: &RetentionPolicy, disk: &Option<DiskInfo>) -> (files:
    Vec<FileInfo>)
    requires
        total_len(paths@) <= u64::MAX,
    ensures
        files@ == evicted(annotate(sort_by_age(paths@)), *policy, *disk),
        newest_first(files@),
{
    let mut paths = paths;
    count_file_size(&mut paths);
    evict(paths, policy, disk)
}

} // verus!
