//! Ordering the candidates by age and annotating them with running totals.
//!
//! The list stands by rising `elapsed`: the newest file first, the oldest
//! last. Behind a record stand the older ones, before it the newer ones.

use crate::file::FileInfo;
use vstd::prelude::*;

verus! {

/// The bytes that the records of `s` hold together.
pub open spec fn total_len(s: Seq<FileInfo>) -> int
    decreases s.len(),
{
    if s.len() == 0 {
        0
    } else {
        total_len(s.drop_last()) + s.last().len
    }
}

/// The list stands by rising `elapsed`: no record stands before a newer one.
pub open spec fn newest_first(s: Seq<FileInfo>) -> bool {
    forall|i: int, j: int| 0 <= i < j < s.len() ==> s[i].elapsed <= s[j].elapsed
}

/// How many records at the head of `s` are strictly newer than `age`.
pub open spec fn newer_prefix(s: Seq<FileInfo>, age: u64) -> int
    decreases s.len(),
{
    if s.len() == 0 || s[0].elapsed >= age {
        0
    } else {
        1 + newer_prefix(s.drop_first(), age)
    }
}

/// `s` with `f` put behind the strictly newer records at its head.
pub open spec fn place_by_age(s: Seq<FileInfo>, f: FileInfo) -> Seq<FileInfo> {
    s.insert(newer_prefix(s, f.elapsed), f)
}

/// The records of `s` by rising `elapsed`, the newest first; records of one
/// age keep the order they had.
pub open spec fn sort_by_age(s: Seq<FileInfo>) -> Seq<FileInfo>
    decreases s.len(),
{
    if s.len() == 0 {
        s
    } else {
        place_by_age(sort_by_age(s.drop_first()), s[0])
    }
}

/// The record at `i` with both running totals over `s` filled in.
pub open spec fn annotated(s: Seq<FileInfo>, i: int) -> FileInfo {
    FileInfo {
        entry: s[i].entry,
        elapsed: s[i].elapsed,
        len: s[i].len,
        acc_len: total_len(s.skip(i)) as u64,
        reverse_acc_len: total_len(s.take(i + 1)) as u64,
    }
}

/// Every record of `s` with its running totals: `acc_len` counts the record
/// and every record behind it, `reverse_acc_len` the record and every
/// record before it.
pub open spec fn annotate(s: Seq<FileInfo>) -> Seq<FileInfo> {
    Seq::new(s.len(), |i: int| annotated(s, i))
}

/// The record without its running totals.
pub open spec fn bare(f: FileInfo) -> FileInfo {
    FileInfo { entry: f.entry, elapsed: f.elapsed, len: f.len, acc_len: 0, reverse_acc_len: 0 }
}

/// The records of `s` without their running totals.
pub open spec fn all_bare(s: Seq<FileInfo>) -> Seq<FileInfo> {
    Seq::new(s.len(), |i: int| bare(s[i]))
}

/// The record at `i` with only `acc_len` filled in.
pub open spec fn half_annotated(s: Seq<FileInfo>, i: int) -> FileInfo {
    FileInfo {
        entry: s[i].entry,
        elapsed: s[i].elapsed,
        len: s[i].len,
        acc_len: total_len(s.skip(i)) as u64,
        reverse_acc_len: s[i].reverse_acc_len,
    }
}

/// No total is negative.
pub proof fn lemma_total_len_nonnegative(s: Seq<FileInfo>)
    ensures
        total_len(s) >= 0,
    decreases s.len(),
{
    if s.len() > 0 {
        lemma_total_len_nonnegative(s.drop_last());
    }
}

/// A list of one record holds that record's length.
pub proof fn lemma_total_len_single(f: FileInfo)
    ensures
        total_len(seq![f]) == f.len,
{
    reveal_with_fuel(total_len, 2);
    assert(seq![f].drop_last() =~= Seq::<FileInfo>::empty());
}

/// The total of two lists in a row is the sum of their totals.
pub proof fn lemma_total_len_concat(a: Seq<FileInfo>, b: Seq<FileInfo>)
    ensures
        total_len(a + b) == total_len(a) + total_len(b),
    decreases b.len(),
{
    if b.len() == 0 {
        assert(a + b =~= a);
    } else {
        assert((a + b).drop_last() =~= a + b.drop_last());
        lemma_total_len_concat(a, b.drop_last());
    }
}

/// Cutting a list in two at any place keeps the total.
pub proof fn lemma_total_len_split(s: Seq<FileInfo>, i: int)
    requires
        0 <= i <= s.len(),
    ensures
        total_len(s) == total_len(s.take(i)) + total_len(s.skip(i)),
        0 <= total_len(s.take(i)) <= total_len(s),
        0 <= total_len(s.skip(i)) <= total_len(s),
{
    assert(s =~= s.take(i) + s.skip(i));
    lemma_total_len_concat(s.take(i), s.skip(i));
    lemma_total_len_nonnegative(s.take(i));
    lemma_total_len_nonnegative(s.skip(i));
}

/// One more record at either end of a range adds its length to the range's total.
pub proof fn lemma_total_len_step(s: Seq<FileInfo>, i: int)
    requires
        0 <= i < s.len(),
    ensures
        total_len(s.take(i + 1)) == total_len(s.take(i)) + s[i].len,
        total_len(s.skip(i)) == s[i].len + total_len(s.skip(i + 1)),
{
    assert(s.take(i + 1).drop_last() =~= s.take(i));
    let one = seq![s[i]];
    lemma_total_len_single(s[i]);
    assert(s.skip(i) =~= one + s.skip(i + 1));
    lemma_total_len_concat(one, s.skip(i + 1));
}

/// Where `newer_prefix` points: behind every strictly newer record at the
/// head, and in front of a record that is not.
pub proof fn lemma_newer_prefix(s: Seq<FileInfo>, age: u64)
    ensures
        0 <= newer_prefix(s, age) <= s.len(),
        forall|j: int| 0 <= j < newer_prefix(s, age) ==> s[j].elapsed < age,
        newer_prefix(s, age) < s.len() ==> s[newer_prefix(s, age)].elapsed >= age,
    decreases s.len(),
{
    if s.len() == 0 || s[0].elapsed >= age {
    } else {
        let rest = s.drop_first();
        lemma_newer_prefix(rest, age);
        assert forall|j: int| 0 <= j < newer_prefix(s, age) implies s[j].elapsed < age by {
            if j > 0 {
                assert(s[j] == rest[j - 1]);
            }
        }
        if newer_prefix(s, age) < s.len() {
            assert(s[newer_prefix(s, age)] == rest[newer_prefix(rest, age)]);
        }
    }
}

/// The one place that is behind strictly newer records only and in front of
/// a record that is not strictly newer is `newer_prefix`.
pub proof fn lemma_newer_prefix_is(s: Seq<FileInfo>, age: u64, p: int)
    requires
        0 <= p <= s.len(),
        forall|j: int| 0 <= j < p ==> s[j].elapsed < age,
        p < s.len() ==> s[p].elapsed >= age,
    ensures
        newer_prefix(s, age) == p,
    decreases s.len(),
{
    if p > 0 {
        let rest = s.drop_first();
        assert(s[0].elapsed < age);
        assert forall|j: int| 0 <= j < p - 1 implies rest[j].elapsed < age by {
            assert(rest[j] == s[j + 1]);
        }
        if p - 1 < rest.len() {
            assert(rest[p - 1] == s[p]);
        }
        lemma_newer_prefix_is(rest, age, p - 1);
    }
}

/// Placing a record keeps an ordered list ordered, adds the record and
/// nothing else, and adds its length to the total.
pub proof fn lemma_place_by_age(s: Seq<FileInfo>, f: FileInfo)
    ensures
        place_by_age(s, f).len() == s.len() + 1,
        place_by_age(s, f).to_multiset() == s.to_multiset().insert(f),
        total_len(place_by_age(s, f)) == total_len(s) + f.len,
        newest_first(s) ==> newest_first(place_by_age(s, f)),
{
    let p = newer_prefix(s, f.elapsed);
    let placed = place_by_age(s, f);
    lemma_newer_prefix(s, f.elapsed);
    s.insert_ensures(p, f);
    vstd::seq_lib::to_multiset_insert(s, p, f);
    assert(total_len(placed) == total_len(s) + f.len) by {
        let head = s.take(p);
        let tail = s.skip(p);
        assert(placed =~= head.push(f) + tail);
        assert(head.push(f).drop_last() =~= head);
        lemma_total_len_concat(head.push(f), tail);
        lemma_total_len_split(s, p);
    }
    if newest_first(s) {
        assert forall|i: int, j: int| 0 <= i < j < placed.len() implies placed[i].elapsed
            <= placed[j].elapsed by {
            if j < p {
                assert(placed[i] == s[i] && placed[j] == s[j]);
            } else if j == p {
                assert(placed[i] == s[i]);
            } else if i < p {
                assert(placed[i] == s[i] && placed[j] == s[j - 1]);
            } else if i == p {
                assert(placed[j] == s[j - 1]);
                assert(s[p].elapsed <= s[j - 1].elapsed || p == j - 1);
            } else {
                assert(placed[i] == s[i - 1] && placed[j] == s[j - 1]);
            }
        }
    }
}

/// Sorting yields an ordered list of the same records, and so of the same total.
pub proof fn lemma_sort_by_age(s: Seq<FileInfo>)
    ensures
        newest_first(sort_by_age(s)),
        sort_by_age(s).len() == s.len(),
        sort_by_age(s).to_multiset() == s.to_multiset(),
        total_len(sort_by_age(s)) == total_len(s),
    decreases s.len(),
{
    if s.len() > 0 {
        let rest = s.drop_first();
        lemma_sort_by_age(rest);
        lemma_place_by_age(sort_by_age(rest), s[0]);
        let one = seq![s[0]];
        assert(s =~= one + rest);
        assert(total_len(s) == total_len(rest) + s[0].len) by {
            lemma_total_len_single(s[0]);
            lemma_total_len_concat(one, rest);
        }
        assert(s.to_multiset() == rest.to_multiset().insert(s[0])) by {
            assert(s =~= rest.insert(0, s[0]));
            vstd::seq_lib::to_multiset_insert(rest, 0, s[0]);
        }
    } else {
        assert(sort_by_age(s) == s);
    }
}

/// Sorting and annotating leave the files what they were: the list holds
/// the same records as before, but for their running totals.
pub proof fn lemma_same_files(s: Seq<FileInfo>)
    ensures
        all_bare(sort_by_age(s)).to_multiset() == all_bare(s).to_multiset(),
        all_bare(annotate(s)) == all_bare(s),
    decreases s.len(),
{
    assert(all_bare(annotate(s)) =~= all_bare(s));
    if s.len() > 0 {
        let rest = s.drop_first();
        let sorted = sort_by_age(rest);
        let p = newer_prefix(sorted, s[0].elapsed);
        lemma_same_files(rest);
        lemma_newer_prefix(sorted, s[0].elapsed);
        assert(all_bare(sort_by_age(s)) =~= all_bare(sorted).insert(p, bare(s[0])));
        assert(all_bare(s) =~= all_bare(rest).insert(0, bare(s[0])));
        vstd::seq_lib::to_multiset_insert(all_bare(sorted), p, bare(s[0]));
        vstd::seq_lib::to_multiset_insert(all_bare(rest), 0, bare(s[0]));
    }
}

/// Sorting is stable: the records of any one age stand in the order they had.
pub proof fn lemma_sort_by_age_stable(s: Seq<FileInfo>, age: u64)
    ensures
        sort_by_age(s).filter(|f: FileInfo| f.elapsed == age) == s.filter(
            |f: FileInfo| f.elapsed == age,
        ),
    decreases s.len(),
{
    let same_age = |f: FileInfo| f.elapsed == age;
    if s.len() > 0 {
        let rest = s.drop_first();
        let sorted = sort_by_age(rest);
        let one = seq![s[0]];
        lemma_sort_by_age_stable(rest, age);
        lemma_sort_by_age(rest);
        let p = newer_prefix(sorted, s[0].elapsed);
        lemma_newer_prefix(sorted, s[0].elapsed);
        let head = sorted.take(p);
        let tail = sorted.skip(p);
        assert(sort_by_age(s) =~= (head + one) + tail);
        assert(sorted =~= head + tail);
        assert(s =~= one + rest);
        Seq::filter_distributes_over_add(head + one, tail, same_age);
        Seq::filter_distributes_over_add(head, one, same_age);
        Seq::filter_distributes_over_add(head, tail, same_age);
        Seq::filter_distributes_over_add(one, rest, same_age);
        if s[0].elapsed == age {
            assert(head.all(|f: FileInfo| !same_age(f)));
            head.lemma_all_neg_filter_empty(same_age);
            assert(head.filter(same_age) =~= Seq::<FileInfo>::empty());
            assert(head.filter(same_age) + one.filter(same_age) =~= one.filter(same_age)
                + head.filter(same_age));
        } else {
            assert(one.all(|f: FileInfo| !same_age(f)));
            one.lemma_all_neg_filter_empty(same_age);
            assert(one.filter(same_age) =~= Seq::<FileInfo>::empty());
        }
        assert(sort_by_age(s).filter(same_age) =~= s.filter(same_age));
    }
}

/// From the last record of the list to the first, which is from the
/// oldest file to the newest, `acc_len` never falls and `reverse_acc_len`
/// never rises. The last record's `acc_len` and the first record's
/// `reverse_acc_len` are the record's own length.
pub open spec fn accumulators_monotone(s: Seq<FileInfo>) -> bool {
    &&& forall|i: int, j: int| 0 <= i <= j < s.len() ==> s[j].acc_len <= s[i].acc_len
    &&& forall|i: int, j: int|
        0 <= i <= j < s.len() ==> s[j].reverse_acc_len >= s[i].reverse_acc_len
    &&& s.len() > 0 ==> s.last().acc_len == s.last().len
    &&& s.len() > 0 ==> s[0].reverse_acc_len == s[0].len
}

/// The running totals of an annotated list are monotone, whatever the list.
pub proof fn lemma_annotate_monotone(s: Seq<FileInfo>)
    requires
        total_len(s) <= u64::MAX,
    ensures
        accumulators_monotone(annotate(s)),
{
    let a = annotate(s);
    assert forall|i: int, j: int| 0 <= i <= j < a.len() implies a[j].acc_len <= a[i].acc_len
        && a[j].reverse_acc_len >= a[i].reverse_acc_len by {
        lemma_total_len_split(s, j + 1);
        lemma_total_len_split(s, i);
        lemma_total_len_split(s.take(j + 1), i + 1);
        assert(s.take(j + 1).take(i + 1) =~= s.take(i + 1));
        lemma_total_len_split(s.skip(i), j - i);
        assert(s.skip(i).skip(j - i) =~= s.skip(j));
    }
    if s.len() > 0 {
        lemma_total_len_step(s, 0);
        assert(s.take(0) =~= Seq::<FileInfo>::empty());
        lemma_total_len_step(s, s.len() - 1);
        assert(s.skip(s.len() as int) =~= Seq::<FileInfo>::empty());
        lemma_total_len_split(s, 1);
        lemma_total_len_split(s, s.len() - 1);
    }
}

/// The two running totals of a record overlap in the record itself:
/// together they hold the whole list and the record once more.
pub proof fn lemma_accumulators_overlap(s: Seq<FileInfo>, i: int)
    requires
        total_len(s) <= u64::MAX,
        0 <= i < s.len(),
    ensures
        annotate(s)[i].acc_len + annotate(s)[i].reverse_acc_len == total_len(s) + s[i].len,
{
    lemma_total_len_split(s, i);
    lemma_total_len_split(s, i + 1);
    lemma_total_len_step(s, i);
}

/// Whether the lengths of all records add up to no more than a `u64` holds.
pub fn lengths_fit(paths: &Vec<FileInfo>) -> (fit: bool)
    ensures
        fit == (total_len(paths@) <= u64::MAX),
{
    let mut sum: u64 = 0;
    let mut i: usize = 0;
    while i < paths.len()
        invariant
            i <= paths@.len(),
            sum == total_len(paths@.take(i as int)),
        decreases paths@.len() - i,
    {
        proof {
            lemma_total_len_step(paths@, i as int);
            lemma_total_len_split(paths@, i + 1);
        }
        match sum.checked_add(paths[i].len) {
            Some(next) => {
                sum = next;
            },
            None => {
                return false;
            },
        }
        i += 1;
    }
    assert(paths@.take(i as int) =~= paths@);
    true
}

/// Puts the records by rising `elapsed`, the newest first, keeping records
/// of one age in their order.
pub fn sort_newest_first(paths: &mut Vec<FileInfo>)
    ensures
        final(paths)@ == sort_by_age(old(paths)@),
{
    let ghost input = paths@;
    let mut sorted: Vec<FileInfo> = Vec::new();
    assert(input.skip(input.len() as int) =~= Seq::<FileInfo>::empty());
    while paths.len() > 0
        invariant
            paths@.len() <= input.len(),
            paths@ == input.take(paths@.len() as int),
            sorted@ == sort_by_age(input.skip(paths@.len() as int)),
        decreases paths@.len(),
    {
        let file = paths.pop().unwrap();
        let mut p: usize = 0;
        proof {
            lemma_sort_by_age(input.skip(paths@.len() as int + 1));
        }
        while p < sorted.len() && sorted[p].elapsed < file.elapsed
            invariant
                p <= sorted@.len(),
                forall|j: int| 0 <= j < p ==> sorted@[j].elapsed < file.elapsed,
            decreases sorted@.len() - p,
        {
            p += 1;
        }
        proof {
            let k = paths@.len() as int;
            lemma_newer_prefix_is(sorted@, file.elapsed, p as int);
            assert(input.skip(k)[0] == file);
            assert(input.skip(k).drop_first() =~= input.skip(k + 1));
            assert(paths@ =~= input.take(k));
        }
        sorted.insert(p, file);
    }
    assert(input.skip(0) =~= input);
    *paths = sorted;
}

/// Fills in both running totals of every record, in the order the list has.
pub fn accumulate(paths: &mut Vec<FileInfo>)
    requires
        total_len(old(paths)@) <= u64::MAX,
    ensures
        final(paths)@ == annotate(old(paths)@),
{
    let ghost input = paths@;
    let mut last_first: Vec<FileInfo> = Vec::new();
    let mut acc: u64 = 0;
    assert(input.skip(input.len() as int) =~= Seq::<FileInfo>::empty());
    while paths.len() > 0
        invariant
            total_len(input) <= u64::MAX,
            paths@.len() + last_first@.len() == input.len(),
            paths@ == input.take(paths@.len() as int),
            acc == total_len(input.skip(paths@.len() as int)),
            forall|j: int|
                0 <= j < last_first@.len() ==> last_first@[j] == half_annotated(
                    input,
                    input.len() - 1 - j,
                ),
        decreases paths@.len(),
    {
        let mut file = paths.pop().unwrap();
        proof {
            let k = paths@.len() as int;
            lemma_total_len_step(input, k);
            lemma_total_len_split(input, k);
            assert(paths@ =~= input.take(k));
        }
        acc = acc + file.len;
        file.acc_len = acc;
        last_first.push(file);
    }
    let mut reverse_acc: u64 = 0;
    assert(input.take(0) =~= Seq::<FileInfo>::empty());
    while last_first.len() > 0
        invariant
            total_len(input) <= u64::MAX,
            paths@.len() + last_first@.len() == input.len(),
            reverse_acc == total_len(input.take(paths@.len() as int)),
            forall|j: int|
                0 <= j < last_first@.len() ==> last_first@[j] == half_annotated(
                    input,
                    input.len() - 1 - j,
                ),
            forall|j: int| 0 <= j < paths@.len() ==> paths@[j] == annotated(input, j),
        decreases last_first@.len(),
    {
        let mut file = last_first.pop().unwrap();
        proof {
            let k = paths@.len() as int;
            lemma_total_len_step(input, k);
            lemma_total_len_split(input, k + 1);
        }
        reverse_acc = reverse_acc + file.len;
        file.reverse_acc_len = reverse_acc;
        paths.push(file);
    }
    assert(paths@ =~= annotate(input));
}

/// Orders the candidates by rising `elapsed`, the newest first, and fills
/// in their running totals.
///
/// Afterwards `acc_len` of a record is the size of the record and of every
/// older one, `reverse_acc_len` the size of the record and of every newer one.
pub fn count_file_size(paths: &mut Vec<FileInfo>)
    requires
        total_len(old(paths)@) <= u64::MAX,
    ensures
        final(paths)@ == annotate(sort_by_age(old(paths)@)),
        final(paths)@.len() == old(paths)@.len(),
        all_bare(final(paths)@).to_multiset() == all_bare(old(paths)@).to_multiset(),
        newest_first(final(paths)@),
        accumulators_monotone(final(paths)@),
{
    proof {
        lemma_sort_by_age(paths@);
        lemma_same_files(paths@);
        lemma_same_files(sort_by_age(paths@));
        lemma_annotate_monotone(sort_by_age(paths@));
    }
    sort_newest_first(paths);
    accumulate(paths);
}

} // verus!
