//! The pitfalls that are kept.

use crate::keyed::{
    distinct_keys, find_keyed, keyed_index, keyed_put, keyed_put_all, law_put_all_replaces, put_all,
    put_keyed, Keyed,
};
use crate::memory::types::{PitfallCategory, PitfallRecord, PitfallRecordView};
use crate::paths::{join_path, path_of};
use crate::replicate::Replicate;
use crate::seqs::{first_index, lemma_first_index, lemma_take_all, lemma_take_step};
use crate::text::{
    ascii_lower, lemma_signed_decimal_tells_apart, same_ignoring_case, signed_decimal,
    signed_number, trim, trimmed,
};
use crate::walk::{filter_each, no_items, position, push_one};
use vstd::prelude::*;

verus! {

/// A pitfall that an analysis found.
#[derive(Debug, PartialEq)]
pub struct NewPitfall {
    pub category: PitfallCategory,
    pub description: String,
    pub user_correction: Option<String>,
}

/// What such a pitfall is.
#[verifier::ext_equal]
pub struct NewPitfallView {
    pub category: PitfallCategory,
    pub description: Seq<char>,
    pub user_correction: Option<Seq<char>>,
}

impl DeepView for NewPitfall {
    type V = NewPitfallView;

    open spec fn deep_view(&self) -> NewPitfallView {
        NewPitfallView {
            category: self.category,
            description: self.description@,
            user_correction: self.user_correction.deep_view(),
        }
    }
}

impl Replicate for NewPitfall {
    fn replicate(&self) -> (r: Self) {
        NewPitfall {
            category: self.category,
            description: self.description.clone(),
            user_correction: self.user_correction.replicate(),
        }
    }
}

impl Keyed for PitfallRecord {
    open spec fn key_of(v: PitfallRecordView) -> Seq<char> {
        v.id
    }

    fn key(&self) -> (r: &str) {
        self.id.as_str()
    }
}

/// The pitfalls that are kept, each under its id.
pub struct PitfallStore {
    pub base_dir: String,
    pub records: Vec<PitfallRecord>,
}

/// Where the record with a description stands; the case of ASCII letters and
/// the white space around do not matter.
pub open spec fn described(records: Seq<PitfallRecordView>, description: Seq<char>) -> Option<int> {
    first_index(
        records,
        |r: PitfallRecordView|
            ascii_lower(trimmed(r.description)) == ascii_lower(trimmed(description)),
    )
}

/// The id of the record of a pitfall that was found at `time`.
pub open spec fn record_id(time: i64) -> Seq<char> {
    "pit-"@ + signed_decimal(time as int)
}

/// The record of a new pitfall that was found at `time`.
pub open spec fn first_record(n: NewPitfallView, time: i64) -> PitfallRecordView {
    PitfallRecordView {
        id: record_id(time),
        category: n.category,
        description: n.description,
        user_correction: n.user_correction,
        occurred_at: time,
        occurrence_count: 1,
        superseded: false,
    }
}

/// The record of a pitfall that was found once more.
pub open spec fn found_again(r: PitfallRecordView, n: NewPitfallView) -> PitfallRecordView {
    PitfallRecordView {
        occurrence_count: (r.occurrence_count + 1) as u32,
        user_correction: if n.user_correction is Some {
            n.user_correction
        } else {
            r.user_correction
        },
        ..r
    }
}

/// The records after one pitfall more, and the record of it.
pub open spec fn merged_one(
    records: Seq<PitfallRecordView>,
    n: NewPitfallView,
    time: i64,
) -> (Seq<PitfallRecordView>, PitfallRecordView) {
    match described(records, n.description) {
        Some(i) => (records.update(i, found_again(records[i], n)), found_again(records[i], n)),
        None => (records.push(first_record(n, time)), first_record(n, time)),
    }
}

/// The records after several pitfalls more, and the records of these.
pub open spec fn merged(
    records: Seq<PitfallRecordView>,
    new: Seq<NewPitfallView>,
    times: Seq<i64>,
) -> (Seq<PitfallRecordView>, Seq<PitfallRecordView>)
    decreases new.len(),
{
    if new.len() == 0 {
        (records, Seq::empty())
    } else {
        let before = merged(records, new.drop_last(), times);
        let after = merged_one(before.0, new.last(), times[new.len() - 1]);
        (after.0, before.1.push(after.1))
    }
}

/// No record has come up so often that `n` times more cannot be counted.
pub open spec fn can_count(records: Seq<PitfallRecordView>, n: int) -> bool {
    forall|i: int|
        0 <= i < records.len() ==> (#[trigger] records[i]).occurrence_count + n <= u32::MAX
}

fn find_described(records: &Vec<PitfallRecord>, description: &str) -> (r: Option<usize>)
    ensures
        match r {
            Some(i) => i < records@.len() && described(records.deep_view(), description@) == Some(
                i as int,
            ),
            None => described(records.deep_view(), description@) is None,
        },
{
    let wanted = trim(description);
    let f = |r: &PitfallRecord| -> (b: bool)
        ensures
            b == (ascii_lower(trimmed(r.deep_view().description)) == ascii_lower(
                trimmed(description@),
            ))
    {
        let own = trim(r.description.as_str());
        same_ignoring_case(own.as_str(), wanted.as_str())
    };
    position(
        records.as_slice(),
        f,
        Ghost(
            |r: PitfallRecordView|
                ascii_lower(trimmed(r.description)) == ascii_lower(trimmed(description@)),
        ),
    )
}

/// The records that have come up and were not replaced.
pub open spec fn active_pitfalls(records: Seq<PitfallRecordView>) -> Seq<PitfallRecordView> {
    records.filter(|p: PitfallRecordView| p.occurrence_count > 0 && !p.superseded)
}

/// Copies of the records that have come up and were not replaced.
pub fn find_active_pitfalls(records: &Vec<PitfallRecord>) -> (r: Vec<PitfallRecord>)
    ensures
        r.deep_view() == active_pitfalls(records.deep_view()),
{
    let f = |p: &PitfallRecord| -> (r: bool)
        ensures r == (p.deep_view().occurrence_count > 0 && !p.deep_view().superseded)
    {
        p.occurrence_count > 0 && !p.superseded
    };
    filter_each(
        records.as_slice(),
        f,
        Ghost(|p: PitfallRecordView| p.occurrence_count > 0 && !p.superseded),
    )
}

/// The records, with the one under the id marked as replaced.
pub open spec fn pitfall_given_up(s: Seq<PitfallRecordView>, id: Seq<char>) -> Seq<PitfallRecordView> {
    match keyed_index::<PitfallRecord>(s, id) {
        Some(i) => s.update(i, PitfallRecordView { superseded: true, ..s[i] }),
        None => s,
    }
}

impl PitfallStore {
    /// A store below `base_dir` with no pitfalls yet.
    pub fn new(base_dir: &str) -> (r: Self)
        ensures
            r.base_dir@ == base_dir@,
            r.records.deep_view() == Seq::<PitfallRecordView>::empty(),
    {
        PitfallStore { base_dir: base_dir.to_owned(), records: no_items() }
    }

    /// Where the store is.
    pub fn base_dir(&self) -> (r: &str)
        ensures
            r@ == self.base_dir@,
    {
        self.base_dir.as_str()
    }

    /// The directory of the records.
    pub fn pitfall_dir(&self) -> (r: String)
        ensures
            r@ == path_of(path_of(self.base_dir@, "memory"@), "pitfall"@),
    {
        let memory = join_path(self.base_dir.as_str(), "memory");
        join_path(memory.as_str(), "pitfall")
    }

    /// Keeps a record in place of the one with its id.
    pub fn store(&mut self, record: &PitfallRecord)
        ensures
            final(self).base_dir == old(self).base_dir,
            final(self).records.deep_view() == keyed_put::<PitfallRecord>(
                old(self).records.deep_view(),
                record.deep_view(),
            ),
    {
        put_keyed(&mut self.records, record.replicate());
    }

    /// All records.
    pub fn load_all(&self) -> (r: Vec<PitfallRecord>)
        ensures
            r.deep_view() == self.records.deep_view(),
    {
        self.records.replicate()
    }

    /// The records of a category.
    pub fn load_by_category(&self, category: PitfallCategory) -> (r: Vec<PitfallRecord>)
        ensures
            r.deep_view() == self.records.deep_view().filter(
                |p: PitfallRecordView| p.category == category,
            ),
    {
        let f = |p: &PitfallRecord| -> (r: bool)
            ensures r == (p.deep_view().category == category)
        {
            p.category == category
        };
        filter_each(
            self.records.as_slice(),
            f,
            Ghost(|p: PitfallRecordView| p.category == category),
        )
    }

    /// The records that have come up and were not replaced.
    pub fn load_active(&self) -> (r: Vec<PitfallRecord>)
        ensures
            r.deep_view() == active_pitfalls(self.records.deep_view()),
    {
        find_active_pitfalls(&self.records)
    }

    /// Marks the record with the id as replaced, where there is one.
    pub fn mark_superseded(&mut self, id: &str)
        ensures
            final(self).base_dir == old(self).base_dir,
            final(self).records.deep_view() == pitfall_given_up(old(self).records.deep_view(), id@),
    {
        if let Some(i) = find_keyed(&self.records, id) {
            let ghost before = self.records.deep_view();
            let mut record = self.records[i].replicate();
            record.superseded = true;
            self.records.set(i, record);
            assert(before[i as int] == old(self).records@[i as int].deep_view());
            assert(record.deep_view() =~= (PitfallRecordView {
                superseded: true,
                ..before[i as int]
            }));
            assert(self.records.deep_view() =~= before.update(i as int, record.deep_view()));
        }
    }

    /// Merges pitfalls that an analysis found, each at its time: one whose
    /// description is there is counted once more, any other is new. Gives the
    /// records of them.
    pub fn merge_analysis(&mut self, new_records: &Vec<NewPitfall>, times: &Vec<i64>) -> (r: Vec<
        PitfallRecord,
    >)
        requires
            times@.len() == new_records@.len(),
            new_records@.len() < u32::MAX,
            can_count(old(self).records.deep_view(), new_records@.len() as int),
        ensures
            final(self).base_dir == old(self).base_dir,
            ({
                let m = merged(old(self).records.deep_view(), new_records.deep_view(), times@);
                r.deep_view() == m.1 && final(self).records.deep_view() == keyed_put_all::<
                    PitfallRecord,
                >(old(self).records.deep_view(), m.0)
            }),
    {
        let ghost start = self.records.deep_view();
        let ghost all = new_records.deep_view();
        let total: usize = new_records.len();
        let mut existing = self.records.replicate();
        let mut r: Vec<PitfallRecord> = no_items();
        let mut i: usize = 0;
        assert(all.take(0) =~= Seq::<NewPitfallView>::empty());
        while i < total
            invariant
                i <= total == new_records@.len() == times@.len(),
                total < u32::MAX,
                all == new_records.deep_view(),
                can_count(existing.deep_view(), total - i),
                (existing.deep_view(), r.deep_view()) == merged(start, all.take(i as int), times@),
            decreases total - i,
        {
            let n = &new_records[i];
            let ghost before = existing.deep_view();
            proof {
                lemma_take_step(all, i as int);
                assert(all[i as int] == n.deep_view());
            }
            match find_described(&existing, n.description.as_str()) {
                Some(k) => {
                    assert(before[k as int] == existing@[k as int].deep_view());
                    let mut record = existing[k].replicate();
                    assert(before[k as int].occurrence_count + (total - i) <= u32::MAX);
                    record.occurrence_count = record.occurrence_count + 1;
                    if n.user_correction.is_some() {
                        record.user_correction = n.user_correction.replicate();
                    }
                    assert(record.deep_view() =~= found_again(before[k as int], n.deep_view()));
                    push_one(&mut r, record.replicate());
                    existing.set(k, record);
                    assert(existing.deep_view() =~= before.update(k as int, record.deep_view()));
                    assert forall|j: int| 0 <= j < existing.deep_view().len() implies (
                    #[trigger] existing.deep_view()[j]).occurrence_count + (total - i - 1)
                        <= u32::MAX by {
                        assert(before[j].occurrence_count + (total - i) <= u32::MAX);
                    }
                },
                None => {
                    let time: i64 = times[i];
                    let mut id = "pit-".to_owned();
                    let t = signed_number(time);
                    id.append(t.as_str());
                    let record = PitfallRecord {
                        id,
                        category: n.category,
                        description: n.description.clone(),
                        user_correction: n.user_correction.replicate(),
                        occurred_at: time,
                        occurrence_count: 1,
                        superseded: false,
                    };
                    push_one(&mut r, record.replicate());
                    push_one(&mut existing, record);
                    assert forall|j: int| 0 <= j < existing.deep_view().len() implies (
                    #[trigger] existing.deep_view()[j]).occurrence_count + (total - i - 1)
                        <= u32::MAX by {
                        if j < before.len() {
                            assert(before[j].occurrence_count + (total - i) <= u32::MAX);
                        }
                    }
                },
            }
            i = i + 1;
        }
        proof {
            lemma_take_all(all);
        }
        put_all(&mut self.records, &existing);
        r
    }

    /// How many records there are.
    pub fn count(&self) -> (r: usize)
        ensures
            r == self.records.deep_view().len(),
    {
        self.records.len()
    }
}

proof fn lemma_record_ids(a: i64, b: i64)
    requires
        record_id(a) == record_id(b),
    ensures
        a == b,
{
    let n = "pit-"@.len() as int;
    assert(record_id(a).skip(n) =~= signed_decimal(a as int));
    assert(record_id(b).skip(n) =~= signed_decimal(b as int));
    lemma_signed_decimal_tells_apart(a as int, b as int);
}

/// None of the times is that of another or gives a record an id that is taken.
pub open spec fn fresh_record_times(records: Seq<PitfallRecordView>, times: Seq<i64>) -> bool {
    &&& times.no_duplicates()
    &&& forall|i: int, k: int|
        0 <= i < records.len() && 0 <= k < times.len() ==> (#[trigger] records[i]).id
            != record_id(#[trigger] times[k])
}

/// The records from `n` on were found at times among the first `m`.
spec fn recorded_at(records: Seq<PitfallRecordView>, times: Seq<i64>, n: int, m: int) -> bool {
    forall|i: int|
        n <= i < records.len() ==> exists|k: int|
            0 <= k < m && (#[trigger] records[i]).id == record_id(#[trigger] times[k])
}

proof fn lemma_merged(
    records: Seq<PitfallRecordView>,
    new: Seq<NewPitfallView>,
    times: Seq<i64>,
)
    requires
        distinct_keys::<PitfallRecord>(records),
        fresh_record_times(records, times),
        new.len() <= times.len(),
    ensures
        ({
            let m = merged(records, new, times);
            &&& distinct_keys::<PitfallRecord>(m.0)
            &&& m.1.len() == new.len()
            &&& forall|i: int|
                0 <= i < new.len() ==> ascii_lower(trimmed((#[trigger] m.1[i]).description))
                    == ascii_lower(trimmed(new[i].description))
            &&& m.0.len() >= records.len()
            &&& forall|i: int|
                0 <= i < records.len() ==> (#[trigger] m.0[i]).description
                    == records[i].description && m.0[i].id == records[i].id
            &&& recorded_at(m.0, times, records.len() as int, new.len() as int)
            &&& forall|j: int|
                0 <= j < new.len() ==> described(m.0, (#[trigger] new[j]).description) is Some
        }),
    decreases new.len(),
{
    if new.len() > 0 {
        let rest = new.drop_last();
        lemma_merged(records, rest, times);
        let before = merged(records, rest, times);
        let m = merged(records, new, times);
        let n = new.last();
        let time = times[new.len() - 1];
        let p = |r: PitfallRecordView|
            ascii_lower(trimmed(r.description)) == ascii_lower(trimmed(n.description));
        lemma_first_index(before.0, p);
        assert forall|i: int| 0 <= i < before.0.len() implies (#[trigger] m.0[i]).id
            == before.0[i].id && m.0[i].description == before.0[i].description by {}
        assert forall|i: int| 0 <= i < new.len() implies ascii_lower(
            trimmed((#[trigger] m.1[i]).description),
        ) == ascii_lower(trimmed(new[i].description)) by {
            if i < rest.len() {
                assert(m.1[i] == before.1[i]);
                assert(new[i] == rest[i]);
            } else {
                match described(before.0, n.description) {
                    Some(k) => {
                        assert(p(before.0[k]));
                    },
                    None => {},
                }
            }
        }
        assert forall|i: int, j: int| 0 <= i < j < m.0.len() implies PitfallRecord::key_of(
            #[trigger] m.0[i],
        ) != PitfallRecord::key_of(#[trigger] m.0[j]) by {
            if j < before.0.len() {
                assert(PitfallRecord::key_of(before.0[i]) != PitfallRecord::key_of(before.0[j]));
            } else {
                assert(m.0[j].id == record_id(time));
                if i < records.len() {
                    assert(records[i].id != record_id(times[new.len() - 1]));
                } else {
                    let k = choose|k: int|
                        0 <= k < rest.len() && before.0[i].id == record_id(#[trigger] times[k]);
                    if record_id(times[k]) == record_id(time) {
                        lemma_record_ids(times[k], time);
                    }
                }
            }
        }
        assert forall|i: int| records.len() <= i < m.0.len() implies exists|k: int|
            0 <= k < new.len() && (#[trigger] m.0[i]).id == record_id(#[trigger] times[k]) by {
            if i < before.0.len() {
                let k = choose|k: int|
                    0 <= k < rest.len() && before.0[i].id == record_id(#[trigger] times[k]);
                assert(m.0[i].id == record_id(times[k]));
            } else {
                assert(m.0[i].id == record_id(times[new.len() - 1]));
            }
        }
        assert forall|j: int| 0 <= j < new.len() implies described(
            m.0,
            (#[trigger] new[j]).description,
        ) is Some by {
            let q = |r: PitfallRecordView|
                ascii_lower(trimmed(r.description)) == ascii_lower(trimmed(new[j].description));
            lemma_first_index(before.0, q);
            lemma_first_index(m.0, q);
            if j < rest.len() {
                assert(rest[j] == new[j]);
                let at = described(before.0, new[j].description)->0;
                assert(q(m.0[at]));
            } else {
                let at = match described(before.0, n.description) {
                    Some(i) => i,
                    None => before.0.len() as int,
                };
                assert(q(m.0[at]));
            }
        }
    }
}

/// Merging loses no record from the store, and each pitfall that an analysis
/// found has one. Where no two times are equal and none gives an id that is
/// taken, all records that were there are there under their ids and with their
/// descriptions, each new pitfall is there by its description, the records that
/// are given back have the descriptions of the new pitfalls, and no two have
/// one id.
pub proof fn law_merging_keeps_descriptions(
    records: Seq<PitfallRecordView>,
    new: Seq<NewPitfallView>,
    times: Seq<i64>,
)
    requires
        distinct_keys::<PitfallRecord>(records),
        times.len() == new.len(),
        fresh_record_times(records, times),
    ensures
        ({
            let m = merged(records, new, times);
            let after = keyed_put_all::<PitfallRecord>(records, m.0);
            &&& after == m.0
            &&& distinct_keys::<PitfallRecord>(after)
            &&& m.1.len() == new.len()
            &&& forall|i: int|
                0 <= i < new.len() ==> ascii_lower(trimmed((#[trigger] m.1[i]).description))
                    == ascii_lower(trimmed(new[i].description))
            &&& after.len() >= records.len()
            &&& forall|i: int|
                0 <= i < records.len() ==> (#[trigger] after[i]).description
                    == records[i].description && after[i].id == records[i].id
            &&& forall|j: int|
                0 <= j < new.len() ==> described(after, (#[trigger] new[j]).description) is Some
        }),
{
    lemma_merged(records, new, times);
    law_put_all_replaces::<PitfallRecord>(records, merged(records, new, times).0);
}

} // verus!
