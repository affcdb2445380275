//! What the user asks of evaluations.

use crate::keyed::{find_keyed, keyed_index, keyed_put, put_keyed, Keyed};
use crate::memory::types::{EvalRequirement, EvalRequirementView};
use crate::paths::{join_path, path_of};
use crate::replicate::Replicate;
use crate::seqs::first_index;
use crate::text::{same, signed_decimal, signed_number, trim, trimmed};
use crate::walk::{filter_each, no_items, position};
use vstd::prelude::*;

verus! {

impl Keyed for EvalRequirement {
    open spec fn key_of(v: EvalRequirementView) -> Seq<char> {
        v.id
    }

    fn key(&self) -> (r: &str) {
        self.id.as_str()
    }
}

/// The requirements that are kept, each under its id.
pub struct EvalRequirementStore {
    pub base_dir: String,
    pub records: Vec<EvalRequirement>,
}

/// The requirements that were not replaced.
pub open spec fn active_requirements(s: Seq<EvalRequirementView>) -> Seq<EvalRequirementView> {
    s.filter(|r: EvalRequirementView| !r.superseded)
}

/// Where a requirement with the content stands; the white space around does
/// not matter.
pub open spec fn requiring(s: Seq<EvalRequirementView>, content: Seq<char>) -> Option<int> {
    first_index(s, |r: EvalRequirementView| trimmed(r.content) == trimmed(content))
}

/// A new requirement.
pub open spec fn new_requirement(
    content: Seq<char>,
    source: Seq<char>,
    now: i64,
) -> EvalRequirementView {
    EvalRequirementView {
        id: "evreq-"@ + signed_decimal(now as int),
        content,
        source,
        created_at: now,
        superseded: false,
    }
}

/// Copies of the requirements that were not replaced.
pub fn find_active_requirements(records: &Vec<EvalRequirement>) -> (r: Vec<EvalRequirement>)
    ensures
        r.deep_view() == active_requirements(records.deep_view()),
{
    let f = |x: &EvalRequirement| -> (r: bool)
        ensures r == !x.deep_view().superseded
    {
        !x.superseded
    };
    filter_each(records.as_slice(), f, Ghost(|r: EvalRequirementView| !r.superseded))
}

/// The requirements, with the one under the id marked as replaced.
pub open spec fn requirement_given_up(s: Seq<EvalRequirementView>, id: Seq<char>) -> Seq<EvalRequirementView> {
    match keyed_index::<EvalRequirement>(s, id) {
        Some(i) => s.update(i, EvalRequirementView { superseded: true, ..s[i] }),
        None => s,
    }
}

impl EvalRequirementStore {
    /// A store below `base_dir` with no requirements yet.
    pub fn new(base_dir: &str) -> (r: Self)
        ensures
            r.base_dir@ == base_dir@,
            r.records.deep_view() == Seq::<EvalRequirementView>::empty(),
    {
        EvalRequirementStore { base_dir: base_dir.to_owned(), records: no_items() }
    }

    /// The directory of the requirements.
    pub fn requirement_dir(&self) -> (r: String)
        ensures
            r@ == path_of(path_of(self.base_dir@, "memory"@), "eval-requirement"@),
    {
        let memory = join_path(self.base_dir.as_str(), "memory");
        join_path(memory.as_str(), "eval-requirement")
    }

    /// Keeps a requirement in place of the one with its id.
    pub fn store(&mut self, record: &EvalRequirement)
        ensures
            final(self).base_dir == old(self).base_dir,
            final(self).records.deep_view() == keyed_put::<EvalRequirement>(
                old(self).records.deep_view(),
                record.deep_view(),
            ),
    {
        put_keyed(&mut self.records, record.replicate());
    }

    /// All requirements.
    pub fn load_all(&self) -> (r: Vec<EvalRequirement>)
        ensures
            r.deep_view() == self.records.deep_view(),
    {
        self.records.replicate()
    }

    /// The requirements that were not replaced.
    pub fn load_active(&self) -> (r: Vec<EvalRequirement>)
        ensures
            r.deep_view() == active_requirements(self.records.deep_view()),
    {
        find_active_requirements(&self.records)
    }

    /// Marks the requirement with the id as replaced, where there is one.
    pub fn mark_superseded(&mut self, id: &str)
        ensures
            final(self).base_dir == old(self).base_dir,
            final(self).records.deep_view() == requirement_given_up(old(self).records.deep_view(), id@),
    {
        if let Some(i) = find_keyed(&self.records, id) {
            let ghost before = self.records.deep_view();
            let mut record = self.records[i].replicate();
            record.superseded = true;
            self.records.set(i, record);
            assert(before[i as int] == old(self).records@[i as int].deep_view());
            assert(record.deep_view() =~= (EvalRequirementView {
                superseded: true,
                ..before[i as int]
            }));
            assert(self.records.deep_view() =~= before.update(i as int, record.deep_view()));
        }
    }

    /// Adds a requirement, unless one with its content is there already; gives
    /// the one that is kept.
    pub fn add(&mut self, content: &str, source: &str, now: i64) -> (r: EvalRequirement)
        ensures
            final(self).base_dir == old(self).base_dir,
            ({
                let before = old(self).records.deep_view();
                let active = active_requirements(before);
                match requiring(active, content@) {
                    Some(i) => r.deep_view() == active[i] && final(self).records.deep_view()
                        == before,
                    None => {
                        &&& r.deep_view() == new_requirement(content@, source@, now)
                        &&& final(self).records.deep_view() == keyed_put::<EvalRequirement>(
                            before,
                            new_requirement(content@, source@, now),
                        )
                    },
                }
            }),
    {
        let active = self.load_active();
        let wanted = trim(content);
        let f = |x: &EvalRequirement| -> (r: bool)
            ensures r == (trimmed(x.deep_view().content) == trimmed(content@))
        {
            let own = trim(x.content.as_str());
            same(own.as_str(), wanted.as_str())
        };
        let found = position(
            active.as_slice(),
            f,
            Ghost(|r: EvalRequirementView| trimmed(r.content) == trimmed(content@)),
        );
        if let Some(i) = found {
            assert(active.deep_view()[i as int] == active@[i as int].deep_view());
            return active[i].replicate();
        }
        let mut id = "evreq-".to_owned();
        let t = signed_number(now);
        id.append(t.as_str());
        let record = EvalRequirement {
            id,
            content: content.to_owned(),
            source: source.to_owned(),
            created_at: now,
            superseded: false,
        };
        self.store(&record);
        record
    }

    /// How many requirements there are.
    pub fn count(&self) -> (r: usize)
        ensures
            r == self.records.deep_view().len(),
    {
        self.records.len()
    }
}

} // verus!
