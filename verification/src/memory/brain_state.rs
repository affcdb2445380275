//! Snapshots of the memory from which the main brain's context is rebuilt.

use crate::memory::evolution::{by_priority, EvolutionStore};
use crate::memory::index_layer::{
    IndexEntry, IndexEntryView, IndexLayer, SourceRef, SourceRefView,
};
use crate::memory::pitfall::{active_pitfalls, PitfallStore};
use crate::memory::types::{
    BrainState, SourceRefKind, StateSourceRef, StateSourceRefView, UserProfile,
};
use crate::paths::{join_path, path_of};
use crate::replicate::Replicate;
use crate::shelf::{categories_of, in_category};
use crate::text::{signed_decimal, signed_number};
use crate::walk::{at_most, first_items, flat_map_each, flat_mapped, map_each};
use vstd::prelude::*;

verus! {

/// How many summaries of a category a snapshot leads back to.
pub const ENTRIES_PER_CATEGORY: usize = 20;

/// How many references a snapshot has at most.
pub const MAX_SOURCE_REFS: usize = 50;

/// A reference to an entry of a session.
pub open spec fn state_ref(file: Seq<char>, id: Seq<char>) -> StateSourceRefView {
    StateSourceRefView {
        kind: SourceRefKind::Message,
        reference: file + ":"@ + id,
        storage_id: id,
    }
}

/// The references of a way back.
pub open spec fn refs_of_source(r: SourceRefView) -> Seq<StateSourceRefView> {
    r.entry_ids.map_values(|id: Seq<char>| state_ref(r.session_file, id))
}

/// The references of a summary.
pub open spec fn refs_of_entry(e: IndexEntryView) -> Seq<StateSourceRefView> {
    flat_mapped(e.source_refs, |r: SourceRefView| refs_of_source(r))
}

/// The references of the first summaries of a category.
pub open spec fn refs_of_category(
    s: Seq<IndexEntryView>,
    category: Seq<char>,
) -> Seq<StateSourceRefView> {
    flat_mapped(
        at_most(s.filter(in_category::<IndexEntry>(category)), ENTRIES_PER_CATEGORY as nat),
        |e: IndexEntryView| refs_of_entry(e),
    )
}

/// The references of a snapshot.
pub open spec fn snapshot_refs(s: Seq<IndexEntryView>) -> Seq<StateSourceRefView> {
    at_most(
        flat_mapped(
            categories_of::<IndexEntry>(s),
            |c: Seq<char>| refs_of_category(s, c),
        ),
        MAX_SOURCE_REFS as nat,
    )
}

fn make_refs_of_source(r: &SourceRef) -> (out: Vec<StateSourceRef>)
    ensures
        out.deep_view() == refs_of_source(r.deep_view()),
{
    let f = |id: &String| -> (x: StateSourceRef)
        ensures x.deep_view() == state_ref(r.deep_view().session_file, id.deep_view())
    {
        let mut reference = r.session_file.clone();
        reference.append(":");
        reference.append(id.as_str());
        StateSourceRef { kind: SourceRefKind::Message, reference, storage_id: id.clone() }
    };
    let ghost file = r.deep_view().session_file;
    map_each(r.entry_ids.as_slice(), f, Ghost(|id: Seq<char>| state_ref(file, id)))
}

fn make_refs_of_entry(e: &IndexEntry) -> (out: Vec<StateSourceRef>)
    ensures
        out.deep_view() == refs_of_entry(e.deep_view()),
{
    let f = |r: &SourceRef| -> (x: Vec<StateSourceRef>)
        ensures x.deep_view() == refs_of_source(r.deep_view())
    {
        make_refs_of_source(r)
    };
    flat_map_each(e.source_refs.as_slice(), f, Ghost(|r: SourceRefView| refs_of_source(r)))
}

fn make_refs_of_category(index: &IndexLayer, category: &str) -> (out: Vec<StateSourceRef>)
    ensures
        out.deep_view() == refs_of_category(index.entries.deep_view(), category@),
{
    let entries = index.search_by_category(category, ENTRIES_PER_CATEGORY);
    let f = |e: &IndexEntry| -> (x: Vec<StateSourceRef>)
        ensures x.deep_view() == refs_of_entry(e.deep_view())
    {
        make_refs_of_entry(e)
    };
    flat_map_each(entries.as_slice(), f, Ghost(|e: IndexEntryView| refs_of_entry(e)))
}

/// What snapshots are taken of.
pub struct BrainStateGenerator {
    pub base_dir: String,
    pub profile: UserProfile,
    pub pitfall_store: PitfallStore,
    pub evolution_store: EvolutionStore,
    pub index: IndexLayer,
}

impl BrainStateGenerator {
    /// A generator over the stores.
    pub fn new(
        base_dir: String,
        profile: UserProfile,
        pitfall_store: PitfallStore,
        evolution_store: EvolutionStore,
        index: IndexLayer,
    ) -> (r: Self)
        ensures
            r.base_dir == base_dir,
            r.profile == profile,
            r.pitfall_store == pitfall_store,
            r.evolution_store == evolution_store,
            r.index == index,
    {
        BrainStateGenerator { base_dir, profile, pitfall_store, evolution_store, index }
    }

    /// The references of a snapshot.
    pub fn build_source_refs(&self) -> (r: Vec<StateSourceRef>)
        ensures
            r.deep_view() == snapshot_refs(self.index.entries.deep_view()),
    {
        let categories = self.index.list_categories();
        let index = &self.index;
        let f = |c: &String| -> (x: Vec<StateSourceRef>)
            ensures
                x.deep_view() == refs_of_category(index.entries.deep_view(), c.deep_view())
        {
            make_refs_of_category(index, c.as_str())
        };
        let ghost s = self.index.entries.deep_view();
        let all = flat_map_each(
            categories.as_slice(),
            f,
            Ghost(|c: Seq<char>| refs_of_category(s, c)),
        );
        first_items(all.as_slice(), MAX_SOURCE_REFS)
    }

    /// A snapshot of what is known now.
    pub fn generate(&self, fact_summary: &str, now: i64) -> (r: BrainState)
        ensures
            r.fact_summary@ == fact_summary@,
            r.user_profile.deep_view() == self.profile.deep_view(),
            r.active_pitfalls.deep_view() == active_pitfalls(
                self.pitfall_store.records.deep_view(),
            ),
            r.evolution_rules.deep_view() == by_priority(self.evolution_store.rules.deep_view()),
            r.index_entries.deep_view() == snapshot_refs(self.index.entries.deep_view()),
            r.snapshot_at == now,
    {
        BrainState {
            fact_summary: fact_summary.to_owned(),
            user_profile: self.profile.replicate(),
            active_pitfalls: self.pitfall_store.load_active(),
            evolution_rules: self.evolution_store.load_sorted_by_priority(),
            index_entries: self.build_source_refs(),
            snapshot_at: now,
        }
    }

    /// The file of a snapshot: it is named after its second.
    pub fn snapshot_path(&self, state: &BrainState) -> (r: String)
        ensures
            r@ == path_of(
                path_of(path_of(self.base_dir@, "memory"@), "snapshots"@),
                "snapshot_"@ + signed_decimal(state.snapshot_at as int / 1000) + ".json"@,
            ),
    {
        let dir = join_path(self.base_dir.as_str(), "memory");
        let dir = join_path(dir.as_str(), "snapshots");
        let mut name = "snapshot_".to_owned();
        let at: i64 = state.snapshot_at;
        let seconds: i64 = if at >= 0 {
            at / 1000
        } else {
            -((999 - at as i128) / 1000) as i64
        };
        assert(seconds == at as int / 1000);
        let text = signed_number(seconds);
        name.append(text.as_str());
        name.append(".json");
        join_path(dir.as_str(), name.as_str())
    }
}

} // verus!
