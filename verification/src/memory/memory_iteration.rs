//! How a new fact bears on what is remembered.

use crate::json::{text_of_json, Json, JsonView};
use crate::replicate::Replicate;
use crate::seqs::first_index;
use crate::text::{join, joined, same};
use crate::times::{rfc3339_z_of, write_time_z};
use crate::walk::{filter_map_each, map_each, position};
use vstd::prelude::*;

verus! {

/// How a new fact relates to a memory.
#[derive(Debug, Clone, Copy, PartialEq, Eq, Structural)]
pub enum MemoryRelation {
    /// The new fact excludes the memory.
    Override,
    /// Both say something different of one topic.
    Complement,
    /// The new fact says the same in more depth.
    Refine,
    Unrelated,
}

impl DeepView for MemoryRelation {
    type V = MemoryRelation;

    open spec fn deep_view(&self) -> MemoryRelation {
        *self
    }
}

impl Replicate for MemoryRelation {
    fn replicate(&self) -> (r: Self) {
        *self
    }
}

/// Where a memory is kept.
#[derive(Debug, Clone, Copy, PartialEq, Eq, Structural)]
pub enum MemoryStoreType {
    Subconscious,
    Summary,
    Pitfall,
    Evolution,
}

impl DeepView for MemoryStoreType {
    type V = MemoryStoreType;

    open spec fn deep_view(&self) -> MemoryStoreType {
        *self
    }
}

impl Replicate for MemoryStoreType {
    fn replicate(&self) -> (r: Self) {
        *self
    }
}

/// What becomes of a memory.
#[derive(Debug, Clone, Copy, PartialEq, Eq, Structural)]
pub enum IterationAction {
    /// It is marked as replaced.
    MarkSuperseded,
    /// It stays, beside the new fact.
    KeepBoth,
    /// The new fact takes its place.
    ReplaceWithNew,
    /// Nothing.
    Skip,
}

impl DeepView for IterationAction {
    type V = IterationAction;

    open spec fn deep_view(&self) -> IterationAction {
        *self
    }
}

impl Replicate for IterationAction {
    fn replicate(&self) -> (r: Self) {
        *self
    }
}

/// A memory that a new fact is held against.
#[derive(Debug, PartialEq)]
pub struct ExistingMemory {
    pub id: String,
    pub store_type: MemoryStoreType,
    pub content: String,
    pub created_at: i64,
}

/// What such a memory is.
#[verifier::ext_equal]
pub struct ExistingMemoryView {
    pub id: Seq<char>,
    pub store_type: MemoryStoreType,
    pub content: Seq<char>,
    pub created_at: i64,
}

impl DeepView for ExistingMemory {
    type V = ExistingMemoryView;

    open spec fn deep_view(&self) -> ExistingMemoryView {
        ExistingMemoryView {
            id: self.id@,
            store_type: self.store_type,
            content: self.content@,
            created_at: self.created_at,
        }
    }
}

impl Replicate for ExistingMemory {
    fn replicate(&self) -> (r: Self) {
        ExistingMemory {
            id: self.id.clone(),
            store_type: self.store_type,
            content: self.content.clone(),
            created_at: self.created_at,
        }
    }
}

/// How a model relates a new fact to a memory.
#[derive(Debug, PartialEq)]
pub struct IterationResult {
    pub id: String,
    pub relation: MemoryRelation,
}

/// What such a relation is.
#[verifier::ext_equal]
pub struct IterationResultView {
    pub id: Seq<char>,
    pub relation: MemoryRelation,
}

impl DeepView for IterationResult {
    type V = IterationResultView;

    open spec fn deep_view(&self) -> IterationResultView {
        IterationResultView {
            id: self.id@,
            relation: self.relation,
        }
    }
}

impl Replicate for IterationResult {
    fn replicate(&self) -> (r: Self) {
        IterationResult {
            id: self.id.clone(),
            relation: self.relation,
        }
    }
}

/// What becomes of a memory, by its relation to the new fact.
pub open spec fn action_of(relation: MemoryRelation) -> IterationAction {
    match relation {
        MemoryRelation::Override => IterationAction::MarkSuperseded,
        MemoryRelation::Complement => IterationAction::KeepBoth,
        MemoryRelation::Refine => IterationAction::MarkSuperseded,
        MemoryRelation::Unrelated => IterationAction::Skip,
    }
}

/// What becomes of a memory, by its relation to the new fact.
pub fn resolve_action(relation: &MemoryRelation) -> (r: IterationAction)
    ensures
        r == action_of(*relation),
{
    match relation {
        MemoryRelation::Override => IterationAction::MarkSuperseded,
        MemoryRelation::Complement => IterationAction::KeepBoth,
        MemoryRelation::Refine => IterationAction::MarkSuperseded,
        MemoryRelation::Unrelated => IterationAction::Skip,
    }
}

/// The relation that a word stands for.
pub open spec fn relation_named(w: Seq<char>) -> Option<MemoryRelation> {
    if w == "OVERRIDE"@ {
        Some(MemoryRelation::Override)
    } else if w == "COMPLEMENT"@ {
        Some(MemoryRelation::Complement)
    } else if w == "REFINE"@ {
        Some(MemoryRelation::Refine)
    } else if w == "UNRELATED"@ {
        Some(MemoryRelation::Unrelated)
    } else {
        None
    }
}

fn find_relation(w: &str) -> (r: Option<MemoryRelation>)
    ensures
        r == relation_named(w@),
{
    if same(w, "OVERRIDE") {
        Some(MemoryRelation::Override)
    } else if same(w, "COMPLEMENT") {
        Some(MemoryRelation::Complement)
    } else if same(w, "REFINE") {
        Some(MemoryRelation::Refine)
    } else if same(w, "UNRELATED") {
        Some(MemoryRelation::Unrelated)
    } else {
        None
    }
}

/// The name of a store.
pub open spec fn store_name(t: MemoryStoreType) -> Seq<char> {
    match t {
        MemoryStoreType::Subconscious => "Subconscious"@,
        MemoryStoreType::Summary => "Summary"@,
        MemoryStoreType::Pitfall => "Pitfall"@,
        MemoryStoreType::Evolution => "Evolution"@,
    }
}

fn name_of_store(t: MemoryStoreType) -> (r: &'static str)
    ensures
        r@ == store_name(t),
{
    match t {
        MemoryStoreType::Subconscious => "Subconscious",
        MemoryStoreType::Summary => "Summary",
        MemoryStoreType::Pitfall => "Pitfall",
        MemoryStoreType::Evolution => "Evolution",
    }
}

/// The text of a memory that a model is shown.
pub open spec fn memory_text(m: ExistingMemoryView) -> Seq<char> {
    "{\"id\":"@ + text_of_json(JsonView::Str(m.id)) + ",\"store_type\":"@ + text_of_json(
        JsonView::Str(store_name(m.store_type)),
    ) + ",\"content\":"@ + text_of_json(JsonView::Str(m.content)) + ",\"created_at\":"@
        + text_of_json(
        match rfc3339_z_of(m.created_at) {
            Some(t) => JsonView::Str(t),
            None => JsonView::Null,
        },
    ) + "}"@
}

/// The text of the memories that a model is shown: a list of objects.
pub open spec fn memories_text_of(items: Seq<ExistingMemoryView>) -> Seq<char> {
    "["@ + joined(items.map_values(|m: ExistingMemoryView| memory_text(m)), ","@) + "]"@
}

fn write_memory(m: &ExistingMemory) -> (r: String)
    ensures
        r@ == memory_text(m.deep_view()),
{
    let mut r = "{\"id\":".to_owned();
    let part = Json::Str(m.id.clone()).to_text();
    r.append(part.as_str());
    r.append(",\"store_type\":");
    let part = Json::Str(name_of_store(m.store_type).to_owned()).to_text();
    r.append(part.as_str());
    r.append(",\"content\":");
    let part = Json::Str(m.content.clone()).to_text();
    r.append(part.as_str());
    r.append(",\"created_at\":");
    let time = match write_time_z(m.created_at) {
        Some(t) => Json::Str(t),
        None => Json::Null,
    };
    let part = time.to_text();
    r.append(part.as_str());
    r.append("}");
    r
}

/// The text of the memories that a model is shown.
pub fn memories_text(items: &Vec<ExistingMemory>) -> (r: String)
    ensures
        r@ == memories_text_of(items.deep_view()),
{
    let f = |m: &ExistingMemory| -> (r: String)
        ensures r@ == memory_text(m.deep_view())
    {
        write_memory(m)
    };
    let parts = map_each(
        items.as_slice(),
        f,
        Ghost(|m: ExistingMemoryView| memory_text(m)),
    );
    let list = join(parts.as_slice(), ",");
    let mut r = "[".to_owned();
    r.append(list.as_str());
    r.append("]");
    r
}

/// The relation that a value stands for.
pub open spec fn iteration_of(v: JsonView) -> Option<IterationResultView> {
    match (v.str_at("id"@), v.str_at("relation"@)) {
        (Some(id), Some(w)) => match relation_named(w) {
            Some(relation) => Some(IterationResultView { id, relation }),
            None => None,
        },
        _ => None,
    }
}

/// The relations that a value stands for: a list, each item of which stands
/// for one.
pub open spec fn iterations_of(v: JsonView) -> Option<Seq<IterationResultView>> {
    match v {
        JsonView::Array(items) => if forall|i: int|
            0 <= i < items.len() ==> iteration_of(#[trigger] items[i]) is Some {
            Some(items.map_values(|x: JsonView| iteration_of(x)->0))
        } else {
            None
        },
        _ => None,
    }
}

fn find_iteration(v: &Json) -> (r: Option<IterationResult>)
    ensures
        r.deep_view() == iteration_of(v.deep_view()),
{
    match (v.str_at("id"), v.str_at("relation")) {
        (Some(id), Some(w)) => match find_relation(w.as_str()) {
            Some(relation) => Some(IterationResult { id, relation }),
            None => None,
        },
        _ => None,
    }
}

/// The relations that a value stands for.
pub fn find_iterations(v: &Json) -> (r: Option<Vec<IterationResult>>)
    ensures
        r.deep_view() == iterations_of(v.deep_view()),
{
    match v.as_array() {
        Some(items) => {
            let ghost all = items.deep_view();
            let mut r: Vec<IterationResult> = Vec::new();
            let mut i: usize = 0;
            while i < items.len()
                invariant
                    i <= items@.len(),
                    all == items.deep_view(),
                    v.deep_view() == JsonView::Array(all),
                    r@.len() == i,
                    forall|k: int|
                        0 <= k < i ==> iteration_of(#[trigger] all[k]) == Some(r@[k].deep_view()),
                decreases items@.len() - i,
            {
                assert(all[i as int] == items@[i as int].deep_view());
                match find_iteration(&items[i]) {
                    Some(x) => {
                        r.push(x);
                    },
                    None => {
                        assert(iteration_of(all[i as int]) is None);
                        return None;
                    },
                }
                i = i + 1;
            }
            assert(r.deep_view() =~= all.map_values(|x: JsonView| iteration_of(x)->0));
            Some(r)
        },
        None => None,
    }
}

/// The memory that a relation says is to be marked as replaced, and where it
/// is kept.
pub open spec fn marked_by(
    existing: Seq<ExistingMemoryView>,
    x: IterationResultView,
) -> Option<(MemoryStoreType, Seq<char>)> {
    match first_index(existing, |e: ExistingMemoryView| e.id == x.id) {
        Some(i) => if action_of(x.relation) == IterationAction::MarkSuperseded || action_of(
            x.relation,
        ) == IterationAction::ReplaceWithNew {
            Some((existing[i].store_type, existing[i].id))
        } else {
            None
        },
        None => None,
    }
}

/// The memories that are to be marked as replaced, each with where it is kept.
pub fn resolve_iterations(
    existing: &Vec<ExistingMemory>,
    iterations: &Vec<IterationResult>,
) -> (r: Vec<(MemoryStoreType, String)>)
    ensures
        r.deep_view() == iterations.deep_view().filter_map(
            |x: IterationResultView| marked_by(existing.deep_view(), x),
        ),
{
    let f = |x: &IterationResult| -> (r: Option<(MemoryStoreType, String)>)
        ensures r.deep_view() == marked_by(existing.deep_view(), x.deep_view())
    {
        let known = |e: &ExistingMemory| -> (r: bool)
            ensures r == (e.deep_view().id == x.deep_view().id)
        {
            same(e.id.as_str(), x.id.as_str())
        };
        let found = position(
            existing.as_slice(),
            known,
            Ghost(|e: ExistingMemoryView| e.id == x.deep_view().id),
        );
        let action = resolve_action(&x.relation);
        match found {
            Some(i) => if action == IterationAction::MarkSuperseded || action
                == IterationAction::ReplaceWithNew {
                assert(existing.deep_view()[i as int] == existing@[i as int].deep_view());
                Some((existing[i].store_type, existing[i].id.clone()))
            } else {
                None
            },
            None => None,
        }
    };
    filter_map_each(
        iterations.as_slice(),
        f,
        Ghost(|x: IterationResultView| marked_by(existing.deep_view(), x)),
    )
}

} // verus!
