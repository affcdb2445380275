//! What was said, summed up in categories, with the way back to it.

use crate::memory::error::{MemoryError, MemoryErrorView};
use crate::memory::evolution::{unite, united};
use crate::replicate::Replicate;
use crate::shelf::{
    categories, categories_of, find_shelved, in_category, in_scope, items_in, items_within,
    put_shelved, shelved_item, shelved_put, Shelved,
};
use crate::text::{
    ascii_lower, contains_in_any_case, has_text_in_any_case, same_ignoring_case,
};
use crate::walk::{
    any_is, at_most, filter_each, first_items, flat_map_each, flat_mapped, no_items, some_is,
};
use vstd::prelude::*;

verus! {

/// The way back to what was said.
#[derive(Debug, PartialEq)]
pub struct SourceRef {
    pub session_file: String,
    /// The first and the last line.
    pub line_range: (usize, usize),
    pub entry_ids: Vec<String>,
}

/// What a reference is.
#[verifier::ext_equal]
pub struct SourceRefView {
    pub session_file: Seq<char>,
    pub line_range: (usize, usize),
    pub entry_ids: Seq<Seq<char>>,
}

impl DeepView for SourceRef {
    type V = SourceRefView;

    open spec fn deep_view(&self) -> SourceRefView {
        SourceRefView {
            session_file: self.session_file@,
            line_range: self.line_range.deep_view(),
            entry_ids: self.entry_ids.deep_view(),
        }
    }
}

impl Replicate for SourceRef {
    fn replicate(&self) -> (r: Self) {
        SourceRef {
            session_file: self.session_file.clone(),
            line_range: self.line_range.replicate(),
            entry_ids: self.entry_ids.replicate(),
        }
    }
}

/// A summary of what was said.
#[derive(Debug, PartialEq)]
pub struct IndexEntry {
    pub id: String,
    pub summary: String,
    pub category: String,
    pub tags: Vec<String>,
    /// The bits of the importance.
    pub importance: u64,
    pub source_refs: Vec<SourceRef>,
    pub created_at: i64,
    pub last_accessed: i64,
    /// How often it was recalled.
    pub recall_count: u32,
}

/// What a summary is.
#[verifier::ext_equal]
pub struct IndexEntryView {
    pub id: Seq<char>,
    pub summary: Seq<char>,
    pub category: Seq<char>,
    pub tags: Seq<Seq<char>>,
    pub importance: u64,
    pub source_refs: Seq<SourceRefView>,
    pub created_at: i64,
    pub last_accessed: i64,
    pub recall_count: u32,
}

impl DeepView for IndexEntry {
    type V = IndexEntryView;

    open spec fn deep_view(&self) -> IndexEntryView {
        IndexEntryView {
            id: self.id@,
            summary: self.summary@,
            category: self.category@,
            tags: self.tags.deep_view(),
            importance: self.importance,
            source_refs: self.source_refs.deep_view(),
            created_at: self.created_at,
            last_accessed: self.last_accessed,
            recall_count: self.recall_count,
        }
    }
}

impl Replicate for IndexEntry {
    fn replicate(&self) -> (r: Self) {
        IndexEntry {
            id: self.id.clone(),
            summary: self.summary.clone(),
            category: self.category.clone(),
            tags: self.tags.replicate(),
            importance: self.importance,
            source_refs: self.source_refs.replicate(),
            created_at: self.created_at,
            last_accessed: self.last_accessed,
            recall_count: self.recall_count,
        }
    }
}

impl Shelved for IndexEntry {
    open spec fn category_of(v: IndexEntryView) -> Seq<char> {
        v.category
    }

    open spec fn id_of(v: IndexEntryView) -> Seq<char> {
        v.id
    }

    fn shelf(&self) -> (r: &str) {
        self.category.as_str()
    }

    fn label(&self) -> (r: &str) {
        self.id.as_str()
    }
}

/// A keyword points to a summary: its text has it, or one of its tags is it.
pub open spec fn keyword_hits(e: IndexEntryView, kw: Seq<char>) -> bool {
    has_text_in_any_case(e.summary, kw) || some_is(
        e.tags,
        |t: Seq<char>| ascii_lower(t) == ascii_lower(kw),
    )
}

/// One of the keywords points to a summary.
pub open spec fn index_hit(keywords: Seq<Seq<char>>) -> spec_fn(IndexEntryView) -> bool {
    |e: IndexEntryView| some_is(keywords, |kw: Seq<char>| keyword_hits(e, kw))
}

/// What summaries lead back to.
pub open spec fn source_refs_of(s: Seq<IndexEntryView>) -> Seq<SourceRefView> {
    flat_mapped(s, |e: IndexEntryView| e.source_refs)
}

/// The ids of the entries that references name, each once.
pub open spec fn entry_ids_of(refs: Seq<SourceRefView>) -> Seq<Seq<char>> {
    united(Seq::empty(), flat_mapped(refs, |r: SourceRefView| r.entry_ids))
}

fn tag_hits(e: &IndexEntry, kw: &str) -> (r: bool)
    ensures
        r == keyword_hits(e.deep_view(), kw@),
{
    if contains_in_any_case(e.summary.as_str(), kw) {
        return true;
    }
    let f = |t: &String| -> (r: bool)
        ensures r == (ascii_lower(t.deep_view()) == ascii_lower(kw@))
    {
        same_ignoring_case(t.as_str(), kw)
    };
    let ghost k = kw@;
    any_is(e.tags.as_slice(), f, Ghost(|t: Seq<char>| ascii_lower(t) == ascii_lower(k)))
}

fn any_keyword_hits(e: &IndexEntry, keywords: &Vec<String>) -> (r: bool)
    ensures
        r == index_hit(keywords.deep_view())(e.deep_view()),
{
    let f = |kw: &String| -> (r: bool)
        ensures r == keyword_hits(e.deep_view(), kw.deep_view())
    {
        tag_hits(e, kw.as_str())
    };
    let ghost v = e.deep_view();
    any_is(keywords.as_slice(), f, Ghost(|kw: Seq<char>| keyword_hits(v, kw)))
}

/// The summaries.
pub struct IndexLayer {
    pub entries: Vec<IndexEntry>,
}

/// The first entries of the category that one of the keywords hits.
pub open spec fn entries_found(
    s: Seq<IndexEntryView>,
    keywords: Seq<Seq<char>>,
    category: Option<Seq<char>>,
    limit: nat,
) -> Seq<IndexEntryView> {
    at_most(s.filter(in_scope::<IndexEntry>(category)).filter(index_hit(keywords)), limit)
}

/// The first entries of the category.
pub open spec fn entries_in(s: Seq<IndexEntryView>, category: Seq<char>, limit: nat) -> Seq<
    IndexEntryView,
> {
    at_most(s.filter(in_category::<IndexEntry>(category)), limit)
}

/// The entry once it has been recalled once more.
pub open spec fn recalled_once(e: IndexEntryView, now: i64) -> IndexEntryView {
    IndexEntryView { recall_count: (e.recall_count + 1) as u32, last_accessed: now, ..e }
}

impl IndexLayer {
    /// No summaries yet.
    pub fn new() -> (r: Self)
        ensures
            r.entries.deep_view() == Seq::<IndexEntryView>::empty(),
    {
        IndexLayer { entries: no_items() }
    }

    /// Keeps a summary, in place of the one with its category and id.
    pub fn store(&mut self, entry: &IndexEntry)
        ensures
            final(self).entries.deep_view() == shelved_put::<IndexEntry>(
                old(self).entries.deep_view(),
                entry.deep_view(),
            ),
    {
        put_shelved(&mut self.entries, entry.replicate());
    }

    /// The summary with an id in a category.
    pub fn get(&self, id: &str, category: &str) -> (r: Result<IndexEntry, MemoryError>)
        ensures
            match shelved_item::<IndexEntry>(self.entries.deep_view(), category@, id@) {
                Some(e) => r is Ok && r->Ok_0.deep_view() == e,
                None => r is Err && r->Err_0.deep_view() == MemoryErrorView::EntryNotFound(id@),
            },
    {
        match find_shelved(&self.entries, category, id) {
            Some(i) => {
                assert(self.entries.deep_view()[i as int] == self.entries@[i as int].deep_view());
                Ok(self.entries[i].replicate())
            },
            None => Err(MemoryError::EntryNotFound(id.to_owned())),
        }
    }

    /// The first summaries, of a category or of all, that a keyword points to.
    pub fn search(&self, keywords: &Vec<String>, category: Option<&str>, limit: usize) -> (r: Vec<
        IndexEntry,
    >)
        ensures
            r.deep_view() == entries_found(
                self.entries.deep_view(),
                keywords.deep_view(),
                category.deep_view(),
                limit as nat,
            ),
    {
        let within = items_within(&self.entries, category);
        let f = |e: &IndexEntry| -> (r: bool)
            ensures r == index_hit(keywords.deep_view())(e.deep_view())
        {
            any_keyword_hits(e, keywords)
        };
        let hits = filter_each(within.as_slice(), f, Ghost(index_hit(keywords.deep_view())));
        first_items(hits.as_slice(), limit)
    }

    /// The first summaries of a category.
    pub fn search_by_category(&self, category: &str, limit: usize) -> (r: Vec<IndexEntry>)
        ensures
            r.deep_view() == entries_in(self.entries.deep_view(), category@, limit as nat),
    {
        let hits = items_in(&self.entries, category);
        first_items(hits.as_slice(), limit)
    }

    /// Notes that a summary was recalled. How often it can be is limited by the
    /// size of the counter.
    pub fn increment_recall(&mut self, id: &str, category: &str, now: i64) -> (r: Result<
        (),
        MemoryError,
    >)
        requires
            match shelved_item::<IndexEntry>(old(self).entries.deep_view(), category@, id@) {
                Some(e) => e.recall_count < u32::MAX,
                None => true,
            },
        ensures
            match shelved_item::<IndexEntry>(old(self).entries.deep_view(), category@, id@) {
                Some(e) => r is Ok && final(self).entries.deep_view() == shelved_put::<IndexEntry>(
                    old(self).entries.deep_view(),
                    recalled_once(e, now),
                ),
                None => r is Err && r->Err_0.deep_view() == MemoryErrorView::EntryNotFound(id@)
                    && final(self).entries == old(self).entries,
            },
    {
        match self.get(id, category) {
            Ok(e) => {
                let mut e = e;
                e.recall_count = e.recall_count + 1;
                e.last_accessed = now;
                self.store(&e);
                Ok(())
            },
            Err(e) => Err(e),
        }
    }

    /// The categories there are, in order.
    pub fn list_categories(&self) -> (r: Vec<String>)
        ensures
            r.deep_view() == categories_of::<IndexEntry>(self.entries.deep_view()),
    {
        categories(&self.entries)
    }

    /// How many summaries there are.
    pub fn count(&self) -> (r: usize)
        ensures
            r == self.entries.deep_view().len(),
    {
        self.entries.len()
    }

    /// What the summaries lead back to.
    pub fn collect_all_source_refs(&self) -> (r: Vec<SourceRef>)
        ensures
            r.deep_view() == source_refs_of(self.entries.deep_view()),
    {
        let f = |e: &IndexEntry| -> (r: Vec<SourceRef>)
            ensures r.deep_view() == e.deep_view().source_refs
        {
            e.source_refs.replicate()
        };
        flat_map_each(self.entries.as_slice(), f, Ghost(|e: IndexEntryView| e.source_refs))
    }

    /// The ids of the entries that the summaries lead back to, each once.
    pub fn collect_all_referenced_entry_ids(&self) -> (r: Vec<String>)
        ensures
            r.deep_view() == entry_ids_of(source_refs_of(self.entries.deep_view())),
    {
        let refs = self.collect_all_source_refs();
        let f = |r: &SourceRef| -> (ids: Vec<String>)
            ensures ids.deep_view() == r.deep_view().entry_ids
        {
            r.entry_ids.replicate()
        };
        let ids = flat_map_each(refs.as_slice(), f, Ghost(|r: SourceRefView| r.entry_ids));
        let none: Vec<String> = no_items();
        unite(&none, &ids)
    }
}

} // verus!
