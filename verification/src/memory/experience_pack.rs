//! Experience in packs that can be handed to the reasoning brain.

use crate::memory::error::{MemoryError, MemoryErrorView};
use crate::memory::evolution::{unite, united};
use crate::replicate::Replicate;
use crate::shelf::{
    categories, categories_of, find_shelved, in_scope, items_within, put_shelved, shelved_item,
    shelved_put, Shelved,
};
use crate::text::{
    byte_count, byte_len, contains_in_any_case, has_text_in_any_case, lemma_byte_count_adds,
};
use crate::walk::{
    any_is, at_most, filter_each, first_items, flat_map_each, flat_mapped, no_items, some_is,
};
use vstd::prelude::*;

verus! {

/// A mistake that was made.
#[derive(Debug, PartialEq)]
pub struct MistakeEntry {
    pub what: String,
    pub why: String,
    pub how_to_avoid: String,
}

/// What a mistake is.
#[verifier::ext_equal]
pub struct MistakeEntryView {
    pub what: Seq<char>,
    pub why: Seq<char>,
    pub how_to_avoid: Seq<char>,
}

impl DeepView for MistakeEntry {
    type V = MistakeEntryView;

    open spec fn deep_view(&self) -> MistakeEntryView {
        MistakeEntryView {
            what: self.what@,
            why: self.why@,
            how_to_avoid: self.how_to_avoid@,
        }
    }
}

impl Replicate for MistakeEntry {
    fn replicate(&self) -> (r: Self) {
        MistakeEntry {
            what: self.what.clone(),
            why: self.why.clone(),
            how_to_avoid: self.how_to_avoid.clone(),
        }
    }
}

/// A pack of experience.
#[derive(Debug, PartialEq)]
pub struct ExperiencePack {
    pub id: String,
    pub title: String,
    pub category: String,
    /// What calls for the pack.
    pub trigger_patterns: Vec<String>,
    pub reasoning_path: Vec<String>,
    pub mistakes: Vec<MistakeEntry>,
    pub files_modified_patterns: Vec<String>,
    pub tools_used: Vec<String>,
    /// The bits of how often it helped.
    pub success_rate: u64,
    pub shortcuts: Vec<String>,
    pub source_index_ids: Vec<String>,
    /// What the reasoning brain is given.
    pub context_snippet: String,
    pub created_at: i64,
    pub last_used_at: i64,
    pub use_count: u32,
}

/// What a pack is.
#[verifier::ext_equal]
pub struct ExperiencePackView {
    pub id: Seq<char>,
    pub title: Seq<char>,
    pub category: Seq<char>,
    pub trigger_patterns: Seq<Seq<char>>,
    pub reasoning_path: Seq<Seq<char>>,
    pub mistakes: Seq<MistakeEntryView>,
    pub files_modified_patterns: Seq<Seq<char>>,
    pub tools_used: Seq<Seq<char>>,
    pub success_rate: u64,
    pub shortcuts: Seq<Seq<char>>,
    pub source_index_ids: Seq<Seq<char>>,
    pub context_snippet: Seq<char>,
    pub created_at: i64,
    pub last_used_at: i64,
    pub use_count: u32,
}

impl DeepView for ExperiencePack {
    type V = ExperiencePackView;

    open spec fn deep_view(&self) -> ExperiencePackView {
        ExperiencePackView {
            id: self.id@,
            title: self.title@,
            category: self.category@,
            trigger_patterns: self.trigger_patterns.deep_view(),
            reasoning_path: self.reasoning_path.deep_view(),
            mistakes: self.mistakes.deep_view(),
            files_modified_patterns: self.files_modified_patterns.deep_view(),
            tools_used: self.tools_used.deep_view(),
            success_rate: self.success_rate,
            shortcuts: self.shortcuts.deep_view(),
            source_index_ids: self.source_index_ids.deep_view(),
            context_snippet: self.context_snippet@,
            created_at: self.created_at,
            last_used_at: self.last_used_at,
            use_count: self.use_count,
        }
    }
}

impl Replicate for ExperiencePack {
    fn replicate(&self) -> (r: Self) {
        ExperiencePack {
            id: self.id.clone(),
            title: self.title.clone(),
            category: self.category.clone(),
            trigger_patterns: self.trigger_patterns.replicate(),
            reasoning_path: self.reasoning_path.replicate(),
            mistakes: self.mistakes.replicate(),
            files_modified_patterns: self.files_modified_patterns.replicate(),
            tools_used: self.tools_used.replicate(),
            success_rate: self.success_rate,
            shortcuts: self.shortcuts.replicate(),
            source_index_ids: self.source_index_ids.replicate(),
            context_snippet: self.context_snippet.clone(),
            created_at: self.created_at,
            last_used_at: self.last_used_at,
            use_count: self.use_count,
        }
    }
}

impl Shelved for ExperiencePack {
    open spec fn category_of(v: ExperiencePackView) -> Seq<char> {
        v.category
    }

    open spec fn id_of(v: ExperiencePackView) -> Seq<char> {
        v.id
    }

    fn shelf(&self) -> (r: &str) {
        self.category.as_str()
    }

    fn label(&self) -> (r: &str) {
        self.id.as_str()
    }
}

/// A keyword points to a pack: one of its texts has it.
pub open spec fn pack_has(p: ExperiencePackView, kw: Seq<char>) -> bool {
    has_text_in_any_case(p.title, kw) || has_text_in_any_case(p.context_snippet, kw) || some_is(
        p.shortcuts,
        |s: Seq<char>| has_text_in_any_case(s, kw),
    ) || some_is(p.trigger_patterns, |s: Seq<char>| has_text_in_any_case(s, kw))
}

/// One of the keywords points to a pack.
pub open spec fn pack_hit(keywords: Seq<Seq<char>>) -> spec_fn(ExperiencePackView) -> bool {
    |p: ExperiencePackView| some_is(keywords, |kw: Seq<char>| pack_has(p, kw))
}

/// What calls for a pack occurs in a text.
pub open spec fn triggered_by(content: Seq<char>) -> spec_fn(ExperiencePackView) -> bool {
    |p: ExperiencePackView|
        some_is(p.trigger_patterns, |s: Seq<char>| has_text_in_any_case(content, s))
}

/// The packs that a search finds.
pub open spec fn packs_found(
    s: Seq<ExperiencePackView>,
    keywords: Seq<Seq<char>>,
    category: Option<Seq<char>>,
    limit: nat,
) -> Seq<ExperiencePackView> {
    at_most(s.filter(in_scope::<ExperiencePack>(category)).filter(pack_hit(keywords)), limit)
}

/// A pack as text.
pub open spec fn pack_text(p: ExperiencePackView) -> Seq<char> {
    "["@ + p.category + "] "@ + p.title + "\n"@ + p.context_snippet + "\n"@
}

/// `before` and the packs as text, up to the first that does not fit.
pub open spec fn injected(
    packs: Seq<ExperiencePackView>,
    before: Seq<char>,
    budget: nat,
) -> Seq<char>
    decreases packs.len(),
{
    if packs.len() == 0 || byte_count(before) + byte_count(pack_text(packs[0])) > budget {
        before
    } else {
        injected(packs.drop_first(), before + pack_text(packs[0]), budget)
    }
}

fn one_has(texts: &Vec<String>, kw: &str) -> (r: bool)
    ensures
        r == some_is(texts.deep_view(), |s: Seq<char>| has_text_in_any_case(s, kw@)),
{
    let f = |s: &String| -> (r: bool)
        ensures r == has_text_in_any_case(s.deep_view(), kw@)
    {
        contains_in_any_case(s.as_str(), kw)
    };
    let ghost k = kw@;
    any_is(texts.as_slice(), f, Ghost(|s: Seq<char>| has_text_in_any_case(s, k)))
}

fn keyword_in(p: &ExperiencePack, kw: &str) -> (r: bool)
    ensures
        r == pack_has(p.deep_view(), kw@),
{
    contains_in_any_case(p.title.as_str(), kw) || contains_in_any_case(
        p.context_snippet.as_str(),
        kw,
    ) || one_has(&p.shortcuts, kw) || one_has(&p.trigger_patterns, kw)
}

fn any_keyword_in(p: &ExperiencePack, keywords: &Vec<String>) -> (r: bool)
    ensures
        r == pack_hit(keywords.deep_view())(p.deep_view()),
{
    let f = |kw: &String| -> (r: bool)
        ensures r == pack_has(p.deep_view(), kw.deep_view())
    {
        keyword_in(p, kw.as_str())
    };
    let ghost v = p.deep_view();
    any_is(keywords.as_slice(), f, Ghost(|kw: Seq<char>| pack_has(v, kw)))
}

fn is_triggered(p: &ExperiencePack, content: &str) -> (r: bool)
    ensures
        r == triggered_by(content@)(p.deep_view()),
{
    let f = |s: &String| -> (r: bool)
        ensures r == has_text_in_any_case(content@, s.deep_view())
    {
        contains_in_any_case(content, s.as_str())
    };
    let ghost c = content@;
    any_is(p.trigger_patterns.as_slice(), f, Ghost(|s: Seq<char>| has_text_in_any_case(c, s)))
}

fn write_pack(p: &ExperiencePack) -> (r: String)
    ensures
        r@ == pack_text(p.deep_view()),
{
    let mut r = "[".to_owned();
    r.append(p.category.as_str());
    r.append("] ");
    r.append(p.title.as_str());
    r.append("\n");
    r.append(p.context_snippet.as_str());
    r.append("\n");
    r
}

/// The packs.
pub struct ExperiencePackLayer {
    pub packs: Vec<ExperiencePack>,
}

/// The first packs that the text triggers.
pub open spec fn packs_triggered(
    s: Seq<ExperiencePackView>,
    content: Seq<char>,
    limit: nat,
) -> Seq<ExperiencePackView> {
    at_most(s.filter(triggered_by(content)), limit)
}

/// The pack once it has been used once more.
pub open spec fn used_once(p: ExperiencePackView, now: i64) -> ExperiencePackView {
    ExperiencePackView { use_count: (p.use_count + 1) as u32, last_used_at: now, ..p }
}

impl ExperiencePackLayer {
    /// No packs yet.
    pub fn new() -> (r: Self)
        ensures
            r.packs.deep_view() == Seq::<ExperiencePackView>::empty(),
    {
        ExperiencePackLayer { packs: no_items() }
    }

    /// Keeps a pack, in place of the one with its category and id.
    pub fn store(&mut self, pack: &ExperiencePack)
        ensures
            final(self).packs.deep_view() == shelved_put::<ExperiencePack>(
                old(self).packs.deep_view(),
                pack.deep_view(),
            ),
    {
        put_shelved(&mut self.packs, pack.replicate());
    }

    /// The pack with an id in a category.
    pub fn get(&self, id: &str, category: &str) -> (r: Result<ExperiencePack, MemoryError>)
        ensures
            match shelved_item::<ExperiencePack>(self.packs.deep_view(), category@, id@) {
                Some(e) => r is Ok && r->Ok_0.deep_view() == e,
                None => r is Err && r->Err_0.deep_view() == MemoryErrorView::EntryNotFound(id@),
            },
    {
        match find_shelved(&self.packs, category, id) {
            Some(i) => {
                assert(self.packs.deep_view()[i as int] == self.packs@[i as int].deep_view());
                Ok(self.packs[i].replicate())
            },
            None => Err(MemoryError::EntryNotFound(id.to_owned())),
        }
    }

    /// The first packs, of a category or of all, that a keyword points to.
    pub fn search(&self, keywords: &Vec<String>, category: Option<&str>, limit: usize) -> (r: Vec<
        ExperiencePack,
    >)
        ensures
            r.deep_view() == packs_found(
                self.packs.deep_view(),
                keywords.deep_view(),
                category.deep_view(),
                limit as nat,
            ),
    {
        let within = items_within(&self.packs, category);
        let f = |p: &ExperiencePack| -> (r: bool)
            ensures r == pack_hit(keywords.deep_view())(p.deep_view())
        {
            any_keyword_in(p, keywords)
        };
        let hits = filter_each(within.as_slice(), f, Ghost(pack_hit(keywords.deep_view())));
        first_items(hits.as_slice(), limit)
    }

    /// The first packs that a text calls for.
    pub fn search_by_trigger(&self, content: &str, limit: usize) -> (r: Vec<ExperiencePack>)
        ensures
            r.deep_view() == packs_triggered(self.packs.deep_view(), content@, limit as nat),
    {
        let f = |p: &ExperiencePack| -> (r: bool)
            ensures r == triggered_by(content@)(p.deep_view())
        {
            is_triggered(p, content)
        };
        let hits = filter_each(self.packs.as_slice(), f, Ghost(triggered_by(content@)));
        first_items(hits.as_slice(), limit)
    }

    /// Notes that a pack was used. How often it can be is limited by the size of
    /// the counter.
    pub fn increment_use(&mut self, id: &str, category: &str, now: i64) -> (r: Result<
        (),
        MemoryError,
    >)
        requires
            match shelved_item::<ExperiencePack>(old(self).packs.deep_view(), category@, id@) {
                Some(e) => e.use_count < u32::MAX,
                None => true,
            },
        ensures
            match shelved_item::<ExperiencePack>(old(self).packs.deep_view(), category@, id@) {
                Some(e) => r is Ok && final(self).packs.deep_view() == shelved_put::<
                    ExperiencePack,
                >(
                    old(self).packs.deep_view(),
                    used_once(e, now),
                ),
                None => r is Err && r->Err_0.deep_view() == MemoryErrorView::EntryNotFound(id@)
                    && final(self).packs == old(self).packs,
            },
    {
        match self.get(id, category) {
            Ok(e) => {
                let mut e = e;
                e.use_count = e.use_count + 1;
                e.last_used_at = now;
                self.store(&e);
                Ok(())
            },
            Err(e) => Err(e),
        }
    }

    /// The packs that keywords point to as one text, within a budget of bytes.
    pub fn load_for_injection(
        &self,
        category: Option<&str>,
        keywords: &Vec<String>,
        budget: usize,
    ) -> (r: String)
        ensures
            r@ == injected(
                packs_found(
                    self.packs.deep_view(),
                    keywords.deep_view(),
                    category.deep_view(),
                    10,
                ),
                ""@,
                budget as nat,
            ),
    {
        let packs = self.search(keywords, category, 10);
        let ghost all = packs.deep_view();
        let mut r = "".to_owned();
        let mut i: usize = 0;
        assert(all.skip(0) =~= all);
        while i < packs.len()
            invariant
                i <= packs@.len(),
                all == packs.deep_view(),
                all == packs_found(
                    self.packs.deep_view(),
                    keywords.deep_view(),
                    category.deep_view(),
                    10,
                ),
                injected(all, ""@, budget as nat) == injected(
                    all.skip(i as int),
                    r@,
                    budget as nat,
                ),
            decreases packs@.len() - i,
        {
            let text = write_pack(&packs[i]);
            proof {
                assert(all.skip(i as int)[0] == packs@[i as int].deep_view());
                assert(all.skip(i as int).drop_first() =~= all.skip(i + 1));
            }
            let size: u128 = byte_len(r.as_str()) as u128 + byte_len(text.as_str()) as u128;
            if size > budget as u128 {
                return r;
            }
            r.append(text.as_str());
            i = i + 1;
        }
        r
    }

    /// The categories there are, in order.
    pub fn list_categories(&self) -> (r: Vec<String>)
        ensures
            r.deep_view() == categories_of::<ExperiencePack>(self.packs.deep_view()),
    {
        categories(&self.packs)
    }

    /// How many packs there are.
    pub fn count(&self) -> (r: usize)
        ensures
            r == self.packs.deep_view().len(),
    {
        self.packs.len()
    }

    /// The ids of the summaries that the packs come from, each once.
    pub fn collect_all_referenced_index_ids(&self) -> (r: Vec<String>)
        ensures
            r.deep_view() == united(
                Seq::empty(),
                flat_mapped(self.packs.deep_view(), |p: ExperiencePackView| p.source_index_ids),
            ),
    {
        let f = |p: &ExperiencePack| -> (ids: Vec<String>)
            ensures ids.deep_view() == p.deep_view().source_index_ids
        {
            p.source_index_ids.replicate()
        };
        let ids = flat_map_each(
            self.packs.as_slice(),
            f,
            Ghost(|p: ExperiencePackView| p.source_index_ids),
        );
        let none: Vec<String> = no_items();
        unite(&none, &ids)
    }
}

/// What is handed out never takes more bytes than the budget allows.
pub proof fn law_injection_fits_the_budget(
    packs: Seq<ExperiencePackView>,
    before: Seq<char>,
    budget: nat,
)
    requires
        byte_count(before) <= budget,
    ensures
        byte_count(injected(packs, before, budget)) <= budget,
    decreases packs.len(),
{
    if packs.len() > 0 && byte_count(before) + byte_count(pack_text(packs[0])) <= budget {
        lemma_byte_count_adds(before, pack_text(packs[0]));
        law_injection_fits_the_budget(
            packs.drop_first(),
            before + pack_text(packs[0]),
            budget,
        );
    }
}

} // verus!
