//! What holds of sessions that are given up, of personas, and of what is moved
//! over from older stores.

use crate::brains::MemoryEntryView;
use crate::keyed::{Keyed, keyed_index};
use crate::memory::abstract_layer::{
    ExperienceView, KeywordIndexView, TypeExperienceView, about, index_entry, injectable_of,
};
use crate::memory::consolidation::TaskSummaryView;
use crate::memory::conversation_memory::{
    ConversationMemoryInvalidationView, ConversationMemoryStoreView, Moves, invalidated,
    invalidation_problem, is_identifier, may_commit, moved_all, moved_one,
};
use crate::memory::error::MemoryErrorView;
use crate::memory::eval_requirement::{
    active_requirements, new_requirement, requirement_given_up, requiring,
};
use crate::memory::event_index::EventEntryView;
use crate::memory::evolution::rule_given_up;
use crate::memory::experience_pack::{
    ExperiencePack, ExperiencePackView, packs_triggered, triggered_by, used_once,
};
use crate::memory::index_layer::{
    IndexEntry, IndexEntryView, entries_found, entries_in, index_hit, recalled_once,
};
use crate::memory::memory_brain::{
    chosen, impression_entry, results_of, search_separators, search_words, summary_hit,
};
use crate::memory::migration::{
    category_by_tags, days_moved, event_total, events_moved, index_from, index_from_recent,
    pack_from, readable, recent_moved, tasks_moved,
};
use crate::memory::pending_analysis::{PendingAnalysisView, pending_lines};
use crate::memory::persona::{
    Persona, PersonaRegistryView, PersonaView, active_persona, deleted, has_active, persona_prompt,
    switched,
};
use crate::memory::pitfall::pitfall_given_up;
use crate::memory::types::{
    EvalRequirement, EvalRequirementView, EvolutionRule, EvolutionRuleView, PitfallRecord,
    PitfallRecordView, SessionSummaryView, SubconsciousEntryView,
};
use crate::seqs::{lemma_filter_has, lemma_first_index, lemma_has_parts};
use crate::shelf::{in_category, in_scope, shelved_put};
use crate::text::{byte_count, decimal, has_text, joined, lowercase_of, split_at_chars, trimmed};
use crate::text_laws::{law_text_stands_in, lemma_stands_between, stands_in};
use crate::walk::some_is;
use vstd::prelude::*;

verus! {

// ---------------------------------------------------------------------------
// Sessions that are given up
// ---------------------------------------------------------------------------

/// Giving a generation up moves its session, where it counts, from those that
/// count to those given up, and counts it; one that was given up before stops
/// the rest; and no other session moves.
pub proof fn law_session_is_given_up(m: Moves, base: Seq<char>, g: Seq<char>, x: Seq<char>)
    requires
        m.active.no_duplicates(),
    ensures
        ({
            let s = base + "--web--"@ + g;
            let r = moved_one(m, base, g);
            &&& m.stopped is Some ==> r == m
            &&& m.stopped is None && !m.active.contains(s) ==> r == m
            &&& m.stopped is None && m.active.contains(s) && m.invalidated.contains(s)
                ==> r.stopped == Some(g) && r.active == m.active && r.invalidated == m.invalidated
                && r.moved == m.moved
            &&& m.stopped is None && m.active.contains(s) && !m.invalidated.contains(s) ==> {
                &&& r.stopped is None
                &&& r.moved == m.moved + 1
                &&& r.active.contains(x) <==> m.active.contains(x) && x != s
                &&& r.invalidated.contains(x) <==> m.invalidated.contains(x) || x == s
            }
            &&& r.active.no_duplicates()
        }),
{
    let s = base + "--web--"@ + g;
    let r = moved_one(m, base, g);
    if m.stopped is None && m.active.contains(s) && !m.invalidated.contains(s) {
        m.active.index_of_first_ensures(s);
        let i = m.active.index_of_first(s)->0;
        assert(m.active[i] == s);
        lemma_without(m.active, i, x);
        assert(m.invalidated.push(s) =~= m.invalidated + seq![s]);
        lemma_has_parts(m.invalidated, seq![s], x);
        assert(seq![s].contains(x) == (x == s)) by {
            assert(seq![s][0] == s);
        }
    }
}

proof fn lemma_without<A>(s: Seq<A>, i: int, x: A)
    requires
        0 <= i < s.len(),
        s.no_duplicates(),
    ensures
        s.remove(i).contains(x) <==> s.contains(x) && x != s[i],
        s.remove(i).no_duplicates(),
{
    let r = s.remove(i);
    if r.contains(x) {
        let k = choose|k: int| 0 <= k < r.len() && r[k] == x;
        if k < i {
            assert(s[k] == x);
        } else {
            assert(s[k + 1] == x);
        }
    }
    if s.contains(x) && x != s[i] {
        let k = choose|k: int| 0 <= k < s.len() && s[k] == x;
        if k < i {
            assert(r[k] == x);
        } else {
            assert(r[k - 1] == x);
        }
    }
}

/// Generations are given up one after the other; and what was asked for is
/// noted last, with its time, under the next revision.
pub proof fn law_giving_up_is_noted(
    s: ConversationMemoryStoreView,
    i: ConversationMemoryInvalidationView,
    gs: Seq<Seq<char>>,
    g: Seq<char>,
    now: i64,
)
    ensures
        gs.len() == 0 ==> ({
            let m = moved_all(s, gs);
            &&& m.active == s.active_sessions && m.invalidated == s.invalidated_sessions
            &&& m.moved == 0 && m.stopped is None
        }),
        moved_all(s, gs.push(g)) == moved_one(moved_all(s, gs), s.base_session_id, g),
        ({
            let r = invalidated(s, i, now);
            let m = moved_all(s, i.generation_ids);
            &&& r.active_sessions == m.active && r.invalidated_sessions == m.invalidated
            &&& r.derived_stale
            &&& s.revision < u64::MAX ==> r.revision == s.revision + 1
            &&& r.legacy_unscoped <==> s.legacy_unscoped || i.includes_legacy_unscoped
            &&& r.records.len() > 0
            &&& r.records.last().conversation_id == i.conversation_id
            &&& r.records.last().generation_ids == i.generation_ids
            &&& r.records.last().includes_legacy_unscoped == i.includes_legacy_unscoped
            &&& r.records.last().invalidated_at == now
            &&& s.records.len() <= 500 ==> r.records.len() <= 500
            &&& s.records.len() < 500 ==> r.records.drop_last() == s.records
            &&& s.records.len() == 500 ==> r.records.drop_last() == s.records.skip(1)
            &&& r.base_session_id == s.base_session_id
        }),
{
    assert(gs.push(g).drop_last() =~= gs);
    let r = invalidated(s, i, now);
    if s.records.len() < 500 {
        assert(r.records.drop_last() =~= s.records);
    }
    if s.records.len() == 500 {
        assert(r.records.drop_last() =~= s.records.skip(1));
    }
}

/// What is to be given up is refused where one of its names is no identifier of
/// at most 128 bytes.
pub proof fn law_names_that_are_refused(i: ConversationMemoryInvalidationView, s: Seq<char>)
    ensures
        invalidation_problem(i) is None <==> is_identifier(i.conversation_id) && forall|k: int|
            0 <= k < i.generation_ids.len() ==> is_identifier(#[trigger] i.generation_ids[k]),
        is_identifier(s) ==> 0 < s.len() && byte_count(s) <= 128,
        is_identifier(s) ==> forall|k: int|
            0 <= k < s.len() ==> {
                let c = #[trigger] s[k];
                ('a' <= c <= 'z') || ('A' <= c <= 'Z') || ('0' <= c <= '9') || c == '-' || c == '_'
            },
        0 < s.len() && byte_count(s) <= 128 && (forall|k: int|
            0 <= k < s.len() ==> {
                let c = #[trigger] s[k];
                ('a' <= c <= 'z') || ('A' <= c <= 'Z') || ('0' <= c <= '9') || c == '-' || c == '_'
            }) ==> is_identifier(s),
{
}

/// What was derived may be put in place where nothing was given up since, and
/// never where something was given up that cannot be told apart.
pub proof fn law_when_a_rebuild_counts(s: ConversationMemoryStoreView, revision: u64)
    ensures
        may_commit(s, revision) <==> s.revision == revision && !s.legacy_unscoped,
{
}

// ---------------------------------------------------------------------------
// Personas
// ---------------------------------------------------------------------------

/// A persona that is there becomes the active one, with the time, and nothing
/// else changes; one that is not there is refused.
pub proof fn law_switching_personas(r: PersonaRegistryView, id: Seq<char>, now: i64, k: int)
    requires
        0 <= k < r.personas.len(),
    ensures
        switched(r, id, now) is Ok <==> exists|i: int|
            0 <= i < r.personas.len() && (#[trigger] r.personas[i]).id == id,
        switched(r, id, now) matches Ok(q) ==> {
            &&& q.active_persona_id == id
            &&& q.personas.len() == r.personas.len()
            &&& q.personas[k] == (PersonaView {
                last_active_at: q.personas[k].last_active_at,
                ..r.personas[k]
            })
            &&& r.personas[k].id != id ==> q.personas[k] == r.personas[k]
        },
{
    let q = crate::keyed::with_key::<Persona>(id);
    lemma_first_index(r.personas, q);
    match keyed_index::<Persona>(r.personas, id) {
        Some(i) => {
            assert(q(r.personas[i]));
            assert(r.personas[i].id == id);
        },
        None => {
            assert forall|i: int| 0 <= i < r.personas.len() implies (#[trigger] r.personas[i]).id
                != id by {
                assert(!q(r.personas[i]));
            }
        },
    }
}

/// A persona can be taken away unless it is the first one or the active one, or
/// is not there; and then it alone is gone.
pub proof fn law_taking_a_persona_away(r: PersonaRegistryView, id: Seq<char>)
    ensures
        deleted(r, id) is Ok <==> id != "default"@ && id != r.active_persona_id && exists|i: int|
            0 <= i < r.personas.len() && (#[trigger] r.personas[i]).id == id,
        deleted(r, id) matches Ok(q) ==> {
            &&& q.active_persona_id == r.active_persona_id
            &&& exists|i: int|
                0 <= i < r.personas.len() && (#[trigger] r.personas[i]).id == id && q.personas
                    == r.personas.remove(i)
        },
        id == "default"@ ==> deleted(r, id) == Err::<PersonaRegistryView, MemoryErrorView>(
            MemoryErrorView::Conflict("不能删除默认人格"@),
        ),
{
    let q = crate::keyed::with_key::<Persona>(id);
    lemma_first_index(r.personas, q);
    match keyed_index::<Persona>(r.personas, id) {
        Some(i) => {
            assert(q(r.personas[i]));
            assert(r.personas[i].id == id);
        },
        None => {
            assert forall|i: int| 0 <= i < r.personas.len() implies (#[trigger] r.personas[i]).id
                != id by {
                assert(!q(r.personas[i]));
            }
        },
    }
}

/// The active persona is the one under the active id, or the first where no
/// persona has it; and what it says to the
/// model is its own prompt with its name, its language and its style, or
/// nothing where it has none.
pub proof fn law_active_persona_speaks(r: PersonaRegistryView, p: PersonaView)
    ensures
        has_active(r) ==> active_persona(r).id == r.active_persona_id,
        !has_active(r) ==> active_persona(r) == r.personas[0],
        has_active(r) <==> exists|i: int|
            0 <= i < r.personas.len() && (#[trigger] r.personas[i]).id == r.active_persona_id,
        p.system_prompt.len() == 0 ==> persona_prompt(p).len() == 0,
        p.system_prompt.len() > 0 ==> stands_in(persona_prompt(p), p.system_prompt) && stands_in(
            persona_prompt(p),
            p.name,
        ) && stands_in(persona_prompt(p), p.config.language) && stands_in(
            persona_prompt(p),
            p.config.output_style,
        ),
{
    reveal_strlit("");
    let q = crate::keyed::with_key::<Persona>(r.active_persona_id);
    lemma_first_index(r.personas, q);
    match keyed_index::<Persona>(r.personas, r.active_persona_id) {
        Some(i) => {
            assert(q(r.personas[i]));
            assert(r.personas[i].id == r.active_persona_id);
        },
        None => {
            assert forall|i: int| 0 <= i < r.personas.len() implies (#[trigger] r.personas[i]).id
                != r.active_persona_id by {
                assert(!q(r.personas[i]));
            }
        },
    }
    if p.system_prompt.len() > 0 {
        let h = persona_prompt(p);
        let a = "[人格: "@;
        let b = "]\n"@;
        let c = "\n[语言: "@;
        let d = ", 风格: "@;
        let e = "]"@;
        lemma_stands_between(a, p.name, b + p.system_prompt + c + p.config.language + d
            + p.config.output_style + e, h);
        lemma_stands_between(a + p.name + b, p.system_prompt, c + p.config.language + d
            + p.config.output_style + e, h);
        lemma_stands_between(a + p.name + b + p.system_prompt + c, p.config.language, d
            + p.config.output_style + e, h);
        lemma_stands_between(
            a + p.name + b + p.system_prompt + c + p.config.language + d,
            p.config.output_style,
            e,
            h,
        );
    }
}

// ---------------------------------------------------------------------------
// Requirements, experiences and what is moved over
// ---------------------------------------------------------------------------

/// A requirement holds where nothing has replaced it; one is known already
/// where one says the same, white space at the ends aside; and a new one says
/// what was given.
pub proof fn law_requirements(
    s: Seq<EvalRequirementView>,
    r: EvalRequirementView,
    content: Seq<char>,
    source: Seq<char>,
    now: i64,
)
    ensures
        active_requirements(s).contains(r) <==> s.contains(r) && !r.superseded,
        requiring(s, content) is Some <==> exists|i: int|
            0 <= i < s.len() && trimmed((#[trigger] s[i]).content) == trimmed(content),
        requiring(s, content) matches Some(i) ==> 0 <= i < s.len() && trimmed(s[i].content)
            == trimmed(content),
        new_requirement(content, source, now).content == content,
        new_requirement(content, source, now).source == source,
        new_requirement(content, source, now).created_at == now,
        !new_requirement(content, source, now).superseded,
{
    lemma_filter_has(s, |r: EvalRequirementView| !r.superseded, r);
    let q = |r: EvalRequirementView| trimmed(r.content) == trimmed(content);
    lemma_first_index(s, q);
    match requiring(s, content) {
        Some(i) => {
            assert(q(s[i]));
            assert(trimmed(s[i].content) == trimmed(content));
        },
        None => {
            assert forall|i: int| 0 <= i < s.len() implies trimmed((#[trigger] s[i]).content)
                != trimmed(content) by {
                assert(!q(s[i]));
            }
        },
    }
}

/// Experiences of a kind are about a keyword where it is one of their index, or
/// stands in a pattern or a description; those that may be handed over are
/// those marked so; and the index counts them.
pub proof fn law_experiences(t: TypeExperienceView, keyword: Seq<char>, e: ExperienceView)
    requires
        t.experiences.len() <= usize::MAX,
        t.l2_refs.len() <= usize::MAX,
    ensures
        about(keyword)(t) <==> {
            ||| exists|i: int|
                0 <= i < t.index.len() && lowercase_of((#[trigger] t.index[i]).keyword)
                    == lowercase_of(keyword)
            ||| exists|i: int|
                0 <= i < t.experiences.len() && (stands_in(
                    lowercase_of((#[trigger] t.experiences[i]).pattern),
                    lowercase_of(keyword),
                ) || stands_in(lowercase_of(t.experiences[i].description), lowercase_of(keyword)))
        },
        injectable_of(t).contains(e) <==> t.experiences.contains(e) && e.injectable,
        index_entry(t).task_type == t.task_type,
        index_entry(t).experience_count == t.experiences.len(),
        index_entry(t).l2_task_count == t.l2_refs.len(),
{
    let low = lowercase_of(keyword);
    let p = |k: KeywordIndexView| lowercase_of(k.keyword) == low;
    let q = |e: ExperienceView|
        has_text(lowercase_of(e.pattern), low) || has_text(lowercase_of(e.description), low);
    assert forall|i: int| 0 <= i < t.experiences.len() implies q(#[trigger] t.experiences[i]) == (
    stands_in(lowercase_of(t.experiences[i].pattern), low) || stands_in(
        lowercase_of(t.experiences[i].description),
        low,
    )) by {
        law_text_stands_in(lowercase_of(t.experiences[i].pattern), low);
        law_text_stands_in(lowercase_of(t.experiences[i].description), low);
    }
    assert(about(keyword)(t) == (some_is(t.index, p) || some_is(t.experiences, q)));
    if some_is(t.index, p) {
        let i = choose|i: int| 0 <= i < t.index.len() && p(#[trigger] t.index[i]);
        assert(lowercase_of(t.index[i].keyword) == low);
    }
    if some_is(t.experiences, q) {
        let i = choose|i: int| 0 <= i < t.experiences.len() && q(#[trigger] t.experiences[i]);
        assert(q(t.experiences[i]));
    }
    if exists|i: int|
        0 <= i < t.index.len() && lowercase_of((#[trigger] t.index[i]).keyword) == low {
        let i = choose|i: int|
            0 <= i < t.index.len() && lowercase_of((#[trigger] t.index[i]).keyword) == low;
        assert(p(t.index[i]));
    }
    if exists|i: int|
        0 <= i < t.experiences.len() && (stands_in(
            lowercase_of((#[trigger] t.experiences[i]).pattern),
            low,
        ) || stands_in(lowercase_of(t.experiences[i].description), low)) {
        let i = choose|i: int|
            0 <= i < t.experiences.len() && (stands_in(
                lowercase_of((#[trigger] t.experiences[i]).pattern),
                low,
            ) || stands_in(lowercase_of(t.experiences[i].description), low));
        assert(q(t.experiences[i]));
    }
    lemma_filter_has(t.experiences, |e: ExperienceView| e.injectable, e);
}

/// What waits to be analysed is told below a heading, numbered from one, each
/// conversation by its first five hundred characters.
pub proof fn law_pending_is_told(p: PendingAnalysisView, i: int)
    requires
        0 <= i < p.conversations.len(),
    ensures
        pending_lines(p).len() == p.conversations.len() + 2,
        stands_in(pending_lines(p)[0], p.session_id),
        p.conversations[i].len() <= 500 ==> pending_lines(p)[i + 2] == decimal((i + 1) as nat)
            + ". "@ + p.conversations[i],
        p.conversations[i].len() > 500 ==> pending_lines(p)[i + 2] == decimal((i + 1) as nat)
            + ". "@ + (p.conversations[i].take(500) + "..."@),
{
    let a = "[上次会话记忆（会话 "@;
    let b = "，保存于 "@;
    let c = "）— 以下是你上次和用户的对话摘要]"@;
    lemma_stands_between(a, p.session_id, b + p.saved_at + c, pending_lines(p)[0]);
}

/// Tags that speak of errors are of debugging, else those of design of
/// architecture, else those of tests of testing, else those of release of
/// deployment, and any others of development.
pub proof fn law_category_by_tags(tags: Seq<Seq<char>>)
    ensures
        ({
            let t = lowercase_of(joined(tags, " "@));
            let r = category_by_tags(tags);
            if stands_in(t, "bug"@) || stands_in(t, "错误"@) || stands_in(t, "调试"@) {
                r == "debugging"@
            } else if stands_in(t, "架构"@) || stands_in(t, "设计"@) {
                r == "architecture"@
            } else if stands_in(t, "测试"@) {
                r == "testing"@
            } else if stands_in(t, "部署"@) || stands_in(t, "发布"@) {
                r == "deployment"@
            } else {
                r == "development"@
            }
        }),
{
    let t = lowercase_of(joined(tags, " "@));
    law_text_stands_in(t, "bug"@);
    law_text_stands_in(t, "错误"@);
    law_text_stands_in(t, "调试"@);
    law_text_stands_in(t, "架构"@);
    law_text_stands_in(t, "设计"@);
    law_text_stands_in(t, "测试"@);
    law_text_stands_in(t, "部署"@);
    law_text_stands_in(t, "发布"@);
}

/// What is moved over keeps its id, its words, its tags, its weight and its
/// time, under the category of its tags; one more that can be read is put on
/// its shelf, and one that cannot is passed over.
pub proof fn law_what_is_moved_over(
    s: Seq<IndexEntryView>,
    q: Seq<ExperiencePackView>,
    e: EventEntryView,
    m: MemoryEntryView,
    t: TaskSummaryView,
    events: Seq<EventEntryView>,
    recent: Seq<Option<MemoryEntryView>>,
    tasks: Seq<Option<TaskSummaryView>>,
)
    ensures
        ({
            let x = index_from(e);
            &&& x.id == e.id && x.summary == e.summary && x.tags == e.tags
            &&& x.importance == e.importance && x.created_at == e.created_at
            &&& x.category == category_by_tags(e.tags) && x.recall_count == 0
        }),
        ({
            let x = index_from_recent(m);
            &&& x.id == m.id && x.summary == m.content && x.tags == m.tags
            &&& x.importance == m.importance && x.created_at == m.created_at
            &&& x.category == category_by_tags(m.tags) && x.recall_count == 0
        }),
        ({
            let x = pack_from(t);
            &&& x.id == t.id && x.title == t.task_description && x.category == "general"@
            &&& x.reasoning_path == t.reasoning_path && x.mistakes == t.mistakes
            &&& x.shortcuts == t.shortcuts && x.tools_used == t.tools_used
            &&& x.files_modified_patterns == t.files_modified && x.success_rate == t.success_rate
            &&& x.created_at == t.created_at && x.use_count == 0
        }),
        events_moved(s, events.push(e)) == shelved_put::<IndexEntry>(
            events_moved(s, events),
            index_from(e),
        ),
        recent_moved(s, recent.push(Some(m))) == shelved_put::<IndexEntry>(
            recent_moved(s, recent),
            index_from_recent(m),
        ),
        recent_moved(s, recent.push(None)) == recent_moved(s, recent),
        tasks_moved(q, tasks.push(Some(t))) == shelved_put::<ExperiencePack>(
            tasks_moved(q, tasks),
            pack_from(t),
        ),
        tasks_moved(q, tasks.push(None)) == tasks_moved(q, tasks),
        readable(tasks.push(Some(t))) == readable(tasks) + 1,
        readable(tasks.push(None)) == readable(tasks),
        events.len() == 0 ==> events_moved(s, events) == s,
        recent.len() == 0 ==> recent_moved(s, recent) == s,
        tasks.len() == 0 ==> tasks_moved(q, tasks) == q && readable(tasks) == 0,
{
    assert(events.push(e).drop_last() =~= events);
    assert(recent.push(Some(m)).drop_last() =~= recent);
    assert(recent.push(None).drop_last() =~= recent);
    assert(tasks.push(Some(t)).drop_last() =~= tasks);
    assert(tasks.push(None).drop_last() =~= tasks);
}

/// Days are moved over one after the other, each with all its events, and those
/// that can be read are counted by their events.
pub proof fn law_days_are_moved_over(
    s: Seq<IndexEntryView>,
    days: Seq<Option<Seq<EventEntryView>>>,
    d: Seq<EventEntryView>,
)
    ensures
        days.len() == 0 ==> days_moved(s, days) == s && event_total(days) == 0,
        days_moved(s, days.push(Some(d))) == events_moved(days_moved(s, days), d),
        days_moved(s, days.push(None)) == days_moved(s, days),
        event_total(days.push(Some(d))) == event_total(days) + d.len(),
        event_total(days.push(None)) == event_total(days),
{
    assert(days.push(Some(d)).drop_last() =~= days);
    assert(days.push(None).drop_last() =~= days);
}

/// What is found in the index is of the category that was asked for and hit by
/// a keyword, no more than was asked for; and where it is less, all such is
/// found.
pub proof fn law_found_in_the_index(
    s: Seq<IndexEntryView>,
    keywords: Seq<Seq<char>>,
    category: Option<Seq<char>>,
    limit: nat,
    e: IndexEntryView,
    c: Seq<char>,
)
    ensures
        ({
            let r = entries_found(s, keywords, category, limit);
            let due = s.contains(e) && (category is Some ==> e.category == category->0)
                && index_hit(keywords)(e);
            &&& r.len() <= limit
            &&& r.contains(e) ==> due
            &&& due && r.len() < limit ==> r.contains(e)
        }),
        ({
            let r = entries_in(s, c, limit);
            &&& r.len() <= limit
            &&& r.contains(e) ==> s.contains(e) && e.category == c
            &&& s.contains(e) && e.category == c && r.len() < limit ==> r.contains(e)
        }),
{
    let a = in_scope::<IndexEntry>(category);
    let b = index_hit(keywords);
    let first = s.filter(a);
    let all = first.filter(b);
    let r = entries_found(s, keywords, category, limit);
    lemma_filter_has(s, a, e);
    lemma_filter_has(first, b, e);
    if r.contains(e) {
        let i = choose|i: int| 0 <= i < r.len() && r[i] == e;
        assert(all[i] == e);
    }
    let d = in_category::<IndexEntry>(c);
    let mine = s.filter(d);
    let q = entries_in(s, c, limit);
    lemma_filter_has(s, d, e);
    if q.contains(e) {
        let i = choose|i: int| 0 <= i < q.len() && q[i] == e;
        assert(mine[i] == e);
    }
}

/// Being recalled or used counts once, at its time, and changes nothing else;
/// the packs that a text triggers are found, no more than were asked for.
pub proof fn law_use_is_counted(
    e: IndexEntryView,
    p: ExperiencePackView,
    s: Seq<ExperiencePackView>,
    content: Seq<char>,
    limit: nat,
    now: i64,
)
    requires
        e.recall_count < u32::MAX,
        p.use_count < u32::MAX,
    ensures
        recalled_once(e, now).recall_count == e.recall_count + 1,
        recalled_once(e, now).last_accessed == now,
        recalled_once(e, now) == (IndexEntryView {
            recall_count: recalled_once(e, now).recall_count,
            last_accessed: now,
            ..e
        }),
        used_once(p, now).use_count == p.use_count + 1,
        used_once(p, now).last_used_at == now,
        used_once(p, now) == (ExperiencePackView {
            use_count: used_once(p, now).use_count,
            last_used_at: now,
            ..p
        }),
        packs_triggered(s, content, limit).len() <= limit,
        packs_triggered(s, content, limit).contains(p) ==> s.contains(p) && triggered_by(content)(
            p,
        ),
        s.contains(p) && triggered_by(content)(p) && packs_triggered(s, content, limit).len()
            < limit ==> packs_triggered(s, content, limit).contains(p),
{
    let q = triggered_by(content);
    let all = s.filter(q);
    let r = packs_triggered(s, content, limit);
    lemma_filter_has(s, q, p);
    if r.contains(p) {
        let i = choose|i: int| 0 <= i < r.len() && r[i] == p;
        assert(all[i] == p);
    }
}

/// Giving a record up marks the one under its id, and none where there is no
/// such; the rest stays as it was.
pub proof fn law_record_is_given_up(
    a: Seq<PitfallRecordView>,
    b: Seq<EvolutionRuleView>,
    c: Seq<EvalRequirementView>,
    id: Seq<char>,
    i: int,
)
    requires
        0 <= i,
    ensures
        i < a.len() ==> ({
            let r = pitfall_given_up(a, id);
            &&& r.len() == a.len()
            &&& a[i].id != id ==> r[i] == a[i]
            &&& r[i] == (PitfallRecordView { superseded: r[i].superseded, ..a[i] })
            &&& a[i].id == id && (forall|k: int| 0 <= k < i ==> (#[trigger] a[k]).id != id)
                ==> r[i].superseded
        }),
        i < b.len() ==> ({
            let r = rule_given_up(b, id);
            &&& r.len() == b.len()
            &&& b[i].id != id ==> r[i] == b[i]
            &&& r[i] == (EvolutionRuleView { superseded: r[i].superseded, ..b[i] })
            &&& b[i].id == id && (forall|k: int| 0 <= k < i ==> (#[trigger] b[k]).id != id)
                ==> r[i].superseded
        }),
        i < c.len() ==> ({
            let r = requirement_given_up(c, id);
            &&& r.len() == c.len()
            &&& c[i].id != id ==> r[i] == c[i]
            &&& r[i] == (EvalRequirementView { superseded: r[i].superseded, ..c[i] })
            &&& c[i].id == id && (forall|k: int| 0 <= k < i ==> (#[trigger] c[k]).id != id)
                ==> r[i].superseded
        }),
{
    lemma_key_at::<PitfallRecord>(a, id, i);
    lemma_key_at::<EvolutionRule>(b, id, i);
    lemma_key_at::<EvalRequirement>(c, id, i);
    if i < a.len() {
        assert forall|k: int| 0 <= k < a.len() implies <PitfallRecord as Keyed>::key_of(
            #[trigger] a[k],
        ) == a[k].id by {}
    }
    if i < b.len() {
        assert forall|k: int| 0 <= k < b.len() implies <EvolutionRule as Keyed>::key_of(
            #[trigger] b[k],
        ) == b[k].id by {}
    }
    if i < c.len() {
        assert forall|k: int| 0 <= k < c.len() implies <EvalRequirement as Keyed>::key_of(
            #[trigger] c[k],
        ) == c[k].id by {}
    }
}

proof fn lemma_key_at<T: Keyed>(s: Seq<T::V>, key: Seq<char>, i: int)
    ensures
        keyed_index::<T>(s, key) matches Some(k) ==> 0 <= k < s.len() && T::key_of(s[k]) == key,
        0 <= i < s.len() && T::key_of(s[i]) == key && (forall|k: int|
            0 <= k < i ==> T::key_of(#[trigger] s[k]) != key) ==> keyed_index::<T>(s, key) == Some(
            i,
        ),
{
    let q = crate::keyed::with_key::<T>(key);
    lemma_first_index(s, q);
    if let Some(k) = keyed_index::<T>(s, key) {
        assert(q(s[k]));
    }
    if 0 <= i < s.len() && T::key_of(s[i]) == key && (forall|k: int|
        0 <= k < i ==> T::key_of(#[trigger] s[k]) != key) {
        assert(q(s[i]));
        match keyed_index::<T>(s, key) {
            Some(k) => {
                if i < k {
                    assert(!q(s[i]));
                }
            },
            None => {
                assert(!q(s[i]));
            },
        }
    }
}

/// What a search gives is the impressions that it found, what was said and the
/// summaries, in this order and cut to what was asked for; and what was chosen
/// is given in the order of the choice.
pub proof fn law_search_gives(
    impressions: Seq<SubconsciousEntryView>,
    raw: Seq<MemoryEntryView>,
    summaries: Seq<SessionSummaryView>,
    candidates: Seq<MemoryEntryView>,
    indices: Seq<usize>,
    max: nat,
    now: i64,
    k: int,
)
    requires
        0 <= k,
    ensures
        ({
            let r = results_of(impressions, raw, summaries, max, now);
            let a = impressions.len() as int;
            let b = a + raw.len();
            &&& r.len() <= max
            &&& r.len() < max ==> r.len() == b + summaries.len()
            &&& k < a && k < max ==> r[k] == impression_entry(impressions[k], now)
            &&& a <= k < b && k < max ==> r[k] == raw[k - a]
            &&& b <= k < b + summaries.len() && k < max ==> r[k] == summary_hit(
                summaries[k - b],
                now,
            )
        }),
        chosen(candidates, indices, max).len() == if indices.len() < max {
            indices.len()
        } else {
            max
        },
        k < max && k < indices.len() ==> chosen(candidates, indices, max)[k]
            == candidates[indices[k] as int],
{
}

/// A query is parted at blanks, commas, pauses and semicolons; its words are the
/// parts that are not blank, without white space at their ends.
pub proof fn law_words_of_a_query(query: Seq<char>, w: Seq<char>, c: char)
    ensures
        ({
            let parts = split_at_chars(query, |c: char| search_separators().contains(c));
            search_words(query).contains(w) <==> w.len() > 0 && exists|i: int|
                0 <= i < parts.len() && trimmed(#[trigger] parts[i]) == w
        }),
        search_separators().contains(c) <==> c == ' ' || c == ',' || c == '，' || c == '、' || c
            == '；',
{
    let parts = split_at_chars(query, |c: char| search_separators().contains(c));
    let g = |s: Seq<char>| trimmed(s);
    let p = |s: Seq<char>| s.len() > 0;
    let all = parts.map_values(g);
    lemma_filter_has(all, p, w);
    if all.contains(w) {
        let i = choose|i: int| 0 <= i < all.len() && all[i] == w;
        assert(trimmed(parts[i]) == w);
    }
    if exists|i: int| 0 <= i < parts.len() && trimmed(#[trigger] parts[i]) == w {
        let i = choose|i: int| 0 <= i < parts.len() && trimmed(#[trigger] parts[i]) == w;
        assert(all[i] == w);
    }
    let s = search_separators();
    assert(s[0] == ' ' && s[1] == ',' && s[2] == '，' && s[3] == '、' && s[4] == '；');
    assert(s.len() == 5);
}

} // verus!
