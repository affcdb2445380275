//! What is found in the stores of the memory, and what is merged into them.

use crate::brains::{MemoryEntryView, MemoryLayer};
use crate::keyed::{Keyed, keyed_item, keyed_put, law_found_has_the_key};
use crate::memory::archive::{
    ArchiveTopicIndex, ArchiveTopicIndexView, matching_topic, matching_topics, topic_matches,
    topic_names, topic_text,
};
use crate::memory::consolidation::{
    TaskSummary, TaskSummaryView, all_consolidated, event_from, events_added, fresh_entries,
    key_actions_of, matters, statement_ends, task_from, tasks_added, tells_of_action,
};
use crate::memory::event_index::{
    EventDayView, EventEntryView, event_added, event_has, event_hit, events_found, events_of,
};
use crate::memory::evolution::{
    NewEvolutionRuleView, active_rules, falls, law_sorted_by_priority, merged_rule, merged_rules,
    united, worded,
};
use crate::memory::experience_pack::{
    ExperiencePack, ExperiencePackView, injected, pack_has, pack_hit, pack_text, packs_found,
    triggered_by,
};
use crate::memory::importance::{decayed, expired_count, is_expired};
use crate::memory::index_layer::{
    IndexEntryView, SourceRefView, entry_ids_of, index_hit, keyword_hits, source_refs_of,
};
use crate::memory::pitfall::{
    NewPitfallView, active_pitfalls, can_count, described, merged, merged_one,
};
use crate::memory::types::{EvolutionRuleView, PitfallRecordView, SessionSummaryView};
use crate::order::law_sorting_orders;
use crate::seqs::{
    lemma_filter_from, lemma_filter_has, lemma_filter_map_contains, lemma_filter_map_from,
    lemma_first_index, lemma_push_has,
};
use crate::shelf::in_scope;
use crate::text::{
    ascii_lower, byte_count, has_text, has_text_in_any_case, joined, lowercase_of, split_at_chars,
    trimmed,
};
use crate::text_laws::{law_text_stands_in, lemma_flat_has, stands_in};
use crate::times::date_of;
use crate::walk::{flat_mapped, some_is};
use crate::weights::{INFINITY, SEVENTEEN_TWENTIETHS};
use vstd::prelude::*;

verus! {

/// `n` stands in `h`, small and capital letters taken for one.
pub open spec fn in_any_case(h: Seq<char>, n: Seq<char>) -> bool {
    stands_in(lowercase_of(h), lowercase_of(n))
}

proof fn lemma_any_case(h: Seq<char>, n: Seq<char>)
    ensures
        has_text_in_any_case(h, n) == in_any_case(h, n),
{
    law_text_stands_in(lowercase_of(h), lowercase_of(n));
}

proof fn lemma_some_has(texts: Seq<Seq<char>>, kw: Seq<char>)
    ensures
        some_is(texts, |s: Seq<char>| has_text_in_any_case(s, kw)) == exists|i: int|
            0 <= i < texts.len() && in_any_case(#[trigger] texts[i], kw),
{
    let p = |s: Seq<char>| has_text_in_any_case(s, kw);
    assert forall|i: int| 0 <= i < texts.len() implies p(#[trigger] texts[i]) == in_any_case(
        texts[i],
        kw,
    ) by {
        lemma_any_case(texts[i], kw);
    }
    if some_is(texts, p) {
        let i = choose|i: int| 0 <= i < texts.len() && p(#[trigger] texts[i]);
        assert(in_any_case(texts[i], kw));
    }
    if exists|i: int| 0 <= i < texts.len() && in_any_case(#[trigger] texts[i], kw) {
        let i = choose|i: int| 0 <= i < texts.len() && in_any_case(#[trigger] texts[i], kw);
        assert(p(texts[i]));
    }
}

proof fn lemma_some_tag(tags: Seq<Seq<char>>, kw: Seq<char>)
    ensures
        some_is(tags, |t: Seq<char>| ascii_lower(t) == ascii_lower(kw)) == exists|i: int|
            0 <= i < tags.len() && ascii_lower(#[trigger] tags[i]) == ascii_lower(kw),
{
    let p = |t: Seq<char>| ascii_lower(t) == ascii_lower(kw);
    if some_is(tags, p) {
        let i = choose|i: int| 0 <= i < tags.len() && p(#[trigger] tags[i]);
        assert(ascii_lower(tags[i]) == ascii_lower(kw));
    }
    if exists|i: int| 0 <= i < tags.len() && ascii_lower(#[trigger] tags[i]) == ascii_lower(kw) {
        let i = choose|i: int|
            0 <= i < tags.len() && ascii_lower(#[trigger] tags[i]) == ascii_lower(kw);
        assert(p(tags[i]));
    }
}

// ---------------------------------------------------------------------------
// Events
// ---------------------------------------------------------------------------

/// The event speaks of the keyword: it stands in what is said of the event or
/// in something that was done, or is one of its tags.
pub open spec fn speaks_of_event(e: EventEntryView, kw: Seq<char>) -> bool {
    ||| in_any_case(e.summary, kw)
    ||| exists|i: int| 0 <= i < e.tags.len() && ascii_lower(#[trigger] e.tags[i]) == ascii_lower(kw)
    ||| exists|i: int| 0 <= i < e.key_actions.len() && in_any_case(#[trigger] e.key_actions[i], kw)
}

/// One of the keywords is enough for an event to be found.
pub proof fn law_events_are_found_by_any_keyword(e: EventEntryView, keywords: Seq<Seq<char>>)
    ensures
        event_hit(keywords)(e) <==> exists|k: int|
            0 <= k < keywords.len() && speaks_of_event(e, #[trigger] keywords[k]),
{
    let p = |kw: Seq<char>| event_has(e, kw);
    assert forall|k: int| 0 <= k < keywords.len() implies p(#[trigger] keywords[k])
        == speaks_of_event(e, keywords[k]) by {
        lemma_any_case(e.summary, keywords[k]);
        lemma_some_tag(e.tags, keywords[k]);
        lemma_some_has(e.key_actions, keywords[k]);
    }
    if some_is(keywords, p) {
        let k = choose|k: int| 0 <= k < keywords.len() && p(#[trigger] keywords[k]);
        assert(speaks_of_event(e, keywords[k]));
    }
    if exists|k: int| 0 <= k < keywords.len() && speaks_of_event(e, #[trigger] keywords[k]) {
        let k = choose|k: int|
            0 <= k < keywords.len() && speaks_of_event(e, #[trigger] keywords[k]);
        assert(p(keywords[k]));
    }
}

/// All events of all days are events, and no others.
pub proof fn law_events_of_the_days(days: Seq<EventDayView>, e: EventEntryView)
    ensures
        events_of(days).contains(e) <==> exists|i: int|
            0 <= i < days.len() && (#[trigger] days[i]).events.contains(e),
{
    let g = |d: EventDayView| d.events;
    lemma_flat_has(days, g, e);
    if exists|i: int| 0 <= i < days.len() && (#[trigger] days[i]).events.contains(e) {
        let i = choose|i: int| 0 <= i < days.len() && (#[trigger] days[i]).events.contains(e);
        assert(g(days[i]).contains(e));
    }
    if exists|i: int| 0 <= i < days.len() && g(#[trigger] days[i]).contains(e) {
        let i = choose|i: int| 0 <= i < days.len() && g(#[trigger] days[i]).contains(e);
        assert(days[i].events.contains(e));
    }
}

/// `m` tells of the event `e`.
pub open spec fn tells_of_event(m: MemoryEntryView, e: EventEntryView) -> bool {
    &&& m.id == e.id
    &&& m.content == e.summary
    &&& m.tags == e.tags
    &&& m.importance == e.importance
    &&& m.created_at == e.created_at
    &&& m.source.memory_id == e.id
    &&& m.layer == MemoryLayer::EventIndex
    &&& m.confidence == SEVENTEEN_TWENTIETHS
    &&& m.consolidated
}

/// `m` tells of an event of one of the days that a keyword hits.
pub open spec fn tells_of_a_hit(
    days: Seq<EventDayView>,
    keywords: Seq<Seq<char>>,
    m: MemoryEntryView,
) -> bool {
    exists|e: EventEntryView| #[trigger]
        events_of(days).contains(e) && event_hit(keywords)(e) && tells_of_event(m, e)
}

/// All that is found tells of an event that one of the keywords hits, it is no
/// more than was asked for, and where it is less every such event is told of.
pub proof fn law_found_events(days: Seq<EventDayView>, keywords: Seq<Seq<char>>, limit: nat)
    ensures
        ({
            let r = events_found(days, keywords, limit);
            let max = if limit == 0 {
                1
            } else {
                limit
            };
            &&& r.len() <= max
            &&& forall|i: int|
                0 <= i < r.len() ==> tells_of_a_hit(days, keywords, #[trigger] r[i])
            &&& r.len() < max ==> forall|e: EventEntryView| #[trigger]
                events_of(days).contains(e) && event_hit(keywords)(e) ==> exists|i: int|
                    0 <= i < r.len() && tells_of_event(#[trigger] r[i], e)
        }),
{
    let all = events_of(days);
    let p = event_hit(keywords);
    let hits = all.filter(p);
    let r = events_found(days, keywords, limit);
    assert forall|i: int| 0 <= i < r.len() implies tells_of_a_hit(
        days,
        keywords,
        #[trigger] r[i],
    ) by {
        let k = lemma_filter_from(all, p, i);
        assert(all.contains(hits[i]));
        assert(tells_of_event(r[i], hits[i]));
    }
    let max = if limit == 0 { 1 } else { limit };
    if r.len() < max {
        assert forall|e: EventEntryView| #[trigger] all.contains(e) && p(e) implies exists|i: int|
            0 <= i < r.len() && tells_of_event(#[trigger] r[i], e) by {
            lemma_filter_has(all, p, e);
            let i = choose|i: int| 0 <= i < hits.len() && hits[i] == e;
            assert(tells_of_event(r[i], e));
        }
    }
}

// ---------------------------------------------------------------------------
// The index
// ---------------------------------------------------------------------------

/// One of the keywords is enough for an entry of the index to be found, in what
/// it says or as one of its tags.
pub proof fn law_index_is_searched_by_any_keyword(e: IndexEntryView, keywords: Seq<Seq<char>>)
    ensures
        index_hit(keywords)(e) <==> exists|k: int|
            0 <= k < keywords.len() && (in_any_case(e.summary, #[trigger] keywords[k]) || exists|
                i: int,
            |
                0 <= i < e.tags.len() && ascii_lower(#[trigger] e.tags[i]) == ascii_lower(
                    keywords[k],
                )),
{
    let p = |kw: Seq<char>| keyword_hits(e, kw);
    assert forall|k: int| 0 <= k < keywords.len() implies p(#[trigger] keywords[k]) == (
    in_any_case(e.summary, keywords[k]) || exists|i: int|
        0 <= i < e.tags.len() && ascii_lower(#[trigger] e.tags[i]) == ascii_lower(keywords[k])) by {
        lemma_any_case(e.summary, keywords[k]);
        lemma_some_tag(e.tags, keywords[k]);
    }
    if some_is(keywords, p) {
        let k = choose|k: int| 0 <= k < keywords.len() && p(#[trigger] keywords[k]);
        assert(p(keywords[k]));
    }
    if exists|k: int|
        0 <= k < keywords.len() && (in_any_case(e.summary, #[trigger] keywords[k]) || exists|i: int|
            0 <= i < e.tags.len() && ascii_lower(#[trigger] e.tags[i]) == ascii_lower(
                keywords[k],
            )) {
        let k = choose|k: int|
            0 <= k < keywords.len() && (in_any_case(e.summary, #[trigger] keywords[k]) || exists|
                i: int,
            |
                0 <= i < e.tags.len() && ascii_lower(#[trigger] e.tags[i]) == ascii_lower(
                    keywords[k],
                ));
        assert(p(keywords[k]));
    }
}

/// The entries that are referred to are those that some source names, each
/// once.
pub proof fn law_entries_referred_to(s: Seq<IndexEntryView>, id: Seq<char>)
    ensures
        entry_ids_of(source_refs_of(s)).contains(id) <==> exists|i: int, k: int|
            0 <= i < s.len() && 0 <= k < s[i].source_refs.len() && (
            #[trigger] s[i].source_refs[k]).entry_ids.contains(id),
        entry_ids_of(source_refs_of(s)).no_duplicates(),
{
    let g = |r: SourceRefView| r.entry_ids;
    let h = |e: IndexEntryView| e.source_refs;
    let refs = source_refs_of(s);
    let ids = flat_mapped(refs, g);
    law_united(Seq::empty(), ids);
    lemma_flat_has(refs, g, id);
    assert(!Seq::<Seq<char>>::empty().contains(id));
    if ids.contains(id) {
        let k = choose|k: int| 0 <= k < refs.len() && g(#[trigger] refs[k]).contains(id);
        let x = refs[k];
        lemma_flat_has(s, h, x);
        assert(refs.contains(x));
        let i = choose|i: int| 0 <= i < s.len() && h(#[trigger] s[i]).contains(x);
        let j = choose|j: int| 0 <= j < s[i].source_refs.len() && s[i].source_refs[j] == x;
        assert(s[i].source_refs[j].entry_ids.contains(id));
    }
    if exists|i: int, k: int|
        0 <= i < s.len() && 0 <= k < s[i].source_refs.len() && (
        #[trigger] s[i].source_refs[k]).entry_ids.contains(id) {
        let (i, k) = choose|i: int, k: int|
            0 <= i < s.len() && 0 <= k < s[i].source_refs.len() && (
            #[trigger] s[i].source_refs[k]).entry_ids.contains(id);
        let x = s[i].source_refs[k];
        lemma_flat_has(s, h, x);
        assert(h(s[i]).contains(x));
        let j = choose|j: int| 0 <= j < refs.len() && refs[j] == x;
        assert(g(refs[j]).contains(id));
    }
}

/// What is united has what was there, in its place, and all that is new, once.
pub proof fn law_united(have: Seq<Seq<char>>, more: Seq<Seq<char>>)
    ensures
        have.is_prefix_of(united(have, more)),
        forall|x: Seq<char>|
            united(have, more).contains(x) <==> have.contains(x) || more.contains(x),
        have.no_duplicates() ==> united(have, more).no_duplicates(),
    decreases more.len(),
{
    if more.len() > 0 {
        let rest = more.drop_last();
        law_united(have, rest);
        let before = united(have, rest);
        let r = united(have, more);
        let a = more.last();
        assert(more =~= rest.push(a));
        assert forall|x: Seq<char>| r.contains(x) <==> have.contains(x) || more.contains(x) by {
            lemma_push_has(rest, a, x);
            lemma_push_has(before, a, x);
        }
        assert(have.is_prefix_of(r));
        if have.no_duplicates() && !before.contains(a) {
            assert forall|i: int, j: int| 0 <= i < r.len() && 0 <= j < r.len() && i != j implies r[i]
                != r[j] by {
                if i < before.len() && j < before.len() {
                } else if i < before.len() {
                    assert(before.contains(before[i]));
                } else {
                    assert(before.contains(before[j]));
                }
            }
        }
    }
}

// ---------------------------------------------------------------------------
// Topics
// ---------------------------------------------------------------------------

/// A topic is one of those found where one of the keywords stands in its name,
/// its trigger words or its summary, written one behind the other.
pub proof fn law_topics_are_found_by_any_keyword(
    i: ArchiveTopicIndexView,
    keywords: Seq<Seq<char>>,
)
    ensures
        topic_matches(i, keywords) <==> exists|k: int|
            0 <= k < keywords.len() && in_any_case(
                i.topic + " "@ + joined(i.trigger_keywords, " "@) + " "@ + i.merged_summary,
                #[trigger] keywords[k],
            ),
{
    let text = i.topic + " "@ + joined(i.trigger_keywords, " "@) + " "@ + i.merged_summary;
    let p = |kw: Seq<char>| has_text(topic_text(i), lowercase_of(kw));
    assert forall|k: int| 0 <= k < keywords.len() implies p(#[trigger] keywords[k]) == in_any_case(
        text,
        keywords[k],
    ) by {
        law_text_stands_in(lowercase_of(text), lowercase_of(keywords[k]));
    }
    if some_is(keywords, p) {
        let k = choose|k: int| 0 <= k < keywords.len() && p(#[trigger] keywords[k]);
        assert(in_any_case(text, keywords[k]));
    }
    if exists|k: int| 0 <= k < keywords.len() && in_any_case(text, #[trigger] keywords[k]) {
        let k = choose|k: int| 0 <= k < keywords.len() && in_any_case(text, #[trigger] keywords[k]);
        assert(p(keywords[k]));
    }
}

/// All topics that are found are there and match, no more than were asked for;
/// and where they are fewer, each that matches is found, the first of its name.
pub proof fn law_found_topics(
    s: Seq<ArchiveTopicIndexView>,
    keywords: Seq<Seq<char>>,
    limit: nat,
)
    ensures
        ({
            let r = matching_topics(s, keywords, limit);
            &&& r.len() <= limit
            &&& forall|i: int|
                0 <= i < r.len() ==> s.contains(#[trigger] r[i]) && topic_matches(r[i], keywords)
            &&& r.len() < limit ==> forall|k: int|
                0 <= k < s.len() && topic_matches(#[trigger] s[k], keywords) && (forall|j: int|
                    0 <= j < k ==> (#[trigger] s[j]).topic != s[k].topic) ==> r.contains(s[k])
        }),
{
    let names = s.map_values(|i: ArchiveTopicIndexView| i.topic);
    let sorted = topic_names(s);
    let f = |name: Seq<char>| matching_topic(s, name, keywords);
    let all = sorted.filter_map(f);
    let r = matching_topics(s, keywords, limit);
    assert forall|i: int| 0 <= i < r.len() implies s.contains(#[trigger] r[i]) && topic_matches(
        r[i],
        keywords,
    ) by {
        let k = lemma_filter_map_from(sorted, f, i);
        law_found_has_the_key::<ArchiveTopicIndex>(s, sorted[k]);
    }
    if r.len() < limit {
        assert forall|k: int|
            0 <= k < s.len() && topic_matches(#[trigger] s[k], keywords) && (forall|j: int|
                0 <= j < k ==> (#[trigger] s[j]).topic != s[k].topic) implies r.contains(s[k]) by {
            law_sorting_orders(names);
            assert(names[k] == s[k].topic);
            assert(names.contains(s[k].topic));
            names.to_multiset_ensures();
            sorted.to_multiset_ensures();
            assert(names.to_multiset().count(s[k].topic) > 0);
            assert(sorted.contains(s[k].topic));
            let n = choose|n: int| 0 <= n < sorted.len() && sorted[n] == s[k].topic;
            law_found_has_the_key::<ArchiveTopicIndex>(s, s[k].topic);
            assert(<ArchiveTopicIndex as Keyed>::key_of(s[k]) == s[k].topic);
            let x = keyed_item::<ArchiveTopicIndex>(s, s[k].topic)->0;
            let i = choose|i: int|
                0 <= i < s.len() && #[trigger] s[i] == x && forall|j: int|
                    0 <= j < i ==> <ArchiveTopicIndex as Keyed>::key_of(#[trigger] s[j])
                        != s[k].topic;
            assert(i == k) by {
                if i < k {
                    assert(s[i].topic != s[k].topic);
                }
                if k < i {
                    assert(<ArchiveTopicIndex as Keyed>::key_of(s[k]) != s[k].topic);
                }
            }
            assert(f(sorted[n]) == Some(s[k]));
            lemma_filter_map_contains(sorted, f, n);
        }
    }
}

// ---------------------------------------------------------------------------
// Packs of experience
// ---------------------------------------------------------------------------

/// The pack speaks of the keyword: in its title, its text, a shortcut or a
/// pattern that triggers it.
pub open spec fn speaks_of_pack(p: ExperiencePackView, kw: Seq<char>) -> bool {
    ||| in_any_case(p.title, kw)
    ||| in_any_case(p.context_snippet, kw)
    ||| exists|i: int| 0 <= i < p.shortcuts.len() && in_any_case(#[trigger] p.shortcuts[i], kw)
    ||| exists|i: int|
        0 <= i < p.trigger_patterns.len() && in_any_case(#[trigger] p.trigger_patterns[i], kw)
}

/// One of the keywords is enough for a pack to be found; and a pack is
/// triggered by a text in which one of its patterns stands.
pub proof fn law_packs_are_found_by_any_keyword(
    p: ExperiencePackView,
    keywords: Seq<Seq<char>>,
    content: Seq<char>,
)
    ensures
        pack_hit(keywords)(p) <==> exists|k: int|
            0 <= k < keywords.len() && speaks_of_pack(p, #[trigger] keywords[k]),
        triggered_by(content)(p) <==> exists|i: int|
            0 <= i < p.trigger_patterns.len() && in_any_case(
                content,
                #[trigger] p.trigger_patterns[i],
            ),
{
    let q = |kw: Seq<char>| pack_has(p, kw);
    assert forall|k: int| 0 <= k < keywords.len() implies q(#[trigger] keywords[k])
        == speaks_of_pack(p, keywords[k]) by {
        lemma_any_case(p.title, keywords[k]);
        lemma_any_case(p.context_snippet, keywords[k]);
        lemma_some_has(p.shortcuts, keywords[k]);
        lemma_some_has(p.trigger_patterns, keywords[k]);
    }
    if some_is(keywords, q) {
        let k = choose|k: int| 0 <= k < keywords.len() && q(#[trigger] keywords[k]);
        assert(speaks_of_pack(p, keywords[k]));
    }
    if exists|k: int| 0 <= k < keywords.len() && speaks_of_pack(p, #[trigger] keywords[k]) {
        let k = choose|k: int| 0 <= k < keywords.len() && speaks_of_pack(p, #[trigger] keywords[k]);
        assert(q(keywords[k]));
    }
    let t = |s: Seq<char>| has_text_in_any_case(content, s);
    assert forall|i: int| 0 <= i < p.trigger_patterns.len() implies t(
        #[trigger] p.trigger_patterns[i],
    ) == in_any_case(content, p.trigger_patterns[i]) by {
        lemma_any_case(content, p.trigger_patterns[i]);
    }
    if some_is(p.trigger_patterns, t) {
        let i = choose|i: int|
            0 <= i < p.trigger_patterns.len() && t(#[trigger] p.trigger_patterns[i]);
        assert(in_any_case(content, p.trigger_patterns[i]));
    }
    if exists|i: int|
        0 <= i < p.trigger_patterns.len() && in_any_case(content, #[trigger] p.trigger_patterns[i]) {
        let i = choose|i: int|
            0 <= i < p.trigger_patterns.len() && in_any_case(
                content,
                #[trigger] p.trigger_patterns[i],
            );
        assert(t(p.trigger_patterns[i]));
    }
}

/// All packs that are found are there, of the category that was asked for, and
/// hit; no more than were asked for; and where they are fewer, each such pack
/// is found.
pub proof fn law_found_packs(
    s: Seq<ExperiencePackView>,
    keywords: Seq<Seq<char>>,
    category: Option<Seq<char>>,
    limit: nat,
    p: ExperiencePackView,
)
    ensures
        ({
            let r = packs_found(s, keywords, category, limit);
            let due = s.contains(p) && (category is Some ==> p.category == category->0) && pack_hit(
                keywords,
            )(p);
            &&& r.len() <= limit
            &&& r.contains(p) ==> due
            &&& due && r.len() < limit ==> r.contains(p)
        }),
{
    let a = in_scope::<ExperiencePack>(category);
    let b = pack_hit(keywords);
    let first = s.filter(a);
    let all = first.filter(b);
    let r = packs_found(s, keywords, category, limit);
    lemma_filter_has(s, a, p);
    lemma_filter_has(first, b, p);
    if r.contains(p) {
        let i = choose|i: int| 0 <= i < r.len() && r[i] == p;
        assert(all[i] == p);
    }
}

/// What is handed over is the packs one behind the other, each with its
/// category, its title and its text, as many of the first ones as fit: the next
/// would not have.
pub proof fn law_as_many_packs_as_fit(
    packs: Seq<ExperiencePackView>,
    before: Seq<char>,
    budget: nat,
)
    ensures
        exists|n: int|
            0 <= n <= packs.len() && injected(packs, before, budget) == before + #[trigger]
                texts_of_packs(packs.take(n)) && (n < packs.len() ==> byte_count(
                injected(packs, before, budget),
            ) + byte_count(pack_text(packs[n])) > budget),
    decreases packs.len(),
{
    if packs.len() == 0 || byte_count(before) + byte_count(pack_text(packs[0])) > budget {
        assert(packs.take(0) =~= Seq::<ExperiencePackView>::empty());
        assert(before + texts_of_packs(packs.take(0)) =~= before);
    } else {
        let rest = packs.drop_first();
        let next = before + pack_text(packs[0]);
        law_as_many_packs_as_fit(rest, next, budget);
        let n = choose|n: int|
            0 <= n <= rest.len() && injected(rest, next, budget) == next + #[trigger]
                texts_of_packs(rest.take(n)) && (n < rest.len() ==> byte_count(
                injected(rest, next, budget),
            ) + byte_count(pack_text(rest[n])) > budget);
        assert(packs.take(n + 1).drop_first() =~= rest.take(n));
        assert(next + texts_of_packs(rest.take(n)) =~= before + texts_of_packs(packs.take(n + 1)));
        if n < rest.len() {
            assert(rest[n] == packs[n + 1]);
        }
    }
}

/// The packs one behind the other.
pub open spec fn texts_of_packs(packs: Seq<ExperiencePackView>) -> Seq<char>
    decreases packs.len(),
{
    if packs.len() == 0 {
        Seq::empty()
    } else {
        "["@ + packs[0].category + "] "@ + packs[0].title + "\n"@ + packs[0].context_snippet
            + "\n"@ + texts_of_packs(packs.drop_first())
    }
}

// ---------------------------------------------------------------------------
// Pitfalls and rules
// ---------------------------------------------------------------------------

/// Two descriptions are one, white space at the ends and the case of letters
/// aside.
pub open spec fn same_pitfall(a: Seq<char>, b: Seq<char>) -> bool {
    ascii_lower(trimmed(a)) == ascii_lower(trimmed(b))
}

/// A pitfall that is known counts once more and takes over a correction that is
/// given; any other comes in as a new one that has come up once; and the others
/// stay.
pub proof fn law_pitfall_is_merged(records: Seq<PitfallRecordView>, n: NewPitfallView, time: i64)
    requires
        can_count(records, 1),
    ensures
        ({
            let (after, x) = merged_one(records, n, time);
            if exists|i: int|
                0 <= i < records.len() && same_pitfall(
                    (#[trigger] records[i]).description,
                    n.description,
                ) {
                exists|i: int|
                    0 <= i < records.len() && same_pitfall(
                        (#[trigger] records[i]).description,
                        n.description,
                    ) && after == records.update(i, x) && x.id == records[i].id && x.description
                        == records[i].description && x.category == records[i].category
                        && x.occurred_at == records[i].occurred_at && x.superseded
                        == records[i].superseded && x.occurrence_count
                        == records[i].occurrence_count + 1 && x.user_correction == (
                    if n.user_correction is Some {
                        n.user_correction
                    } else {
                        records[i].user_correction
                    })
            } else {
                &&& after == records.push(x)
                &&& x.category == n.category
                &&& x.description == n.description
                &&& x.user_correction == n.user_correction
                &&& x.occurred_at == time
                &&& x.occurrence_count == 1
                &&& !x.superseded
            }
        }),
{
    let p = |r: PitfallRecordView|
        ascii_lower(trimmed(r.description)) == ascii_lower(trimmed(n.description));
    lemma_first_index(records, p);
    let (after, x) = merged_one(records, n, time);
    match described(records, n.description) {
        Some(i) => {
            assert(p(records[i]));
            assert(same_pitfall(records[i].description, n.description));
        },
        None => {
            assert forall|i: int| 0 <= i < records.len() implies !same_pitfall(
                (#[trigger] records[i]).description,
                n.description,
            ) by {
                assert(!p(records[i]));
            }
        },
    }
}

/// Pitfalls are merged one after the other.
pub proof fn law_pitfalls_are_merged_in_turn(
    records: Seq<PitfallRecordView>,
    new: Seq<NewPitfallView>,
    n: NewPitfallView,
    times: Seq<i64>,
)
    ensures
        new.len() == 0 ==> merged(records, new, times).0 == records && merged(
            records,
            new,
            times,
        ).1.len() == 0,
        merged(records, new.push(n), times) == ({
            let before = merged(records, new, times);
            let after = merged_one(before.0, n, times[new.len() as int]);
            (after.0, before.1.push(after.1))
        }),
{
    assert(new.push(n).drop_last() =~= new);
}

/// A pitfall matters where it has come up and nothing has replaced it.
pub proof fn law_pitfalls_that_matter(records: Seq<PitfallRecordView>, p: PitfallRecordView)
    ensures
        active_pitfalls(records).contains(p) <==> records.contains(p) && p.occurrence_count > 0
            && !p.superseded,
{
    lemma_filter_has(
        records,
        |p: PitfallRecordView| p.occurrence_count > 0 && !p.superseded,
        p,
    );
}

/// A rule that is known keeps its words, takes the higher of the two priorities
/// and the pitfalls of both; any other comes in as it is; and the others stay.
pub proof fn law_rule_is_merged(
    rules: Seq<EvolutionRuleView>,
    n: NewEvolutionRuleView,
    time: i64,
)
    ensures
        ({
            let (after, x) = merged_rule(rules, n, time);
            if exists|i: int|
                0 <= i < rules.len() && lowercase_of(trimmed((#[trigger] rules[i]).rule))
                    == lowercase_of(trimmed(n.rule)) {
                exists|i: int|
                    0 <= i < rules.len() && lowercase_of(trimmed((#[trigger] rules[i]).rule))
                        == lowercase_of(trimmed(n.rule)) && after == rules.update(i, x) && x.id
                        == rules[i].id && x.rule == rules[i].rule && x.created_at
                        == rules[i].created_at && x.superseded == rules[i].superseded && x.priority
                        >= rules[i].priority && x.priority >= n.priority && (x.priority
                        == rules[i].priority || x.priority == n.priority) && (forall|id: Seq<char>|
                        x.source_pitfall_ids.contains(id) <==> rules[i].source_pitfall_ids.contains(
                            id,
                        ) || n.source_pitfall_ids.contains(id))
            } else {
                &&& after == rules.push(x)
                &&& x.rule == n.rule
                &&& x.priority == n.priority
                &&& x.source_pitfall_ids == n.source_pitfall_ids
                &&& x.created_at == time
                &&& !x.superseded
            }
        }),
{
    let p = |r: EvolutionRuleView| lowercase_of(trimmed(r.rule)) == lowercase_of(trimmed(n.rule));
    lemma_first_index(rules, p);
    match worded(rules, n.rule) {
        Some(i) => {
            assert(p(rules[i]));
            law_united(rules[i].source_pitfall_ids, n.source_pitfall_ids);
            assert(lowercase_of(trimmed(rules[i].rule)) == lowercase_of(trimmed(n.rule)));
        },
        None => {
            assert forall|i: int| 0 <= i < rules.len() implies lowercase_of(
                trimmed((#[trigger] rules[i]).rule),
            ) != lowercase_of(trimmed(n.rule)) by {
                assert(!p(rules[i]));
            }
        },
    }
}

/// Rules are merged one after the other.
pub proof fn law_rules_are_merged_in_turn(
    rules: Seq<EvolutionRuleView>,
    new: Seq<NewEvolutionRuleView>,
    n: NewEvolutionRuleView,
    times: Seq<i64>,
)
    ensures
        new.len() == 0 ==> merged_rules(rules, new, times).0 == rules && merged_rules(
            rules,
            new,
            times,
        ).1.len() == 0,
        merged_rules(rules, new.push(n), times) == ({
            let before = merged_rules(rules, new, times);
            let after = merged_rule(before.0, n, times[new.len() as int]);
            (after.0, before.1.push(after.1))
        }),
{
    assert(new.push(n).drop_last() =~= new);
}

/// A rule is in force where nothing has replaced it.
pub proof fn law_rules_in_force(rules: Seq<EvolutionRuleView>, x: EvolutionRuleView)
    ensures
        active_rules(rules).contains(x) <==> rules.contains(x) && !x.superseded,
        falls(active_rules(rules)),
{
    let p = |x: EvolutionRuleView| !x.superseded;
    let live = rules.filter(p);
    let r = active_rules(rules);
    lemma_filter_has(rules, p, x);
    law_sorted_by_priority(live, 0);
    live.to_multiset_ensures();
    r.to_multiset_ensures();
    assert(live.contains(x) <==> live.to_multiset().count(x) > 0);
    assert(r.contains(x) <==> r.to_multiset().count(x) > 0);
}

// ---------------------------------------------------------------------------
// Consolidation and decay
// ---------------------------------------------------------------------------

/// `s` tells that something was done.
pub open spec fn tells_what_was_done(s: Seq<char>) -> bool {
    ||| stands_in(s, "完成了"@)
    ||| stands_in(s, "修复了"@)
    ||| stands_in(s, "创建了"@)
    ||| stands_in(s, "删除了"@)
    ||| stands_in(s, "实现了"@)
    ||| stands_in(s, "优化了"@)
    ||| stands_in(s, "重写了"@)
}

/// The key actions of a text are its statements that tell of something done,
/// without white space at their ends.
pub proof fn law_key_actions(content: Seq<char>, a: Seq<char>)
    ensures
        ({
            let parts = split_at_chars(content, |c: char| statement_ends().contains(c));
            key_actions_of(content).contains(a) <==> exists|i: int|
                0 <= i < parts.len() && tells_what_was_done(#[trigger] parts[i]) && trimmed(parts[i])
                    == a && a.len() > 0
        }),
        forall|c: char| #[trigger]
            statement_ends().contains(c) <==> c == '。' || c == '，' || c == '；' || c == '！' || c
                == '.',
{
    let parts = split_at_chars(content, |c: char| statement_ends().contains(c));
    let p = |s: Seq<char>| tells_of_action(s);
    let g = |s: Seq<char>| trimmed(s);
    let q = |s: Seq<char>| s.len() > 0;
    let told = parts.filter(p);
    let ends = statement_ends();
    assert forall|c: char| #[trigger] ends.contains(c) <==> c == '。' || c == '，' || c == '；' || c
        == '！' || c == '.' by {
        assert(ends[0] == '。' && ends[1] == '，' && ends[2] == '；' && ends[3] == '！' && ends[4]
            == '.');
    }
    let short = told.map_values(g);
    lemma_filter_has(short, q, a);
    if short.contains(a) {
        let k = choose|k: int| 0 <= k < short.len() && short[k] == a;
        let i = lemma_filter_from(parts, p, k);
        lemma_tells(parts[i]);
    }
    if exists|i: int|
        0 <= i < parts.len() && tells_what_was_done(#[trigger] parts[i]) && trimmed(parts[i]) == a
            && a.len() > 0 {
        let i = choose|i: int|
            0 <= i < parts.len() && tells_what_was_done(#[trigger] parts[i]) && trimmed(parts[i])
                == a && a.len() > 0;
        lemma_tells(parts[i]);
        assert(parts.contains(parts[i]));
        lemma_filter_has(parts, p, parts[i]);
        let k = choose|k: int| 0 <= k < told.len() && told[k] == parts[i];
        assert(short[k] == a);
    }
}

proof fn lemma_tells(s: Seq<char>)
    ensures
        tells_of_action(s) == tells_what_was_done(s),
{
    law_text_stands_in(s, "完成了"@);
    law_text_stands_in(s, "修复了"@);
    law_text_stands_in(s, "创建了"@);
    law_text_stands_in(s, "删除了"@);
    law_text_stands_in(s, "实现了"@);
    law_text_stands_in(s, "优化了"@);
    law_text_stands_in(s, "重写了"@);
}

/// What is new becomes an event of the day and, where it matters much, a task;
/// both say what the entry says, and all is marked as taken over.
pub proof fn law_new_entries_become_events(
    days: Seq<EventDayView>,
    tasks: Seq<TaskSummaryView>,
    entries: Seq<MemoryEntryView>,
    e: MemoryEntryView,
    now: i64,
)
    ensures
        events_added(days, entries.push(e), now) == event_added(
            events_added(days, entries, now),
            event_from(e, now),
        ),
        entries.len() == 0 ==> events_added(days, entries, now) == days && tasks_added(
            tasks,
            entries,
            now,
        ) == tasks,
        tasks_added(tasks, entries.push(e), now) == keyed_put::<TaskSummary>(
            tasks_added(tasks, entries, now),
            task_from(e, now),
        ),
        event_from(e, now).summary == e.content,
        event_from(e, now).tags == e.tags,
        event_from(e, now).importance == e.importance,
        event_from(e, now).created_at == now,
        event_from(e, now).id == "ev-"@ + e.id,
        date_of(now) is Some ==> event_from(e, now).date == date_of(now)->0,
        task_from(e, now).task_description == e.content,
        task_from(e, now).id == "task-"@ + e.id,
        task_from(e, now).success_rate == e.confidence,
        task_from(e, now).reasoning_path == seq![e.content],
        fresh_entries(entries).contains(e) <==> entries.contains(e) && !e.consolidated,
        e.importance <= INFINITY ==> (matters(e) <==> e.importance >= 0x3fe9_9999_9999_999a),
        all_consolidated(entries).len() == entries.len(),
        forall|i: int|
            0 <= i < entries.len() ==> #[trigger] all_consolidated(entries)[i] == (MemoryEntryView {
                consolidated: true,
                ..entries[i]
            }),
{
    assert(entries.push(e).drop_last() =~= entries);
    lemma_filter_has(entries, |e: MemoryEntryView| !e.consolidated, e);
}

/// A summary is given up where it is over thirty whole days old and was neither
/// archived nor given up before; as many are counted; and nothing else changes.
pub proof fn law_old_summaries_are_given_up(s: Seq<SessionSummaryView>, now: i64, i: int)
    requires
        0 <= i < s.len(),
    ensures
        ({
            let r = decayed(s, now);
            let due = !s[i].superseded && !s[i].archived && now - s[i].created_at >= 31 * 86_400_000;
            &&& r.len() == s.len()
            &&& r[i] == (SessionSummaryView { superseded: s[i].superseded || due, ..s[i] })
            &&& due ==> expired_count(s, now) > 0
            &&& expired_count(s.push(s[i]), now) == expired_count(s, now) + (if due {
                1int
            } else {
                0
            })
        }),
{
    let p = |x: SessionSummaryView| is_expired(x, now);
    reveal(Seq::filter);
    assert(s.push(s[i]).drop_last() =~= s);
    lemma_filter_has(s, p, s[i]);
    assert(s.contains(s[i]));
    if p(s[i]) {
        assert(s.filter(p).contains(s[i]));
    }
}

} // verus!
