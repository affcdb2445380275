//! What the memory brain gathers, asks and answers.

use crate::brains::{BrainResponsePayloadView, MemoryEntryView, MemoryLayer};
use crate::json::{JsonView, text_of_json};
use crate::main_brain::tool_loop::head_of;
use crate::memory::analyzer::recallable_summaries;
use crate::memory::archive::ArchiveTopicIndexView;
use crate::memory::evolution::active_rules;
use crate::memory::ids::is_alphanumeric;
use crate::memory::keywords::{all_words, fresh, keywords_of, segments, separators};
use crate::memory::memory_brain::{
    CandidateSourcesView, all_session_entries, candidates_of, deep_query, fact_entry, fast_thought,
    impression_entry, index_list, is_analysis_due, labelled, listed_index, listed_indices,
    other_than, pitfall_entry, raw_entry_of, recall_answer, recallable_rules, recent_sessions,
    recent_texts, request_query, request_separators, rule_entry, said_json, session_entries,
    short_term_entry_of, slow_thought, summary_entry, topic_entry,
};
use crate::memory::pitfall::active_pitfalls;
use crate::memory::store_laws::law_rules_in_force;
use crate::memory::types::{
    EvolutionRuleView, PitfallRecordView, RawEntryView, SessionSummaryView, SubconsciousEntryView,
};
use crate::seqs::{
    lemma_filter_from, lemma_filter_has, lemma_filter_map_contains, lemma_filter_map_has,
    lemma_filter_parts, lemma_has_parts,
};
use crate::text::{find_from, joined, lowercase_of, signed_decimal, split_at_chars, trimmed};
use crate::text_laws::{
    law_found_is_the_first, law_joined_with_separators, law_split_at_separators,
    lemma_stands_between, stands_in,
};
use crate::times::rfc3339_of;
use crate::walk::at_most;
use crate::weights::{
    FIFTH, FOUR_FIFTHS, NINETEEN_TWENTIETHS, NINE_TENTHS, SEVENTEEN_TWENTIETHS, SEVEN_TENTHS, TENTH,
    THREE_FIFTHS, THREE_QUARTERS, THREE_TENTHS,
};
use vstd::prelude::*;

verus! {

// ---------------------------------------------------------------------------
// Candidates
// ---------------------------------------------------------------------------

/// Each candidate says what it stands for: it has the id and the time of its
/// source, and tells of it what there is to tell.
pub proof fn law_candidates_say_what_they_stand_for(
    e: SubconsciousEntryView,
    s: SessionSummaryView,
    p: PitfallRecordView,
    r: EvolutionRuleView,
    fact: Seq<char>,
    now: i64,
)
    ensures
        ({
            let x = impression_entry(e, now);
            &&& x.id == e.id && x.tags == e.trigger_keywords && x.importance == e.importance
            &&& x.created_at == e.created_at && x.last_accessed == now
            &&& x.layer == MemoryLayer::TaskSummary && x.confidence == NINE_TENTHS
            &&& x.consolidated && x.source.memory_id == e.id
            &&& stands_in(x.content, e.topic) && stands_in(x.content, e.impression)
        }),
        ({
            let x = summary_entry(s, now);
            &&& x.id == "summary-"@ + s.session_id && x.tags == s.tags && x.created_at
                == s.created_at
            &&& x.layer == MemoryLayer::EventIndex && x.importance == SEVEN_TENTHS
            &&& x.confidence == THREE_QUARTERS && x.consolidated == s.archived
            &&& stands_in(x.content, s.fact_summary) && stands_in(
                x.content,
                joined(s.decisions, "; "@),
            )
        }),
        ({
            let x = pitfall_entry(p, now);
            &&& x.id == p.id && x.created_at == p.occurred_at
            &&& x.layer == MemoryLayer::ShortTerm && x.importance == SEVENTEEN_TWENTIETHS
            &&& x.confidence == FOUR_FIFTHS && x.consolidated
            &&& stands_in(x.content, p.description)
        }),
        ({
            let x = rule_entry(r, now);
            &&& x.id == r.id && x.created_at == r.created_at
            &&& x.layer == MemoryLayer::TaskSummary && x.importance == NINETEEN_TWENTIETHS
            &&& x.confidence == NINE_TENTHS && x.consolidated
            &&& stands_in(x.content, r.rule)
        }),
        ({
            let x = fact_entry(fact, now);
            &&& x.content == fact && x.id == "fact-summary"@ && x.source.memory_id
                == "fact_summary"@
            &&& x.layer == MemoryLayer::TaskSummary && x.importance == NINE_TENTHS
            &&& x.confidence == FOUR_FIFTHS && x.created_at == now
        }),
{
    let a = impression_entry(e, now).content;
    let h = "[印象] "@;
    lemma_stands_between(h, e.topic, " — "@ + e.impression, a);
    lemma_stands_between(h + e.topic + " — "@, e.impression, Seq::empty(), a);
    let b = summary_entry(s, now).content;
    let k = "[会话] "@;
    let d = joined(s.decisions, "; "@);
    lemma_stands_between(k, s.fact_summary, " — "@ + d, b);
    lemma_stands_between(k + s.fact_summary + " — "@, d, Seq::empty(), b);
    lemma_stands_between("[踩坑] "@, p.description, Seq::empty(), pitfall_entry(p, now).content);
    lemma_stands_between("[规则] "@, r.rule, Seq::empty(), rule_entry(r, now).content);
}

/// All that may be recalled is gathered: the first ten impressions, those of
/// the first five topics that could be read, the first ten summaries that
/// nothing has replaced, what is known, the first five pitfalls that matter and
/// rules that weigh, and the beginning and the end of the last three other
/// sessions.
pub proof fn law_candidates_are_gathered(
    s: CandidateSourcesView,
    current: Seq<char>,
    now: i64,
    i: int,
)
    requires
        0 <= i,
    ensures
        ({
            let r = candidates_of(s, current, now);
            &&& i < 10 && i < s.impressions.len() ==> r.contains(
                impression_entry(s.impressions[i], now),
            )
            &&& i < 5 && i < s.topics.len() && topic_entry(s.topics[i], now) is Some ==> r.contains(
                topic_entry(s.topics[i], now)->0,
            )
            &&& i < 10 && i < recallable_summaries(s.summaries).len() ==> r.contains(
                summary_entry(recallable_summaries(s.summaries)[i], now),
            )
            &&& s.fact_summary is Some ==> r.contains(fact_entry(s.fact_summary->0, now))
            &&& i < 5 && i < active_pitfalls(s.pitfalls).len() ==> r.contains(
                pitfall_entry(active_pitfalls(s.pitfalls)[i], now),
            )
            &&& i < 5 && i < recallable_rules(s.rules).len() ==> r.contains(
                rule_entry(recallable_rules(s.rules)[i], now),
            )
            &&& i < recent_sessions(s.sessions, current).len() ==> forall|x: MemoryEntryView|
                #[trigger]
                session_entries(recent_sessions(s.sessions, current)[i], now).contains(x)
                    ==> r.contains(x)
        }),
{
    let f1 = |e: SubconsciousEntryView| impression_entry(e, now);
    let f2 = |t: (Seq<char>, Option<ArchiveTopicIndexView>)| topic_entry(t, now);
    let f3 = |e: SessionSummaryView| summary_entry(e, now);
    let f5 = |p: PitfallRecordView| pitfall_entry(p, now);
    let f6 = |r: EvolutionRuleView| rule_entry(r, now);
    let a1 = at_most(s.impressions, 10).map_values(f1);
    let a2 = at_most(s.topics, 5).filter_map(f2);
    let a3 = at_most(recallable_summaries(s.summaries), 10).map_values(f3);
    let a4 = match s.fact_summary {
        Some(f) => seq![fact_entry(f, now)],
        None => Seq::empty(),
    };
    let a5 = at_most(active_pitfalls(s.pitfalls), 5).map_values(f5);
    let a6 = at_most(recallable_rules(s.rules), 5).map_values(f6);
    let a7 = all_session_entries(recent_sessions(s.sessions, current), now);
    let r = candidates_of(s, current, now);
    assert(r == a1 + a2 + a3 + a4 + a5 + a6 + a7);
    assert forall|x: MemoryEntryView|
        a1.contains(x) || a2.contains(x) || a3.contains(x) || a4.contains(x) || a5.contains(x)
            || a6.contains(x) || a7.contains(x) implies #[trigger] r.contains(x) by {
        lemma_has_parts(a1, a2, x);
        lemma_has_parts(a1 + a2, a3, x);
        lemma_has_parts(a1 + a2 + a3, a4, x);
        lemma_has_parts(a1 + a2 + a3 + a4, a5, x);
        lemma_has_parts(a1 + a2 + a3 + a4 + a5, a6, x);
        lemma_has_parts(a1 + a2 + a3 + a4 + a5 + a6, a7, x);
    }
    if i < 10 && i < s.impressions.len() {
        assert(a1[i] == impression_entry(s.impressions[i], now));
        assert(r.contains(a1[i]));
    }
    if i < 5 && i < s.topics.len() && topic_entry(s.topics[i], now) is Some {
        assert(at_most(s.topics, 5)[i] == s.topics[i]);
        assert(f2(s.topics[i]) is Some);
        lemma_filter_map_contains(at_most(s.topics, 5), f2, i);
        assert(a2.contains(topic_entry(s.topics[i], now)->0));
        assert(r.contains(topic_entry(s.topics[i], now)->0));
    }
    if i < 10 && i < recallable_summaries(s.summaries).len() {
        assert(a3[i] == summary_entry(recallable_summaries(s.summaries)[i], now));
        assert(r.contains(a3[i]));
    }
    if s.fact_summary is Some {
        assert(a4[0] == fact_entry(s.fact_summary->0, now));
        assert(r.contains(a4[0]));
    }
    if i < 5 && i < active_pitfalls(s.pitfalls).len() {
        assert(a5[i] == pitfall_entry(active_pitfalls(s.pitfalls)[i], now));
        assert(r.contains(a5[i]));
    }
    if i < 5 && i < recallable_rules(s.rules).len() {
        assert(a6[i] == rule_entry(recallable_rules(s.rules)[i], now));
        assert(r.contains(a6[i]));
    }
    if i < recent_sessions(s.sessions, current).len() {
        let t = recent_sessions(s.sessions, current)[i];
        assert forall|x: MemoryEntryView| #[trigger]
            session_entries(t, now).contains(x) implies r.contains(x) by {
            lemma_session_among(recent_sessions(s.sessions, current), now, i, x);
            assert(a7.contains(x));
        }
    }
}

proof fn lemma_session_among(
    s: Seq<(Seq<char>, Option<Seq<RawEntryView>>)>,
    now: i64,
    i: int,
    x: MemoryEntryView,
)
    requires
        0 <= i < s.len(),
        session_entries(s[i], now).contains(x),
    ensures
        all_session_entries(s, now).contains(x),
    decreases s.len(),
{
    let rest = s.drop_last();
    let a = all_session_entries(rest, now);
    let b = session_entries(s.last(), now);
    lemma_has_parts(a, b, x);
    if i < rest.len() {
        assert(rest[i] == s[i]);
        lemma_session_among(rest, now, i, x);
    }
}

/// A session that could be read and is not empty stands for two entries, one of
/// its beginning and one of its end; and the sessions that are looked at are
/// the latest three that are not the one at hand, the latest first.
pub proof fn law_sessions_are_looked_at(
    sessions: Seq<(Seq<char>, Option<Seq<RawEntryView>>)>,
    current: Seq<char>,
    id: Seq<char>,
    entries: Seq<RawEntryView>,
    now: i64,
)
    ensures
        recent_sessions(sessions, current).len() <= 3,
        forall|k: int|
            0 <= k < recent_sessions(sessions, current).len() ==> (#[trigger] recent_sessions(
                sessions,
                current,
            )[k]).0 != current && sessions.contains(recent_sessions(sessions, current)[k]),
        sessions.len() > 0 && sessions.last().0 != current ==> recent_sessions(
            sessions,
            current,
        ).len() > 0 && recent_sessions(sessions, current)[0] == sessions.last(),
        session_entries((id, None), now).len() == 0,
        entries.len() == 0 ==> session_entries((id, Some(entries)), now).len() == 0,
        entries.len() > 0 ==> ({
            let r = session_entries((id, Some(entries)), now);
            &&& r.len() == 2
            &&& r[0].id == "raw-"@ + id + "-head"@
            &&& r[1].id == "raw-"@ + id + "-tail"@
            &&& r[0].created_at == entries[0].timestamp
            &&& r[1].created_at == entries.last().timestamp
            &&& entries[0].content.len() <= 150 ==> stands_in(r[0].content, entries[0].content)
            &&& entries[0].content.len() > 150 ==> stands_in(
                r[0].content,
                entries[0].content.take(150),
            )
            &&& entries.last().content.len() <= 100 ==> stands_in(
                r[1].content,
                entries.last().content,
            )
        }),
{
    let p = other_than(current);
    let all = sessions.filter(p);
    let r = recent_sessions(sessions, current);
    assert forall|k: int| 0 <= k < r.len() implies (#[trigger] r[k]).0 != current
        && sessions.contains(r[k]) by {
        let m = all.len() - 1 - k;
        assert(r[k] == all[m]);
        let n = lemma_filter_from(sessions, p, m);
        assert(sessions[n] == r[k]);
    }
    if sessions.len() > 0 && sessions.last().0 != current {
        reveal(Seq::filter);
        assert(p(sessions.last()));
        assert(all == sessions.drop_last().filter(p).push(sessions.last()));
        assert(all.reverse()[0] == sessions.last());
    }
    if entries.len() > 0 {
        let x = session_entries((id, Some(entries)), now);
        let c = entries[0].content;
        let h = if c.len() <= 150 { c } else { c.take(150) };
        lemma_stands_between("[对话开头] "@, h, Seq::empty(), x[0].content);
        let g = |e: RawEntryView| head_of(e.content, 100);
        let last = at_most(entries.reverse(), 3).map_values(g);
        let sep = " | "@;
        assert(last[0] == head_of(entries.last().content, 100));
        if entries.last().content.len() <= 100 {
            let first = entries.last().content;
            if last.len() == 1 {
                law_joined_with_separators(last, last, sep);
                lemma_stands_between("[对话结尾] "@, first, Seq::empty(), x[1].content);
            } else {
                let rest = last.skip(1);
                assert(last =~= seq![first] + rest);
                law_joined_with_separators(seq![first], rest, sep);
                lemma_stands_between(
                    "[对话结尾] "@,
                    first,
                    sep + joined(rest, sep),
                    x[1].content,
                );
            }
        }
    }
}

/// A topic that could be read is told with its name and its summary, under its
/// keywords and its importance; one that could not stands for nothing.
pub proof fn law_topics_stand_for_entries(name: Seq<char>, i: ArchiveTopicIndexView, now: i64)
    ensures
        topic_entry((name, None), now) is None,
        topic_entry((name, Some(i)), now) is Some,
        ({
            let x = topic_entry((name, Some(i)), now)->0;
            &&& x.id == "archive-"@ + name && x.tags == i.trigger_keywords
            &&& x.importance == i.importance && x.confidence == FOUR_FIFTHS
            &&& x.layer == MemoryLayer::TaskSummary && x.created_at == i.created_at
            &&& stands_in(x.content, i.topic) && stands_in(x.content, i.merged_summary)
        }),
{
    let x = topic_entry((name, Some(i)), now)->0;
    lemma_stands_between("[归档] "@, i.topic, " — "@ + i.merged_summary, x.content);
    lemma_stands_between(
        "[归档] "@ + i.topic + " — "@,
        i.merged_summary,
        Seq::empty(),
        x.content,
    );
}

/// A query of a request is parted at blanks, commas and pauses.
pub proof fn law_words_of_a_request(content: Seq<char>, c: char)
    ensures
        request_query(content).keywords == split_at_chars(
            content,
            |c: char| request_separators().contains(c),
        ),
        request_separators().contains(c) <==> c == ' ' || c == ',' || c == '，' || c == '、',
{
    let s = request_separators();
    assert(s[0] == ' ' && s[1] == ',' && s[2] == '，' && s[3] == '、');
    assert(s.len() == 4);
}

/// A rule is weighty enough to be recalled where nothing has replaced it and
/// its priority is three or above.
pub proof fn law_weighty_rules(rules: Seq<EvolutionRuleView>, x: EvolutionRuleView)
    ensures
        recallable_rules(rules).contains(x) <==> rules.contains(x) && !x.superseded && x.priority
            >= 3,
        recallable_summaries(Seq::empty()).len() == 0,
{
    law_rules_in_force(rules, x);
    lemma_filter_has(active_rules(rules), |r: EvolutionRuleView| r.priority >= 3, x);
    reveal(Seq::filter);
}

// ---------------------------------------------------------------------------
// What the model chose
// ---------------------------------------------------------------------------

/// The list in a reply runs from its first bracket to the next one that closes;
/// without one it is the whole reply in brackets.
pub proof fn law_list_of_numbers(reply: Seq<char>)
    ensures
        ({
            let t = trimmed(reply);
            let r = index_list(reply);
            match find_from(t, "["@, 0) {
                Some(s) => {
                    &&& r.len() > 0 ==> r[0] == t[s]
                    &&& r.is_prefix_of(t.skip(s))
                    &&& find_from(t, "]"@, s) is None ==> r == t.skip(s)
                    &&& find_from(t, "]"@, s) is Some ==> r.len() == find_from(t, "]"@, s)->0 + 1
                        - s
                },
                None => r == "["@ + t + "]"@,
            }
        }),
{
    let t = trimmed(reply);
    reveal_strlit("[");
    reveal_strlit("]");
    law_found_is_the_first(t, "["@, 0);
    if let Some(s) = find_from(t, "["@, 0) {
        law_found_is_the_first(t, "]"@, s);
    }
}

/// The numbers that the model lists count from one: each that is in range
/// stands for the candidate before it, nought for the first; and all else is
/// passed over.
pub proof fn law_numbers_stand_for_candidates(items: Seq<JsonView>, len: nat, i: usize)
    requires
        len <= usize::MAX,
    ensures
        listed_indices(Ok(JsonView::Array(items)), len).contains(i) <==> i < len && exists|n: u64|
            #[trigger]
            items.contains(JsonView::Unsigned(n)) && (n == i + 1 || (n == 0 && i == 0)),
        forall|e: Seq<char>| (#[trigger] listed_indices(Err(e), len)).len() == 0,
{
    let f = |v: JsonView| listed_index(v, len);
    lemma_filter_map_has(items, f, i);
    if exists|k: int| 0 <= k < items.len() && f(#[trigger] items[k]) == Some(i) {
        let k = choose|k: int| 0 <= k < items.len() && f(#[trigger] items[k]) == Some(i);
        let n = items[k]->Unsigned_0;
        assert(items[k] == JsonView::Unsigned(n));
        assert(items.contains(JsonView::Unsigned(n)));
    }
    if i < len && exists|n: u64| #[trigger]
        items.contains(JsonView::Unsigned(n)) && (n == i + 1 || (n == 0 && i == 0)) {
        let n = choose|n: u64| #[trigger]
            items.contains(JsonView::Unsigned(n)) && (n == i + 1 || (n == 0 && i == 0));
        let k = choose|k: int| 0 <= k < items.len() && items[k] == JsonView::Unsigned(n);
        assert(f(items[k]) == Some(i));
    }
}

// ---------------------------------------------------------------------------
// Answers
// ---------------------------------------------------------------------------

/// A quick thought is to the point where anything was found, and then tells all
/// of it; a slow one tells each entry with the layer that it is from, and names
/// its sources; a search that failed is told as what it is.
pub proof fn law_thoughts_tell_what_was_found(found: Seq<MemoryEntryView>, e: Seq<char>, i: int)
    requires
        0 <= i < found.len(),
    ensures
        ({
            let f = fast_thought(found);
            let s = slow_thought(Ok(found));
            let x = slow_thought(Err(e));
            &&& f.relevant
            &&& f.summary == Some(
                joined(Seq::new(found.len(), |k: int| found[k].content), "; "@),
            )
            &&& f.matched_experience == Some(found[0].content)
            &&& s.reasoning_path.len() == found.len() && s.reasoning_path[i] == found[i].content
            &&& s.sources.len() == found.len() && s.sources[i] == found[i].source
            &&& s.conclusion == joined(
                Seq::new(
                    found.len(),
                    |k: int|
                        "["@ + (match found[k].layer {
                            MemoryLayer::TaskSummary => "L0"@,
                            MemoryLayer::EventIndex => "L1"@,
                            MemoryLayer::ShortTerm => "L2"@,
                            MemoryLayer::Raw => "L3"@,
                        }) + "] "@ + found[k].content,
                ),
                "\n"@,
            )
            &&& f.confidence == SEVEN_TENTHS && s.confidence == THREE_QUARTERS
            &&& x.confidence == TENTH
            &&& stands_in(x.conclusion, e)
            &&& x.sources.len() == 0 && x.reasoning_path.len() == 0
        }),
        !fast_thought(Seq::empty()).relevant,
        fast_thought(Seq::empty()).summary is None,
        fast_thought(Seq::empty()).confidence == THREE_TENTHS,
        slow_thought(Ok(Seq::empty())).sources.len() == 0,
        slow_thought(Ok(Seq::empty())).confidence == FIFTH,
        slow_thought(Ok(Seq::empty())).conclusion == "未找到相关记忆"@,
{
    assert(found.map_values(|e: MemoryEntryView| e.content) =~= Seq::new(
        found.len(),
        |k: int| found[k].content,
    ));
    assert(found.map_values(|e: MemoryEntryView| labelled(e)) =~= Seq::new(
        found.len(),
        |k: int|
            "["@ + (match found[k].layer {
                MemoryLayer::TaskSummary => "L0"@,
                MemoryLayer::EventIndex => "L1"@,
                MemoryLayer::ShortTerm => "L2"@,
                MemoryLayer::Raw => "L3"@,
            }) + "] "@ + found[k].content,
    ));
    lemma_stands_between("记忆检索失败: "@, e, Seq::empty(), slow_thought(Err(e)).conclusion);
}

/// What was recalled is answered as it is, and matters more where it is not
/// nothing.
pub proof fn law_recall_is_answered(
    id: crate::brains::BrainIdView,
    found: Seq<MemoryEntryView>,
    now: i64,
)
    ensures
        recall_answer(id, found, now).from == id,
        recall_answer(id, found, now).result == BrainResponsePayloadView::MemoryRecall(found),
        recall_answer(id, found, now).timestamp == now,
        !recall_answer(id, found, now).need_slow_think,
        recall_answer(id, found, now).confidence == SEVEN_TENTHS,
        found.len() > 0 ==> recall_answer(id, found, now).relevance == FOUR_FIFTHS,
        found.len() == 0 ==> recall_answer(id, found, now).relevance == TENTH,
{
}

/// What is said to the brain is kept as it was said, and remembered for a while
/// with its keywords, under ids that tell when.
pub proof fn law_message_is_kept(m: crate::brains::BroadcastMessageView, k: nat, now: i64)
    ensures
        ({
            let r = raw_entry_of(m, now);
            &&& r.content == m.content && r.raw_input == m.raw_input && r.context == m.context
            &&& r.timestamp == m.timestamp && r.id == "raw-"@ + signed_decimal(now as int)
        }),
        ({
            let s = short_term_entry_of(m, k, now);
            &&& s.content == m.content && s.tags == keywords_of(m.content, k)
            &&& s.layer == MemoryLayer::ShortTerm && !s.consolidated
            &&& s.created_at == now && s.source.memory_id == raw_entry_of(m, now).id
            &&& s.source.layer == MemoryLayer::Raw
        }),
        deep_query(m.content, k).keywords == keywords_of(m.content, k),
        deep_query(m.content, k).layers.len() == 4,
        deep_query(m.content, k).layers.contains(MemoryLayer::Raw),
        !request_query(m.content).layers.contains(MemoryLayer::Raw),
        request_query(m.content).layers.len() == 3,
        request_query(m.content).max_results == 5,
        deep_query(m.content, k).max_results == 10,
        request_query(m.content).min_importance == FIFTH,
        deep_query(m.content, k).min_importance == TENTH,
        request_query(m.content).tags.len() == 0,
        deep_query(m.content, k).tags.len() == 0,
        short_term_entry_of(m, k, now).importance == THREE_FIFTHS,
        short_term_entry_of(m, k, now).confidence == SEVEN_TENTHS,
{
    assert(deep_query(m.content, k).layers[3] == MemoryLayer::Raw);
    let l = request_query(m.content).layers;
    assert forall|i: int| 0 <= i < l.len() implies l[i] != MemoryLayer::Raw by {
        assert(i == 0 || i == 1 || i == 2);
    }
}

/// The latest texts are those of the last entries, in the order in which they
/// were said.
pub proof fn law_latest_texts(entries: Seq<RawEntryView>, max: nat)
    ensures
        recent_texts(entries, max).len() == if entries.len() < max {
            entries.len()
        } else {
            max
        },
        forall|k: int|
            0 <= k < recent_texts(entries, max).len() ==> #[trigger] recent_texts(entries, max)[k] == ({
                let e = entries[entries.len() - recent_texts(entries, max).len() + k];
                text_of_json(said_json(e.content, rfc3339_of(e.timestamp)))
            }),
{
}

/// In each run of five counts the first analysis is due at a multiple of five.
pub proof fn law_analysis_is_due(count: int)
    ensures
        is_analysis_due(5 * count),
        !is_analysis_due(5 * count + 1),
        !is_analysis_due(5 * count + 2),
        !is_analysis_due(5 * count + 3),
        !is_analysis_due(5 * count + 4),
{
}

// ---------------------------------------------------------------------------
// Keywords
// ---------------------------------------------------------------------------

/// Text is parted at white space, commas, stops, colons, brackets and quotes.
pub proof fn law_where_text_is_parted(c: char)
    ensures
        separators().contains(c) <==> (c == ' ' || c == ',' || c == '，' || c == '。' || c == '、' || c
            == '；' || c == '！' || c == '？' || c == '\n' || c == '\t' || c == '：' || c == ':' || c == '('
            || c == ')' || c == '（' || c == '）' || c == '[' || c == ']' || c == '"' || c == '\''),
{
    let s = separators();
    assert(s[0] == ' ' && s[1] == ',' && s[2] == '，' && s[3] == '。' && s[4] == '、' && s[5] == '；'
        && s[6] == '！' && s[7] == '？' && s[8] == '\n' && s[9] == '\t' && s[10] == '：' && s[11]
        == ':' && s[12] == '(' && s[13] == ')' && s[14] == '（' && s[15] == '）' && s[16] == '['
        && s[17] == ']' && s[18] == '"' && s[19] == '\'');
    assert(s.len() == 20);
}

/// A word of two characters or more with a letter or a digit in it is a keyword
/// of itself, and the only one.
pub proof fn law_word_is_a_keyword(w: Seq<char>, max: nat)
    requires
        max >= 1,
        w.len() >= 2,
        forall|i: int| 0 <= i < w.len() ==> !separators().contains(#[trigger] w[i]),
        trimmed(w) == w,
        exists|i: int| 0 <= i < w.len() && is_alphanumeric(#[trigger] w[i]),
    ensures
        keywords_of(w, max) == seq![w],
{
    let sep = |c: char| separators().contains(c);
    law_split_at_separators(w, ' ', w, sep);
    let g = |s: Seq<char>| trimmed(s);
    let p = |s: Seq<char>| s.len() > 0;
    assert(split_at_chars(w, sep).map_values(g) =~= seq![w]);
    reveal(Seq::filter);
    assert(seq![w].drop_last() =~= Seq::<Seq<char>>::empty());
    assert(segments(w) =~= seq![w]);
    reveal_with_fuel(all_words, 2);
    assert(all_words(seq![w].drop_last()) =~= Seq::<(Seq<char>, Seq<char>)>::empty());
    let words = all_words(segments(w));
    assert(words =~= seq![(lowercase_of(w), w)]);
    assert(words.drop_last() =~= Seq::<(Seq<char>, Seq<char>)>::empty());
    assert(fresh(words.drop_last()) =~= Seq::<Seq<char>>::empty());
    assert(fresh(words) =~= seq![w]);
}

/// The words of a text that is parted are those of its parts, one behind the
/// other.
pub proof fn law_words_of_parts(a: Seq<char>, c: char, b: Seq<char>)
    requires
        separators().contains(c),
    ensures
        segments(a + seq![c] + b) == segments(a) + segments(b),
        all_words(segments(a + seq![c] + b)) == all_words(segments(a)) + all_words(segments(b)),
{
    let sep = |c: char| separators().contains(c);
    let g = |s: Seq<char>| trimmed(s);
    let p = |s: Seq<char>| s.len() > 0;
    law_split_at_separators(a, c, b, sep);
    let x = split_at_chars(a, sep);
    let y = split_at_chars(b, sep);
    assert((x + y).map_values(g) =~= x.map_values(g) + y.map_values(g));
    lemma_filter_parts(x.map_values(g), y.map_values(g), p);
    lemma_all_words_parts(segments(a), segments(b));
}

proof fn lemma_all_words_parts(a: Seq<Seq<char>>, b: Seq<Seq<char>>)
    ensures
        all_words(a + b) == all_words(a) + all_words(b),
    decreases b.len(),
{
    if b.len() == 0 {
        assert(a + b =~= a);
        assert(all_words(a) + all_words(b) =~= all_words(a));
    } else {
        let t = b.drop_last();
        lemma_all_words_parts(a, t);
        assert((a + b).drop_last() =~= a + t);
        assert(all_words(a + b) =~= all_words(a) + all_words(b));
    }
}

/// Of words that differ only by their case the first counts.
pub proof fn law_first_of_a_word_counts(
    words: Seq<(Seq<char>, Seq<char>)>,
    low: Seq<char>,
    word: Seq<char>,
)
    ensures
        words.len() == 0 ==> fresh(words).len() == 0,
        fresh(words.push((low, word))) == if exists|k: int|
            0 <= k < words.len() && (#[trigger] words[k]).0 == low {
            fresh(words)
        } else {
            fresh(words).push(word)
        },
{
    let all = words.push((low, word));
    assert(all.drop_last() =~= words);
    if exists|k: int| 0 <= k < words.len() && (#[trigger] words[k]).0 == low {
        let k = choose|k: int| 0 <= k < words.len() && (#[trigger] words[k]).0 == low;
        assert(all[k].0 == low);
    }
    if exists|k: int| 0 <= k < all.len() - 1 && (#[trigger] all[k]).0 == all.last().0 {
        let k = choose|k: int| 0 <= k < all.len() - 1 && (#[trigger] all[k]).0 == all.last().0;
        assert(words[k].0 == low);
    }
}

} // verus!
