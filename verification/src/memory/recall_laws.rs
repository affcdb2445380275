//! What holds of all that is recalled.

use crate::brains::MemoryEntryView;
use crate::memory::analyzer::recallable_summaries;
use crate::memory::archive::ArchiveTopicIndexView;
use crate::memory::evolution::{active_rules, by_priority, ranked};
use crate::memory::keywords::keywords_of;
use crate::memory::memory_brain::{
    all_session_entries, candidates_of, fact_entry, filled_up, has_keyword, impression_entry,
    other_than, pitfall_entry, recallable_rules, recalled, recent_sessions, rule_entry,
    session_entries, summary_entry, topic_entry, CandidateSourcesView,
};
use crate::memory::pitfall::active_pitfalls;
use crate::memory::types::{
    EvolutionRuleView, PitfallRecordView, RawEntryView, SessionSummaryView, SubconsciousEntryView,
};
use crate::seqs::{lemma_filter_from, lemma_filter_map_from, lemma_filter_map_len};
use crate::walk::at_most;
use vstd::prelude::*;

verus! {

/// `e` stands for something that may be recalled: an impression, a topic that
/// could be read, a summary that nothing has replaced, what is known, a pitfall
/// that has come up and was not replaced, a rule of priority 3 or above that
/// was not replaced, or the beginning or the end of a session other than the
/// one at hand.
pub open spec fn may_be_recalled(
    s: CandidateSourcesView,
    current: Seq<char>,
    now: i64,
    e: MemoryEntryView,
) -> bool {
    ||| exists|k: int|
        0 <= k < s.impressions.len() && e == impression_entry(#[trigger] s.impressions[k], now)
    ||| exists|k: int|
        0 <= k < s.topics.len() && topic_entry(#[trigger] s.topics[k], now) == Some(e)
    ||| exists|k: int|
        0 <= k < s.summaries.len() && !(#[trigger] s.summaries[k]).superseded && e
            == summary_entry(s.summaries[k], now)
    ||| s.fact_summary is Some && e == fact_entry(s.fact_summary->0, now)
    ||| exists|k: int|
        0 <= k < s.pitfalls.len() && (#[trigger] s.pitfalls[k]).occurrence_count > 0
            && !s.pitfalls[k].superseded && e == pitfall_entry(s.pitfalls[k], now)
    ||| exists|k: int|
        0 <= k < s.rules.len() && (#[trigger] s.rules[k]).priority >= 3 && !s.rules[k].superseded
            && e == rule_entry(s.rules[k], now)
    ||| exists|k: int|
        0 <= k < s.sessions.len() && (#[trigger] s.sessions[k]).0 != current && session_entries(
            s.sessions[k],
            now,
        ).contains(e)
}

spec fn all_may(
    s: CandidateSourcesView,
    current: Seq<char>,
    now: i64,
    entries: Seq<MemoryEntryView>,
) -> bool {
    forall|i: int|
        0 <= i < entries.len() ==> may_be_recalled(s, current, now, #[trigger] entries[i])
}

proof fn lemma_all_may_add(
    s: CandidateSourcesView,
    current: Seq<char>,
    now: i64,
    a: Seq<MemoryEntryView>,
    b: Seq<MemoryEntryView>,
)
    requires
        all_may(s, current, now, a),
        all_may(s, current, now, b),
    ensures
        all_may(s, current, now, a + b),
{
    assert forall|i: int| 0 <= i < (a + b).len() implies may_be_recalled(
        s,
        current,
        now,
        #[trigger] (a + b)[i],
    ) by {
        if i < a.len() {
            assert((a + b)[i] == a[i]);
        } else {
            assert((a + b)[i] == b[i - a.len()]);
        }
    }
}

proof fn lemma_ranked_from(rules: Seq<EvolutionRuleView>, x: EvolutionRuleView, i: int)
    requires
        0 <= i < ranked(rules, x).len(),
    ensures
        ranked(rules, x)[i] == x || rules.contains(ranked(rules, x)[i]),
    decreases rules.len(),
{
    if rules.len() > 0 && rules.last().priority < x.priority {
        let t = ranked(rules.drop_last(), x);
        if i < t.len() {
            lemma_ranked_from(rules.drop_last(), x, i);
            if t[i] != x {
                let k = choose|k: int| 0 <= k < rules.len() - 1 && rules.drop_last()[k] == t[i];
                assert(rules[k] == t[i]);
            }
        } else {
            assert(rules[rules.len() - 1] == ranked(rules, x)[i]);
        }
    } else if i < rules.len() {
        assert(rules[i] == ranked(rules, x)[i]);
    }
}

proof fn lemma_by_priority_from(rules: Seq<EvolutionRuleView>, i: int) -> (k: int)
    requires
        0 <= i < by_priority(rules).len(),
    ensures
        0 <= k < rules.len(),
        rules[k] == by_priority(rules)[i],
    decreases rules.len(),
{
    let rest = rules.drop_last();
    lemma_ranked_from(by_priority(rest), rules.last(), i);
    let e = by_priority(rules)[i];
    if e == rules.last() {
        rules.len() - 1
    } else {
        let j = choose|j: int| 0 <= j < by_priority(rest).len() && by_priority(rest)[j] == e;
        let k = lemma_by_priority_from(rest, j);
        assert(rules[k] == rest[k]);
        k
    }
}

proof fn lemma_sessions(
    s: CandidateSourcesView,
    current: Seq<char>,
    now: i64,
    some: Seq<(Seq<char>, Option<Seq<RawEntryView>>)>,
)
    requires
        forall|i: int|
            0 <= i < some.len() ==> (#[trigger] some[i]).0 != current && s.sessions.contains(
                some[i],
            ),
    ensures
        all_may(s, current, now, all_session_entries(some, now)),
        all_session_entries(some, now).len() <= 2 * some.len(),
    decreases some.len(),
{
    if some.len() > 0 {
        let rest = some.drop_last();
        assert forall|i: int| 0 <= i < rest.len() implies (#[trigger] rest[i]).0 != current
            && s.sessions.contains(rest[i]) by {
            assert(rest[i] == some[i]);
        }
        lemma_sessions(s, current, now, rest);
        let one = session_entries(some.last(), now);
        assert(some[some.len() - 1].0 != current);
        let k = choose|k: int| 0 <= k < s.sessions.len() && s.sessions[k] == some.last();
        assert forall|i: int| 0 <= i < one.len() implies may_be_recalled(
            s,
            current,
            now,
            #[trigger] one[i],
        ) by {
            assert(session_entries(s.sessions[k], now).contains(one[i]));
        }
        lemma_all_may_add(s, current, now, all_session_entries(rest, now), one);
    }
}

proof fn lemma_candidates(s: CandidateSourcesView, current: Seq<char>, now: i64)
    ensures
        all_may(s, current, now, candidates_of(s, current, now)),
        candidates_of(s, current, now).len() <= 42,
{
    let impressions = at_most(s.impressions, 10).map_values(
        |e: SubconsciousEntryView| impression_entry(e, now),
    );
    assert(all_may(s, current, now, impressions)) by {
        assert forall|i: int| 0 <= i < impressions.len() implies may_be_recalled(
            s,
            current,
            now,
            #[trigger] impressions[i],
        ) by {
            assert(impressions[i] == impression_entry(s.impressions[i], now));
        }
    }
    let read = |t: (Seq<char>, Option<ArchiveTopicIndexView>)| topic_entry(t, now);
    let topics = at_most(s.topics, 5).filter_map(read);
    lemma_filter_map_len(at_most(s.topics, 5), read);
    assert(all_may(s, current, now, topics)) by {
        assert forall|i: int| 0 <= i < topics.len() implies may_be_recalled(
            s,
            current,
            now,
            #[trigger] topics[i],
        ) by {
            let k = lemma_filter_map_from(at_most(s.topics, 5), read, i);
            assert(topic_entry(s.topics[k], now) == Some(topics[i]));
        }
    }
    let summaries = at_most(recallable_summaries(s.summaries), 10).map_values(
        |e: SessionSummaryView| summary_entry(e, now),
    );
    assert(all_may(s, current, now, summaries)) by {
        assert forall|i: int| 0 <= i < summaries.len() implies may_be_recalled(
            s,
            current,
            now,
            #[trigger] summaries[i],
        ) by {
            let k = lemma_filter_from(s.summaries, |x: SessionSummaryView| !x.superseded, i);
            assert(!s.summaries[k].superseded);
        }
    }
    let fact = match s.fact_summary {
        Some(f) => seq![fact_entry(f, now)],
        None => Seq::empty(),
    };
    let pitfalls = at_most(active_pitfalls(s.pitfalls), 5).map_values(
        |p: PitfallRecordView| pitfall_entry(p, now),
    );
    assert(all_may(s, current, now, pitfalls)) by {
        assert forall|i: int| 0 <= i < pitfalls.len() implies may_be_recalled(
            s,
            current,
            now,
            #[trigger] pitfalls[i],
        ) by {
            let k = lemma_filter_from(
                s.pitfalls,
                |p: PitfallRecordView| p.occurrence_count > 0 && !p.superseded,
                i,
            );
            assert(s.pitfalls[k].occurrence_count > 0);
        }
    }
    let rules = at_most(recallable_rules(s.rules), 5).map_values(
        |r: EvolutionRuleView| rule_entry(r, now),
    );
    assert(all_may(s, current, now, rules)) by {
        let current_ones = |x: EvolutionRuleView| !x.superseded;
        assert forall|i: int| 0 <= i < rules.len() implies may_be_recalled(
            s,
            current,
            now,
            #[trigger] rules[i],
        ) by {
            let a = lemma_filter_from(
                active_rules(s.rules),
                |r: EvolutionRuleView| r.priority >= 3,
                i,
            );
            let b = lemma_by_priority_from(s.rules.filter(current_ones), a);
            let k = lemma_filter_from(s.rules, current_ones, b);
            assert(s.rules[k].priority >= 3);
        }
    }
    let recent = recent_sessions(s.sessions, current);
    let other = other_than(current);
    let others = s.sessions.filter(other);
    assert forall|i: int| 0 <= i < recent.len() implies (#[trigger] recent[i]).0 != current
        && s.sessions.contains(recent[i]) by {
        assert(recent[i] == others.reverse()[i]);
        assert(recent[i] == others[others.len() - 1 - i]);
        let k = lemma_filter_from(s.sessions, other, others.len() - 1 - i);
        assert(s.sessions[k] == recent[i]);
    }
    lemma_sessions(s, current, now, recent);
    let sessions = all_session_entries(recent, now);
    lemma_all_may_add(s, current, now, impressions, topics);
    lemma_all_may_add(s, current, now, impressions + topics, summaries);
    lemma_all_may_add(s, current, now, impressions + topics + summaries, fact);
    lemma_all_may_add(s, current, now, impressions + topics + summaries + fact, pitfalls);
    lemma_all_may_add(s, current, now, impressions + topics + summaries + fact + pitfalls, rules);
    lemma_all_may_add(
        s,
        current,
        now,
        impressions + topics + summaries + fact + pitfalls + rules,
        sessions,
    );
}

proof fn lemma_filled_up(
    s: CandidateSourcesView,
    current: Seq<char>,
    now: i64,
    found: Seq<MemoryEntryView>,
    candidates: Seq<MemoryEntryView>,
    max: nat,
)
    requires
        all_may(s, current, now, found),
        all_may(s, current, now, candidates),
        found.len() <= max,
    ensures
        all_may(s, current, now, filled_up(found, candidates, max)),
        filled_up(found, candidates, max).len() <= max,
    decreases candidates.len(),
{
    if candidates.len() > 0 {
        let rest = candidates.drop_last();
        assert forall|i: int| 0 <= i < rest.len() implies may_be_recalled(
            s,
            current,
            now,
            #[trigger] rest[i],
        ) by {
            assert(rest[i] == candidates[i]);
        }
        lemma_filled_up(s, current, now, found, rest, max);
        assert(may_be_recalled(s, current, now, candidates[candidates.len() - 1]));
    }
}

/// Only what may be recalled is a candidate, and only a candidate is recalled:
/// never a summary, a pitfall or a rule that something has taken the place of,
/// a pitfall that has not come up, a rule of low priority, or the session at
/// hand. There are no more candidates than there is room for, nor is more
/// recalled than was asked for.
pub proof fn law_only_what_may_be_is_recalled(
    s: CandidateSourcesView,
    current: Seq<char>,
    query: Seq<char>,
    max: nat,
    now: i64,
)
    ensures
        ({
            let candidates = candidates_of(s, current, now);
            &&& candidates.len() <= 42
            &&& forall|i: int|
                0 <= i < candidates.len() ==> may_be_recalled(
                    s,
                    current,
                    now,
                    #[trigger] candidates[i],
                )
        }),
        ({
            let r = recalled(candidates_of(s, current, now), query, max);
            &&& r.len() <= max
            &&& forall|i: int|
                0 <= i < r.len() ==> may_be_recalled(s, current, now, #[trigger] r[i])
        }),
{
    lemma_candidates(s, current, now);
    let candidates = candidates_of(s, current, now);
    let hit = |e: MemoryEntryView| has_keyword(e.content, keywords_of(query, 8));
    let found = at_most(candidates.filter(hit), max);
    assert forall|i: int| 0 <= i < found.len() implies may_be_recalled(
        s,
        current,
        now,
        #[trigger] found[i],
    ) by {
        let k = lemma_filter_from(candidates, hit, i);
        assert(found[i] == candidates[k]);
    }
    lemma_filled_up(s, current, now, found, candidates, max);
}

/// What the memory has without all that something has taken the place of.
pub open spec fn without_superseded(s: CandidateSourcesView) -> CandidateSourcesView {
    CandidateSourcesView {
        summaries: s.summaries.filter(|x: SessionSummaryView| !x.superseded),
        pitfalls: s.pitfalls.filter(|p: PitfallRecordView| !p.superseded),
        rules: s.rules.filter(|r: EvolutionRuleView| !r.superseded),
        ..s
    }
}

proof fn lemma_filter_twice<A>(s: Seq<A>, q: spec_fn(A) -> bool, p: spec_fn(A) -> bool)
    requires
        forall|x: A| #[trigger] p(x) ==> q(x),
    ensures
        s.filter(q).filter(p) == s.filter(p),
    decreases s.len(),
{
    reveal(Seq::filter);
    if s.len() > 0 {
        let t = s.drop_last();
        lemma_filter_twice(t, q, p);
        if q(s.last()) {
            assert(s.filter(q).drop_last() =~= t.filter(q));
        }
    }
}

/// What was superseded is never recalled: all that is recalled is as it would
/// be if the memory did not have what something has taken the place of.
pub proof fn law_superseded_is_never_recalled(
    s: CandidateSourcesView,
    current: Seq<char>,
    query: Seq<char>,
    max: nat,
    now: i64,
)
    ensures
        candidates_of(s, current, now) == candidates_of(without_superseded(s), current, now),
        recalled(candidates_of(s, current, now), query, max) == recalled(
            candidates_of(without_superseded(s), current, now),
            query,
            max,
        ),
{
    let a = |x: SessionSummaryView| !x.superseded;
    lemma_filter_twice(s.summaries, a, a);
    lemma_filter_twice(
        s.pitfalls,
        |p: PitfallRecordView| !p.superseded,
        |p: PitfallRecordView| p.occurrence_count > 0 && !p.superseded,
    );
    let c = |r: EvolutionRuleView| !r.superseded;
    lemma_filter_twice(s.rules, c, c);
}

} // verus!
