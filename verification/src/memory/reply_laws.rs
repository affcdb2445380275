//! What is read from the replies of a model, and what comes of it.

use crate::json::{JsonView, double_bits_of};
use crate::keyed::{keyed_item, law_found_has_the_key};
use crate::memory::analyzer::{
    AnalysisReportView, AnalysisStep, FourStepAnalyzerView, StepOutcomeView, after_step,
    category_named, filled_texts_at, memories_of, narrative_of, pitfall_memory, pitfall_of,
    pitfalls_of, profile_of, recallable_summaries, requirement_of, requirements_of, rule_memory,
    rule_of, rules_of, session_summary_of, summary_memory, superseded_in, text_at_or, texts_at,
};
use crate::memory::archive::{ArchiveTopicIndex, ArchiveTopicIndexView};
use crate::memory::evolution::{NewEvolutionRuleView, active_rules};
use crate::memory::guardian::{
    TopicProposalView, archived_in, filed_index, keywords_united, merged_topic, topic_facts,
    topic_of, unarchived_summaries,
};
use crate::memory::memory_iteration::{
    ExistingMemoryView, IterationResultView, MemoryRelation, MemoryStoreType, iteration_of,
    iterations_of, marked_by, relation_named,
};
use crate::memory::pitfall::{NewPitfallView, active_pitfalls};
use crate::memory::replies::{
    Walk, bracketed, closer, closes, fenced, json_among, matching_end, walk_end, walked,
};
use crate::memory::store_laws::{law_pitfalls_that_matter, law_rules_in_force};
use crate::memory::types::{
    EvolutionRuleView, PitfallCategory, PitfallRecordView, SessionSummaryView, category_name,
};
use crate::seqs::{lemma_filter_has, lemma_filter_map_has, lemma_first_index_some, lemma_has_parts};
use crate::text::{ascii_lower, find_from, joined, trimmed};
use crate::text_laws::{is_all_blank, law_found_is_the_first, law_trimmed_is_the_middle};
use crate::walk::some_is;
use crate::weights::{is_number, larger_of, rank_of};
use vstd::prelude::*;

verus! {

/// At `key` of `v` stands the text `t`.
pub open spec fn says(v: JsonView, key: Seq<char>, t: Seq<char>) -> bool {
    v.get(key) == Some(JsonView::Str(t))
}

/// At `key` of `v` stands the number `n`.
pub open spec fn counts(v: JsonView, key: Seq<char>, n: u64) -> bool {
    v.get(key) == Some(JsonView::Unsigned(n))
}

/// The list at `key` of `v` holds `x`.
pub open spec fn lists(v: JsonView, key: Seq<char>, x: JsonView) -> bool {
    v.get(key) is Some && v.get(key)->0 is Array && (v.get(key)->0)->Array_0.contains(x)
}

/// The texts that are read from a list are the texts in it; those that say
/// something are those that are not blank.
pub proof fn law_texts_in_a_list(v: JsonView, key: Seq<char>, t: Seq<char>)
    ensures
        texts_at(v, key).contains(t) <==> lists(v, key, JsonView::Str(t)),
        filled_texts_at(v, key).contains(t) <==> lists(v, key, JsonView::Str(t)) && !is_all_blank(t),
{
    let f = |x: JsonView| x.as_str();
    let p = |s: Seq<char>| trimmed(s).len() > 0;
    lemma_filter_has(texts_at(v, key), p, t);
    law_trimmed_is_the_middle(t);
    if let Some(items) = v.array_at(key) {
        lemma_filter_map_has(items, f, t);
        if exists|i: int| 0 <= i < items.len() && f(#[trigger] items[i]) == Some(t) {
            let i = choose|i: int| 0 <= i < items.len() && f(#[trigger] items[i]) == Some(t);
            assert(items[i] == JsonView::Str(t));
        }
        if items.contains(JsonView::Str(t)) {
            let i = choose|i: int| 0 <= i < items.len() && items[i] == JsonView::Str(t);
            assert(f(items[i]) == Some(t));
        }
    }
}

/// The preferences, the taboos and the habits of the user are each read from
/// their own list.
pub proof fn law_profile_is_read(v: JsonView, t: Seq<char>)
    ensures
        profile_of(v).explicit.contains(t) <==> lists(
            v,
            "explicit_preferences"@,
            JsonView::Str(t),
        ) && !is_all_blank(t),
        profile_of(v).implicit.contains(t) <==> lists(
            v,
            "implicit_preferences"@,
            JsonView::Str(t),
        ) && !is_all_blank(t),
        profile_of(v).taboos.contains(t) <==> lists(v, "taboos"@, JsonView::Str(t))
            && !is_all_blank(t),
        profile_of(v).habits.contains(t) <==> lists(v, "habits"@, JsonView::Str(t))
            && !is_all_blank(t),
{
    law_texts_in_a_list(v, "explicit_preferences"@, t);
    law_texts_in_a_list(v, "implicit_preferences"@, t);
    law_texts_in_a_list(v, "taboos"@, t);
    law_texts_in_a_list(v, "habits"@, t);
}

/// A category is read from its own name, and any other word is no category.
pub proof fn law_category_by_its_name(c: PitfallCategory, w: Seq<char>)
    ensures
        category_named(category_name(c)) == c,
        category_named(w) != PitfallCategory::Other ==> w == category_name(category_named(w)),
{
    reveal_strlit("ToolFailure");
    reveal_strlit("WrongAnswer");
    reveal_strlit("LazyBehavior");
    reveal_strlit("FormatIssue");
    reveal_strlit("Other");
    assert("ToolFailure"@[0] == 'T' && "WrongAnswer"@[0] == 'W' && "LazyBehavior"@[0] == 'L'
        && "FormatIssue"@[0] == 'F' && "Other"@[0] == 'O');
}

/// A pitfall is read where it is described; with the correction that is given
/// and the category that is named, or none in particular.
pub proof fn law_pitfall_is_read(v: JsonView)
    ensures
        pitfall_of(v) is Some <==> exists|d: Seq<char>|
            d.len() > 0 && #[trigger] says(v, "description"@, d),
        pitfall_of(v) matches Some(p) ==> {
            &&& v.get("description"@) == Some(JsonView::Str(p.description))
            &&& p.description.len() > 0
            &&& p.user_correction is Some <==> v.get("user_correction"@) is Some && v.get(
                "user_correction"@,
            )->0 is Str
            &&& p.user_correction is Some ==> v.get("user_correction"@) == Some(
                JsonView::Str(p.user_correction->0),
            )
            &&& v.get("category"@) == Some(JsonView::Str(category_name(p.category))) || p.category
                == PitfallCategory::Other
            &&& forall|c: PitfallCategory|
                v.get("category"@) == Some(JsonView::Str(#[trigger] category_name(c)))
                    ==> p.category == c
        },
{
    reveal_strlit("");
    let w = text_at_or(v, "category"@, "Other"@);
    law_category_by_its_name(PitfallCategory::Other, w);
    assert forall|c: PitfallCategory|
        v.get("category"@) == Some(JsonView::Str(#[trigger] category_name(c))) implies category_named(
        w,
    ) == c by {
        law_category_by_its_name(c, w);
    }
    if pitfall_of(v) is Some {
        let d = pitfall_of(v)->0.description;
        assert(says(v, "description"@, d));
    }
}

/// A rule is read where it has words; with the pitfalls that it comes from, and
/// a priority of at most five, or three where none is given.
pub proof fn law_rule_is_read(v: JsonView)
    ensures
        rule_of(v) is Some <==> exists|d: Seq<char>|
            d.len() > 0 && #[trigger] says(v, "rule"@, d),
        rule_of(v) matches Some(r) ==> {
            &&& v.get("rule"@) == Some(JsonView::Str(r.rule))
            &&& r.rule.len() > 0
            &&& forall|t: Seq<char>|
                r.source_pitfall_ids.contains(t) <==> lists(
                    v,
                    "source_pitfall_ids"@,
                    JsonView::Str(t),
                )
            &&& r.priority <= 5
            &&& v.get("priority"@) is None ==> r.priority == 3
            &&& forall|n: u64|
                n <= 5 && #[trigger] counts(v, "priority"@, n)
                    ==> r.priority == n
            &&& forall|n: u64|
                5 < n < 256 && #[trigger] counts(v, "priority"@, n)
                    ==> r.priority == 5
        },
{
    reveal_strlit("");
    if rule_of(v) is Some {
        let r = rule_of(v)->0;
        assert(says(v, "rule"@, r.rule));
        assert forall|t: Seq<char>| r.source_pitfall_ids.contains(t) <==> lists(
            v,
            "source_pitfall_ids"@,
            JsonView::Str(t),
        ) by {
            law_texts_in_a_list(v, "source_pitfall_ids"@, t);
        }
        assert forall|n: u64|
            n <= 5 && #[trigger] counts(v, "priority"@, n) implies r.priority
            == n by {
            assert(n % 256 == n);
        }
        assert forall|n: u64|
            5 < n < 256 && #[trigger] counts(v, "priority"@, n) implies r.priority
            == 5 by {
            assert(n % 256 == n);
        }
    }
}

/// The pitfalls, the rules and the requirements that are read are those of the
/// list that is named after them, as far as they can be read.
pub proof fn law_lists_are_read(
    v: JsonView,
    p: NewPitfallView,
    r: NewEvolutionRuleView,
    q: (Seq<char>, Seq<char>),
)
    ensures
        pitfalls_of(v).contains(p) <==> exists|x: JsonView| #[trigger]
            lists(v, "pitfalls"@, x) && pitfall_of(x) == Some(p),
        rules_of(v).contains(r) <==> exists|x: JsonView| #[trigger]
            lists(v, "rules"@, x) && rule_of(x) == Some(r),
        requirements_of(v).contains(q) <==> exists|x: JsonView| #[trigger]
            lists(v, "requirements"@, x) && requirement_of(x) == Some(q),
{
    let f = |x: JsonView| pitfall_of(x);
    let g = |x: JsonView| rule_of(x);
    let h = |x: JsonView| requirement_of(x);
    lemma_list_read(v, "pitfalls"@, f, p);
    lemma_list_read(v, "rules"@, g, r);
    lemma_list_read(v, "requirements"@, h, q);
    if exists|x: JsonView| #[trigger] lists(v, "pitfalls"@, x) && pitfall_of(x) == Some(p) {
        let x = choose|x: JsonView| #[trigger] lists(v, "pitfalls"@, x) && pitfall_of(x) == Some(p);
        assert(f(x) == Some(p));
    }
    if exists|x: JsonView| #[trigger] lists(v, "rules"@, x) && rule_of(x) == Some(r) {
        let x = choose|x: JsonView| #[trigger] lists(v, "rules"@, x) && rule_of(x) == Some(r);
        assert(g(x) == Some(r));
    }
    if exists|x: JsonView| #[trigger] lists(v, "requirements"@, x) && requirement_of(x) == Some(q) {
        let x = choose|x: JsonView| #[trigger]
            lists(v, "requirements"@, x) && requirement_of(x) == Some(q);
        assert(h(x) == Some(q));
    }
}

proof fn lemma_list_read<A>(v: JsonView, key: Seq<char>, f: spec_fn(JsonView) -> Option<A>, y: A)
    ensures
        (match v.array_at(key) {
            Some(items) => items.filter_map(f),
            None => Seq::empty(),
        }).contains(y) <==> exists|x: JsonView| #[trigger] lists(v, key, x) && f(x) == Some(y),
{
    match v.array_at(key) {
        Some(items) => {
            lemma_filter_map_has(items, f, y);
            if items.filter_map(f).contains(y) {
                let i = choose|i: int| 0 <= i < items.len() && f(#[trigger] items[i]) == Some(y);
                assert(items.contains(items[i]));
                assert(lists(v, key, items[i]));
            }
            if exists|x: JsonView| #[trigger] lists(v, key, x) && f(x) == Some(y) {
                let x = choose|x: JsonView| #[trigger] lists(v, key, x) && f(x) == Some(y);
                let i = choose|i: int| 0 <= i < items.len() && items[i] == x;
                assert(f(items[i]) == Some(y));
            }
        },
        None => {
            assert(!Seq::<A>::empty().contains(y));
        },
    }
}

/// A requirement is read where it has a content that is not blank, without the
/// white space round it; with its source, or that of the analysis.
pub proof fn law_requirement_is_read(v: JsonView)
    ensures
        requirement_of(v) is Some <==> exists|d: Seq<char>|
            !is_all_blank(d) && #[trigger] says(v, "content"@, d),
        forall|d: Seq<char>|
            !is_all_blank(d) && #[trigger] says(v, "content"@, d)
                ==> requirement_of(v) is Some && (requirement_of(v)->0).0 == trimmed(d),
        forall|s: Seq<char>|
            requirement_of(v) is Some && #[trigger] says(v, "source"@, s) ==> (
            requirement_of(v)->0).1 == s,
        requirement_of(v) is Some && v.get("source"@) is None ==> (requirement_of(v)->0).1
            == "记忆脑分析"@,
{
    reveal_strlit("");
    let d = text_at_or(v, "content"@, ""@);
    law_trimmed_is_the_middle(d);
    if requirement_of(v) is Some {
        if v.str_at("content"@) is None {
            assert(is_all_blank(d));
        }
        assert(says(v, "content"@, d));
    }
}

/// A summary of a session is made where the facts are given, of the session at
/// hand and of now, neither archived nor replaced, with the tags, the pitfalls
/// and the decisions of their lists; and else there is an error.
pub proof fn law_session_summary_is_read(v: JsonView, id: Seq<char>, now: i64, t: Seq<char>)
    ensures
        session_summary_of(v, id, now) is Ok <==> exists|d: Seq<char>|
            d.len() > 0 && #[trigger] says(v, "fact_summary"@, d),
        session_summary_of(v, id, now) matches Ok(s) ==> {
            &&& v.get("fact_summary"@) == Some(JsonView::Str(s.fact_summary))
            &&& s.session_id == id
            &&& s.created_at == now
            &&& !s.archived
            &&& !s.superseded
            &&& s.tags.contains(t) <==> lists(v, "tags"@, JsonView::Str(t))
            &&& s.pitfalls.contains(t) <==> lists(v, "pitfalls"@, JsonView::Str(t))
            &&& s.decisions.contains(t) <==> lists(v, "decisions"@, JsonView::Str(t))
        },
{
    reveal_strlit("");
    law_texts_in_a_list(v, "tags"@, t);
    law_texts_in_a_list(v, "pitfalls"@, t);
    law_texts_in_a_list(v, "decisions"@, t);
    if session_summary_of(v, id, now) is Ok {
        let d = session_summary_of(v, id, now)->Ok_0.fact_summary;
        assert(says(v, "fact_summary"@, d));
    }
}

/// What an impression tells is read where it is not blank, without the white
/// space round it, with its new keywords.
pub proof fn law_narrative_is_read(v: JsonView, t: Seq<char>)
    ensures
        forall|d: Seq<char>|
            #[trigger] says(v, "narrative"@, d) ==> (narrative_of(v) is Some
                <==> !is_all_blank(d)) && (narrative_of(v) is Some ==> narrative_of(v)->0.narrative
                == trimmed(d)),
        v.get("narrative"@) is None ==> narrative_of(v) is None,
        narrative_of(v) is Some ==> (narrative_of(v)->0.new_keywords.contains(t) <==> lists(
            v,
            "new_keywords"@,
            JsonView::Str(t),
        ) && !is_all_blank(t)),
{
    reveal_strlit("");
    let d = text_at_or(v, "narrative"@, ""@);
    law_trimmed_is_the_middle(d);
    law_texts_in_a_list(v, "new_keywords"@, t);
}

/// Each step of the analysis reports what it found under its own head, and
/// leaves what the others found.
pub proof fn law_each_step_reports(a: FourStepAnalyzerView, n: usize, b: bool, s: Seq<char>)
    ensures
        ({
            let facts = after_step(a, StepOutcomeView::Facts(s));
            let count = after_step(a, StepOutcomeView::Count(n));
            let flag = after_step(a, StepOutcomeView::Flag(b));
            &&& a.step == AnalysisStep::Facts ==> facts.report == (AnalysisReportView {
                fact_summary: s,
                ..a.report
            }) && facts.step == AnalysisStep::Iteration
            &&& a.step == AnalysisStep::Iteration ==> count.report == (AnalysisReportView {
                step0_iterations: n,
                ..a.report
            }) && count.step == AnalysisStep::Profile
            &&& a.step == AnalysisStep::Profile ==> count.report == (AnalysisReportView {
                profile_entries_added: n,
                ..a.report
            }) && count.step == AnalysisStep::Pitfalls
            &&& a.step == AnalysisStep::Narrative ==> flag.report == (AnalysisReportView {
                subconscious_updated: b,
                ..a.report
            }) && flag.step == AnalysisStep::Summary
            &&& a.step == AnalysisStep::Summary ==> flag.report == (AnalysisReportView {
                summary_generated: b,
                ..a.report
            }) && flag.step == AnalysisStep::Requirements
            &&& a.step == AnalysisStep::Requirements ==> count.report == (AnalysisReportView {
                eval_requirements_added: n,
                ..a.report
            }) && count.step == AnalysisStep::Done
        }),
        after_step(a, StepOutcomeView::Failed).report == a.report,
        a.step == AnalysisStep::Facts ==> after_step(a, StepOutcomeView::Failed).step
            == AnalysisStep::Done,
{
}

/// Pitfalls and rules that were found are counted; and rules are looked for
/// only where there were pitfalls.
pub proof fn law_findings_are_reported(
    a: FourStepAnalyzerView,
    p: Seq<NewPitfallView>,
    r: Seq<NewEvolutionRuleView>,
)
    requires
        p.len() <= usize::MAX,
        r.len() <= usize::MAX,
    ensures
        a.step == AnalysisStep::Pitfalls ==> ({
            let after = after_step(a, StepOutcomeView::Pitfalls(p));
            &&& after.report == (AnalysisReportView {
                pitfalls_found: p.len() as usize,
                ..a.report
            })
            &&& after.report.pitfalls_found == p.len()
            &&& after.new_pitfalls == p
            &&& after.step == if p.len() > 0 {
                AnalysisStep::Rules
            } else {
                AnalysisStep::Narrative
            }
        }),
        a.step == AnalysisStep::Rules ==> ({
            let after = after_step(a, StepOutcomeView::Rules(r));
            &&& after.report == (AnalysisReportView {
                rules_created: r.len() as usize,
                ..a.report
            })
            &&& after.report.rules_created == r.len()
            &&& after.step == AnalysisStep::Narrative
        }),
{
}

/// What is known already is the summaries that nothing has replaced, the
/// pitfalls that matter and the rules in force, each under its id and as what
/// it is.
pub proof fn law_memories_at_hand(
    summaries: Seq<SessionSummaryView>,
    pitfalls: Seq<PitfallRecordView>,
    rules: Seq<EvolutionRuleView>,
    m: ExistingMemoryView,
)
    ensures
        memories_of(summaries, pitfalls, rules).contains(m) <==> {
            ||| m.store_type == MemoryStoreType::Summary && exists|s: SessionSummaryView| #[trigger]
                summaries.contains(s) && !s.superseded && m.id == s.session_id && m.content
                    == s.fact_summary && m.created_at == s.created_at
            ||| m.store_type == MemoryStoreType::Pitfall && exists|p: PitfallRecordView| #[trigger]
                pitfalls.contains(p) && p.occurrence_count > 0 && !p.superseded && m.id == p.id
                    && m.content == p.description && m.created_at == p.occurred_at
            ||| m.store_type == MemoryStoreType::Evolution && exists|r: EvolutionRuleView| #[trigger]
                rules.contains(r) && !r.superseded && m.id == r.id && m.content == r.rule
                    && m.created_at == r.created_at
        },
{
    let f = |s: SessionSummaryView| summary_memory(s);
    let g = |p: PitfallRecordView| pitfall_memory(p);
    let h = |r: EvolutionRuleView| rule_memory(r);
    let live = recallable_summaries(summaries);
    let a = live.map_values(f);
    let b = active_pitfalls(pitfalls).map_values(g);
    let c = active_rules(rules).map_values(h);
    lemma_has_parts(a, b, m);
    lemma_has_parts(a + b, c, m);
    lemma_mapped_has(live, f, m);
    lemma_mapped_has(active_pitfalls(pitfalls), g, m);
    lemma_mapped_has(active_rules(rules), h, m);
    if a.contains(m) {
        let s = choose|s: SessionSummaryView| #[trigger] live.contains(s) && f(s) == m;
        lemma_filter_has(summaries, |s: SessionSummaryView| !s.superseded, s);
        assert(summaries.contains(s));
    }
    if b.contains(m) {
        let p = choose|p: PitfallRecordView| #[trigger]
            active_pitfalls(pitfalls).contains(p) && g(p) == m;
        law_pitfalls_that_matter(pitfalls, p);
        assert(pitfalls.contains(p));
    }
    if c.contains(m) {
        let r = choose|r: EvolutionRuleView| #[trigger] active_rules(rules).contains(r) && h(r) == m;
        law_rules_in_force(rules, r);
        assert(rules.contains(r));
    }
    if m.store_type == MemoryStoreType::Summary && exists|s: SessionSummaryView| #[trigger]
        summaries.contains(s) && !s.superseded && m.id == s.session_id && m.content
            == s.fact_summary && m.created_at == s.created_at {
        let s = choose|s: SessionSummaryView| #[trigger]
            summaries.contains(s) && !s.superseded && m.id == s.session_id && m.content
                == s.fact_summary && m.created_at == s.created_at;
        lemma_filter_has(summaries, |s: SessionSummaryView| !s.superseded, s);
        assert(live.contains(s) && f(s) == m);
    }
    if m.store_type == MemoryStoreType::Pitfall && exists|p: PitfallRecordView| #[trigger]
        pitfalls.contains(p) && p.occurrence_count > 0 && !p.superseded && m.id == p.id && m.content
            == p.description && m.created_at == p.occurred_at {
        let p = choose|p: PitfallRecordView| #[trigger]
            pitfalls.contains(p) && p.occurrence_count > 0 && !p.superseded && m.id == p.id
                && m.content == p.description && m.created_at == p.occurred_at;
        law_pitfalls_that_matter(pitfalls, p);
        assert(active_pitfalls(pitfalls).contains(p) && g(p) == m);
    }
    if m.store_type == MemoryStoreType::Evolution && exists|r: EvolutionRuleView| #[trigger]
        rules.contains(r) && !r.superseded && m.id == r.id && m.content == r.rule && m.created_at
            == r.created_at {
        let r = choose|r: EvolutionRuleView| #[trigger]
            rules.contains(r) && !r.superseded && m.id == r.id && m.content == r.rule
                && m.created_at == r.created_at;
        law_rules_in_force(rules, r);
        assert(active_rules(rules).contains(r) && h(r) == m);
    }
}

proof fn lemma_mapped_has<A, B>(s: Seq<A>, g: spec_fn(A) -> B, y: B)
    ensures
        s.map_values(g).contains(y) <==> exists|x: A| #[trigger] s.contains(x) && g(x) == y,
{
    let r = s.map_values(g);
    if r.contains(y) {
        let k = choose|k: int| 0 <= k < r.len() && r[k] == y;
        assert(s.contains(s[k]) && g(s[k]) == y);
    }
    if exists|x: A| #[trigger] s.contains(x) && g(x) == y {
        let x = choose|x: A| #[trigger] s.contains(x) && g(x) == y;
        let k = choose|k: int| 0 <= k < s.len() && s[k] == x;
        assert(r[k] == y);
    }
}

/// Giving a summary up marks those of its session, and changes nothing else.
pub proof fn law_summary_is_given_up(s: Seq<SessionSummaryView>, id: Seq<char>, i: int)
    requires
        0 <= i < s.len(),
    ensures
        superseded_in(s, id).len() == s.len(),
        superseded_in(s, id)[i] == (SessionSummaryView {
            superseded: s[i].superseded || s[i].session_id == id,
            ..s[i]
        }),
{
}

/// A memory is given up where the reply says of its id that something new takes
/// its place or says it better; it is kept where both hold or neither bears on
/// the other.
pub proof fn law_memory_is_replaced(
    existing: Seq<ExistingMemoryView>,
    id: Seq<char>,
    i: int,
)
    requires
        0 <= i < existing.len(),
        existing[i].id == id,
        forall|k: int| 0 <= k < i ==> (#[trigger] existing[k]).id != id,
    ensures
        marked_by(
            existing,
            (IterationResultView { id, relation: MemoryRelation::Override }),
        ) == Some((existing[i].store_type, id)),
        marked_by(existing, (IterationResultView { id, relation: MemoryRelation::Refine })) == Some(
            (existing[i].store_type, id),
        ),
        marked_by(
            existing,
            (IterationResultView { id, relation: MemoryRelation::Complement }),
        ) is None,
        marked_by(
            existing,
            (IterationResultView { id, relation: MemoryRelation::Unrelated }),
        ) is None,
{
    lemma_first_index_some(existing, |e: ExistingMemoryView| e.id == id, i);
}

/// A relation is read by its word, of the id that is given; one entry that
/// cannot be read spoils the list.
pub proof fn law_relations_are_read(v: JsonView, items: Seq<JsonView>)
    ensures
        iteration_of(v) is Some ==> v.get("id"@) == Some(JsonView::Str(iteration_of(v)->0.id)),
        iteration_of(v) is Some ==> v.get("relation"@) == Some(
            JsonView::Str(
                match iteration_of(v)->0.relation {
                    MemoryRelation::Override => "OVERRIDE"@,
                    MemoryRelation::Complement => "COMPLEMENT"@,
                    MemoryRelation::Refine => "REFINE"@,
                    MemoryRelation::Unrelated => "UNRELATED"@,
                },
            ),
        ),
        iterations_of(JsonView::Array(items)) matches Some(r) ==> r.len() == items.len() && forall|
            i: int,
        |
            0 <= i < items.len() ==> iteration_of(#[trigger] items[i]) == Some(r[i]),
        forall|i: int|
            0 <= i < items.len() && iteration_of(#[trigger] items[i]) is None ==> iterations_of(
                JsonView::Array(items),
            ) is None,
        relation_named("OVERRIDE"@) == Some(MemoryRelation::Override),
        relation_named("COMPLEMENT"@) == Some(MemoryRelation::Complement),
        relation_named("REFINE"@) == Some(MemoryRelation::Refine),
        relation_named("UNRELATED"@) == Some(MemoryRelation::Unrelated),
{
    reveal_strlit("OVERRIDE");
    reveal_strlit("COMPLEMENT");
    reveal_strlit("REFINE");
    reveal_strlit("UNRELATED");
    assert("OVERRIDE"@[0] == 'O' && "COMPLEMENT"@[0] == 'C' && "REFINE"@[0] == 'R' && "UNRELATED"@[0]
        == 'U');
}

// ---------------------------------------------------------------------------
// Topics
// ---------------------------------------------------------------------------

/// A topic is read where it has a name, with its keywords and its sessions; its
/// importance is the number that is given, or seven tenths.
pub proof fn law_topic_is_read(v: JsonView, t: Seq<char>)
    ensures
        topic_of(v) is Some <==> v.get("topic"@) is Some && v.get("topic"@)->0 is Str,
        topic_of(v) matches Some(x) ==> {
            &&& v.get("topic"@) == Some(JsonView::Str(x.topic))
            &&& x.keywords.contains(t) <==> lists(v, "keywords"@, JsonView::Str(t))
            &&& x.session_ids.contains(t) <==> lists(v, "session_ids"@, JsonView::Str(t))
            &&& v.get("importance"@) is None ==> x.importance == 0x3fe6_6666_6666_6666
            &&& v.get("importance"@) is Some && double_bits_of(v.get("importance"@)->0) is Some
                ==> x.importance == double_bits_of(v.get("importance"@)->0)->0
        },
{
    law_texts_in_a_list(v, "keywords"@, t);
    law_texts_in_a_list(v, "session_ids"@, t);
}

/// A topic is filed with its name and its sessions; a new one has the facts for
/// its summary and its own keywords, an old one the summary that the model
/// wrote or the facts below its own, and the greater importance of the two.
pub proof fn law_topic_is_filed(
    topics: Seq<ArchiveTopicIndexView>,
    t: TopicProposalView,
    facts: Seq<Seq<char>>,
    reply: Option<Seq<char>>,
    now: i64,
)
    ensures
        ({
            let r = filed_index(topics, t, facts, reply, now);
            &&& r.topic == t.topic
            &&& r.updated_at == now
            &&& forall|k: int|
                0 <= k < t.session_ids.len() ==> {
                    let x = #[trigger] r.references[r.references.len() - t.session_ids.len() + k];
                    x.session_id == t.session_ids[k] && x.importance == t.importance
                }
            &&& keyed_item::<ArchiveTopicIndex>(topics, t.topic) is None ==> {
                &&& r.merged_summary == joined(facts, "\n"@)
                &&& r.trigger_keywords == t.keywords
                &&& r.importance == t.importance
                &&& r.created_at == now
                &&& r.references.len() == t.session_ids.len()
            }
            &&& keyed_item::<ArchiveTopicIndex>(topics, t.topic) matches Some(i) ==> {
                &&& reply is Some ==> r.merged_summary == trimmed(reply->0)
                &&& reply is None ==> r.merged_summary == i.merged_summary + "\n"@ + joined(
                    facts,
                    "\n"@,
                )
                &&& r.importance == larger_of(i.importance, t.importance)
                &&& r.created_at == i.created_at
                &&& r.references.len() == i.references.len() + t.session_ids.len()
            }
        }),
{
    law_found_has_the_key::<ArchiveTopicIndex>(topics, t.topic);
}

/// The facts of a topic are those of its sessions that are not archived yet;
/// and archiving marks the summaries of the sessions, and nothing else.
pub proof fn law_sessions_of_a_topic(
    s: Seq<SessionSummaryView>,
    ids: Seq<Seq<char>>,
    f: Seq<char>,
    i: int,
    x: SessionSummaryView,
)
    requires
        0 <= i < s.len(),
    ensures
        topic_facts(s, ids).contains(f) <==> exists|y: SessionSummaryView| #[trigger]
            s.contains(y) && ids.contains(y.session_id) && y.fact_summary == f,
        archived_in(s, ids).len() == s.len(),
        archived_in(s, ids)[i] == (SessionSummaryView {
            archived: s[i].archived || ids.contains(s[i].session_id),
            ..s[i]
        }),
        unarchived_summaries(s).contains(x) <==> s.contains(x) && !x.archived,
{
    let p = |y: SessionSummaryView| ids.contains(y.session_id);
    let g = |y: SessionSummaryView| y.fact_summary;
    lemma_mapped_has(s.filter(p), g, f);
    if topic_facts(s, ids).contains(f) {
        let y = choose|y: SessionSummaryView| #[trigger] s.filter(p).contains(y) && g(y) == f;
        lemma_filter_has(s, p, y);
        assert(s.contains(y));
    }
    if exists|y: SessionSummaryView| #[trigger]
        s.contains(y) && ids.contains(y.session_id) && y.fact_summary == f {
        let y = choose|y: SessionSummaryView| #[trigger]
            s.contains(y) && ids.contains(y.session_id) && y.fact_summary == f;
        lemma_filter_has(s, p, y);
        assert(s.filter(p).contains(y) && g(y) == f);
    }
    lemma_filter_has(s, |y: SessionSummaryView| !y.archived, x);
}

/// The keywords of a topic keep their place, and a new one joins them where it
/// does not stand among them in whatever case.
pub proof fn law_keywords_join(have: Seq<Seq<char>>, more: Seq<Seq<char>>, k: Seq<char>)
    ensures
        more.len() == 0 ==> keywords_united(have, more) == have,
        ({
            let before = keywords_united(have, more);
            keywords_united(have, more.push(k)) == if exists|i: int|
                0 <= i < before.len() && ascii_lower(#[trigger] before[i]) == ascii_lower(k) {
                before
            } else {
                before.push(k)
            }
        }),
{
    let before = keywords_united(have, more);
    let p = |x: Seq<char>| ascii_lower(x) == ascii_lower(k);
    assert(more.push(k).drop_last() =~= more);
    if some_is(before, p) {
        let i = choose|i: int| 0 <= i < before.len() && p(#[trigger] before[i]);
        assert(ascii_lower(before[i]) == ascii_lower(k));
    }
    if exists|i: int|
        0 <= i < before.len() && ascii_lower(#[trigger] before[i]) == ascii_lower(k) {
        let i = choose|i: int|
            0 <= i < before.len() && ascii_lower(#[trigger] before[i]) == ascii_lower(k);
        assert(p(before[i]));
    }
}

/// A topic that takes in another keeps its name, all that it referred to and, in
/// their order, as many of the keywords as ten; it refers to each session of the
/// other behind its own, and counts as much as the more important of the two.
pub proof fn law_topics_are_merged(
    i: ArchiveTopicIndexView,
    t: TopicProposalView,
    summary: Seq<char>,
    now: i64,
    k: int,
)
    ensures
        ({
            let r = merged_topic(i, t, summary, now);
            let all = keywords_united(i.trigger_keywords, t.keywords);
            &&& r.topic == i.topic
            &&& r.merged_summary == summary
            &&& r.updated_at == now
            &&& r.created_at == i.created_at
            &&& r.trigger_keywords.is_prefix_of(all)
            &&& r.trigger_keywords.len() == if all.len() < 10 {
                all.len()
            } else {
                10
            }
            &&& i.references.is_prefix_of(r.references)
            &&& r.references.len() == i.references.len() + t.session_ids.len()
            &&& 0 <= k < t.session_ids.len() ==> ({
                let x = r.references[i.references.len() + k];
                x.session_id == t.session_ids[k] && x.summary.len() == 0 && x.importance
                    == t.importance
            })
            &&& is_number(i.importance) && is_number(t.importance) ==> rank_of(r.importance)
                >= rank_of(i.importance) && rank_of(r.importance) >= rank_of(t.importance) && (
            r.importance == i.importance || r.importance == t.importance)
        }),
{
    reveal_strlit("");
}

// ---------------------------------------------------------------------------
// The JSON in a reply
// ---------------------------------------------------------------------------

/// What stands between the first fence and the next is taken out of the reply.
pub proof fn law_fence_is_opened(t: Seq<char>, opener: Seq<char>, s: int, e: int)
    requires
        0 <= s,
        s + opener.len() <= e,
        e + 3 <= t.len(),
        t.subrange(s, s + opener.len()) == opener,
        forall|k: int| 0 <= k < s ==> #[trigger] t.subrange(k, k + opener.len()) != opener,
        t.subrange(e, e + 3) == "```"@,
        forall|k: int| s + opener.len() <= k < e ==> #[trigger] t.subrange(k, k + 3) != "```"@,
    ensures
        fenced(t, opener) == Some(trimmed(t.subrange(s + opener.len(), e))),
{
    reveal_strlit("```");
    lemma_found_at(t, opener, 0, s);
    lemma_found_at(t, "```"@, s + opener.len(), e);
}

proof fn lemma_found_at(t: Seq<char>, n: Seq<char>, from: int, at: int)
    requires
        0 <= from <= at,
        at + n.len() <= t.len(),
        t.subrange(at, at + n.len()) == n,
        forall|k: int| from <= k < at ==> #[trigger] t.subrange(k, k + n.len()) != n,
    ensures
        find_from(t, n, from) == Some(at),
{
    law_found_is_the_first(t, n, from);
    match find_from(t, n, from) {
        Some(i) => {
            if i < at {
                assert(t.subrange(i, i + n.len()) != n);
            }
            if at < i {
                assert(t.subrange(at, at + n.len()) != n);
            }
        },
        None => {
            assert(t.subrange(at, at + n.len()) != n);
        },
    }
}

/// A bracket without brackets, quotes and strokes of its kind inside ends with
/// the first that closes it.
pub proof fn law_bracket_is_closed(t: Seq<char>, start: int, end: int)
    requires
        0 <= start < end < t.len(),
        t[start] == '{' || t[start] == '[',
        t[end] == (if t[start] == '{' {
            '}'
        } else {
            ']'
        }),
        forall|k: int|
            start < k < end ==> (#[trigger] t[k]) != t[start] && t[k] != t[end] && t[k] != '"'
                && t[k] != '\\',
    ensures
        matching_end(t, start) == end + 1,
{
    let open = t[start];
    let close = closer(open);
    let w = Walk { depth: 0, in_string: false, escape: false };
    let v = Walk { depth: 1, in_string: false, escape: false };
    assert(walked(w, open, open, close) == v);
    lemma_walk_on(t, start + 1, end, v, open, close);
}

proof fn lemma_walk_on(t: Seq<char>, i: int, end: int, w: Walk, open: char, close: char)
    requires
        0 <= i <= end < t.len(),
        w == (Walk { depth: 1, in_string: false, escape: false }),
        t[end] == close,
        close != open,
        close != '"',
        close != '\\',
        forall|k: int|
            i <= k < end ==> (#[trigger] t[k]) != open && t[k] != close && t[k] != '"' && t[k]
                != '\\',
    ensures
        walk_end(t, i, w, open, close) == end + 1,
    decreases end - i,
{
    if i < end {
        assert(walked(w, t[i], open, close) == w);
        lemma_walk_on(t, i + 1, end, w, open, close);
    }
}

/// Inside a text nothing opens and nothing closes.
pub proof fn law_texts_are_passed_over(w: Walk, c: char, open: char, close: char)
    requires
        open != '"' && open != '\\' && close != '"' && close != '\\' && open != close,
    ensures
        w.in_string ==> walked(w, c, open, close).depth == w.depth && !closes(w, c, open, close),
        !w.in_string && !w.escape ==> walked(w, open, open, close).depth == w.depth + 1 && walked(
            w,
            close,
            open,
            close,
        ).depth == w.depth - 1,
        !w.escape ==> walked(w, '"', open, close).in_string == !w.in_string && walked(
            w,
            '\\',
            open,
            close,
        ).escape,
        w.escape ==> walked(w, c, open, close) == (Walk { escape: false, ..w }),
{
}

/// Where a reply has an object and no list it is the object, where it has a
/// list and no object the list, and where it has both the one that reads, and
/// of two that read the one that comes first.
pub proof fn law_json_in_a_reply(t: Seq<char>, object_reads: bool, list_reads: bool)
    ensures
        ({
            let r = json_among(t, object_reads, list_reads);
            let object = bracketed(t, "{"@);
            let list = bracketed(t, "["@);
            &&& object is Some && list is None ==> r == object->0
            &&& object is None && list is Some ==> r == list->0
            &&& object is None && list is None ==> r == t
            &&& object is Some && list is Some && object_reads && !list_reads ==> r == object->0
            &&& object is Some && list is Some && !object_reads && list_reads ==> r == list->0
            &&& object is Some && list is Some && object_reads && list_reads ==> r == if find_from(
                t,
                "["@,
                0,
            )->0 < find_from(t, "{"@, 0)->0 {
                list->0
            } else {
                object->0
            }
        }),
{
}

} // verus!
