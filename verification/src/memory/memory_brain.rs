//! The memory brain: what it takes in, what it recalls and what it answers.

use crate::brains::{
    BrainId, BrainResponse, BrainResponsePayload, BrainResponsePayloadView, BrainResponseView,
    BroadcastMessage, CollaborationKind, CollaborationMessage, FastThinkResult, FastThinkResultView,
    KnowledgeSource, KnowledgeSourceView, MemoryEntry, MemoryEntryView, MemoryLayer,
    SlowThinkResult, SlowThinkResultView,
};
use crate::json::{json_of_text, text_of_json, Json, JsonFields, JsonView};
use crate::main_brain::tool_loop::{head, head_of};
use crate::memory::analyzer::{find_recallable, recallable_summaries};
use crate::memory::archive::{ArchiveTopicIndex, ArchiveTopicIndexView};
use crate::memory::evolution::{active_rules, find_active_rules};
use crate::memory::keywords::{extract_keywords, keywords_of, parts_of};
use crate::memory::pitfall::{active_pitfalls, find_active_pitfalls};
use crate::memory::types::{
    EvolutionRule, EvolutionRuleView, PitfallRecord, PitfallRecordView, RawEntry, RawEntryView,
    SessionSummary, SessionSummaryView, SubconsciousEntry, SubconsciousEntryView,
};
use crate::paths::{join_path, path_of};
use crate::replicate::Replicate;
use crate::seqs::{
    lemma_filter_map_none, lemma_filter_map_step, lemma_take_all, lemma_take_step,
};
use crate::text::{
    chars_of, contains, decimal, find_chars, find_from, has_text, join, joined, lemma_find_from,
    lowercase_of, number, occurs_at, same, signed_decimal, signed_number, split_any, split_at_chars,
    starts_with, text_of, trim, trimmed,
};
use crate::times::{rfc3339_of, write_time};
use crate::walk::{
    any_is, append_all, at_most, filter_each, filter_map_each, first_items, map_each, no_items,
    push_one, reversed, some_is,
};
use crate::weights::{
    FIFTH, FOUR_FIFTHS, HALF, NINETEEN_TWENTIETHS, NINE_TENTHS, ONE, SEVENTEEN_TWENTIETHS,
    SEVEN_TENTHS, TENTH, THREE_FIFTHS, THREE_QUARTERS, THREE_TENTHS, TWO_FIFTHS,
};
use vstd::prelude::*;

verus! {

/// After how many queries the conversation is analysed.
pub const ANALYSIS_INTERVAL: u32 = 5;

/// How the memory brain is set up.
#[derive(Debug, PartialEq)]
pub struct MemoryBrainConfig {
    pub base_dir: String,
    pub session_id: String,
    pub max_keywords: usize,
}

/// What a setup is.
#[verifier::ext_equal]
pub struct MemoryBrainConfigView {
    pub base_dir: Seq<char>,
    pub session_id: Seq<char>,
    pub max_keywords: usize,
}

impl DeepView for MemoryBrainConfig {
    type V = MemoryBrainConfigView;

    open spec fn deep_view(&self) -> MemoryBrainConfigView {
        MemoryBrainConfigView {
            base_dir: self.base_dir@,
            session_id: self.session_id@,
            max_keywords: self.max_keywords,
        }
    }
}

impl Replicate for MemoryBrainConfig {
    fn replicate(&self) -> (r: Self) {
        MemoryBrainConfig {
            base_dir: self.base_dir.clone(),
            session_id: self.session_id.clone(),
            max_keywords: self.max_keywords,
        }
    }
}

impl MemoryBrainConfig {
    /// The setup below the home directory, for a session that starts at
    /// `timestamp` seconds of Unix time.
    pub fn below_home(home: Option<&str>, timestamp: i64) -> (r: Self)
        ensures
            r.deep_view() == (MemoryBrainConfigView {
                base_dir: path_of(
                    match home {
                        Some(h) => h@,
                        None => "/tmp"@,
                    },
                    ".ai-brain"@,
                ),
                session_id: "sess-"@ + signed_decimal(timestamp as int),
                max_keywords: 5,
            }),
    {
        let base = match home {
            Some(h) => h,
            None => "/tmp",
        };
        let mut session_id = "sess-".to_owned();
        let n = signed_number(timestamp);
        session_id.append(n.as_str());
        MemoryBrainConfig { base_dir: join_path(base, ".ai-brain"), session_id, max_keywords: 5 }
    }
}

/// What the memory has, as it was read: of a topic or a session that could not
/// be read there is nothing. The summaries, pitfalls and rules are all there
/// are, also those that something has taken the place of; of the impressions
/// there are those that their store lets be recalled.
#[derive(Debug, PartialEq)]
pub struct CandidateSources {
    pub impressions: Vec<SubconsciousEntry>,
    pub topics: Vec<(String, Option<ArchiveTopicIndex>)>,
    pub summaries: Vec<SessionSummary>,
    pub fact_summary: Option<String>,
    pub pitfalls: Vec<PitfallRecord>,
    pub rules: Vec<EvolutionRule>,
    pub sessions: Vec<(String, Option<Vec<RawEntry>>)>,
}

/// What the memory has.
#[verifier::ext_equal]
pub struct CandidateSourcesView {
    pub impressions: Seq<SubconsciousEntryView>,
    pub topics: Seq<(Seq<char>, Option<ArchiveTopicIndexView>)>,
    pub summaries: Seq<SessionSummaryView>,
    pub fact_summary: Option<Seq<char>>,
    pub pitfalls: Seq<PitfallRecordView>,
    pub rules: Seq<EvolutionRuleView>,
    pub sessions: Seq<(Seq<char>, Option<Seq<RawEntryView>>)>,
}

impl DeepView for CandidateSources {
    type V = CandidateSourcesView;

    open spec fn deep_view(&self) -> CandidateSourcesView {
        CandidateSourcesView {
            impressions: self.impressions.deep_view(),
            topics: self.topics.deep_view(),
            summaries: self.summaries.deep_view(),
            fact_summary: self.fact_summary.deep_view(),
            pitfalls: self.pitfalls.deep_view(),
            rules: self.rules.deep_view(),
            sessions: self.sessions.deep_view(),
        }
    }
}

/// An entry of the memory that has not been referred to.
pub open spec fn entry_of(
    id: Seq<char>,
    content: Seq<char>,
    tags: Seq<Seq<char>>,
    layer: MemoryLayer,
    importance: u64,
    confidence: u64,
    created_at: i64,
    now: i64,
    consolidated: bool,
) -> MemoryEntryView {
    MemoryEntryView {
        id,
        content,
        tags,
        layer,
        importance,
        source: KnowledgeSourceView { memory_id: id, layer },
        confidence,
        reference_count: 0,
        created_at,
        last_accessed: now,
        consolidated,
    }
}

/// The entry of an impression.
pub open spec fn impression_entry(e: SubconsciousEntryView, now: i64) -> MemoryEntryView {
    entry_of(
        e.id,
        "[印象] "@ + e.topic + " — "@ + e.impression,
        e.trigger_keywords,
        MemoryLayer::TaskSummary,
        e.importance,
        NINE_TENTHS,
        e.created_at,
        now,
        true,
    )
}

/// The entry of a topic, where its index could be read.
pub open spec fn topic_entry(
    t: (Seq<char>, Option<ArchiveTopicIndexView>),
    now: i64,
) -> Option<MemoryEntryView> {
    match t.1 {
        Some(i) => Some(
            entry_of(
                "archive-"@ + t.0,
                "[归档] "@ + i.topic + " — "@ + i.merged_summary,
                i.trigger_keywords,
                MemoryLayer::TaskSummary,
                i.importance,
                FOUR_FIFTHS,
                i.created_at,
                now,
                true,
            ),
        ),
        None => None,
    }
}

/// The entry of a summary.
pub open spec fn summary_entry(s: SessionSummaryView, now: i64) -> MemoryEntryView {
    entry_of(
        "summary-"@ + s.session_id,
        "[会话] "@ + s.fact_summary + " — "@ + joined(s.decisions, "; "@),
        s.tags,
        MemoryLayer::EventIndex,
        SEVEN_TENTHS,
        THREE_QUARTERS,
        s.created_at,
        now,
        s.archived,
    )
}

/// The entry of what is known of the user's affairs.
pub open spec fn fact_entry(fact: Seq<char>, now: i64) -> MemoryEntryView {
    MemoryEntryView {
        source: KnowledgeSourceView { memory_id: "fact_summary"@, layer: MemoryLayer::TaskSummary },
        ..entry_of(
            "fact-summary"@,
            fact,
            Seq::empty(),
            MemoryLayer::TaskSummary,
            NINE_TENTHS,
            FOUR_FIFTHS,
            now,
            now,
            true,
        )
    }
}

/// The entry of a pitfall.
pub open spec fn pitfall_entry(p: PitfallRecordView, now: i64) -> MemoryEntryView {
    entry_of(
        p.id,
        "[踩坑] "@ + p.description,
        Seq::empty(),
        MemoryLayer::ShortTerm,
        SEVENTEEN_TWENTIETHS,
        FOUR_FIFTHS,
        p.occurred_at,
        now,
        true,
    )
}

/// The entry of a rule.
pub open spec fn rule_entry(r: EvolutionRuleView, now: i64) -> MemoryEntryView {
    entry_of(
        r.id,
        "[规则] "@ + r.rule,
        Seq::empty(),
        MemoryLayer::TaskSummary,
        NINETEEN_TWENTIETHS,
        NINE_TENTHS,
        r.created_at,
        now,
        true,
    )
}

/// How a session began.
pub open spec fn head_entry(sid: Seq<char>, e: RawEntryView, now: i64) -> MemoryEntryView {
    entry_of(
        "raw-"@ + sid + "-head"@,
        "[对话开头] "@ + head_of(e.content, 150),
        Seq::empty(),
        MemoryLayer::Raw,
        TWO_FIFTHS,
        ONE,
        e.timestamp,
        now,
        false,
    )
}

/// How a session ended: the last three things said, the last first.
pub open spec fn tail_entry(sid: Seq<char>, entries: Seq<RawEntryView>, now: i64) -> MemoryEntryView {
    entry_of(
        "raw-"@ + sid + "-tail"@,
        "[对话结尾] "@ + joined(
            at_most(entries.reverse(), 3).map_values(|e: RawEntryView| head_of(e.content, 100)),
            " | "@,
        ),
        Seq::empty(),
        MemoryLayer::Raw,
        HALF,
        ONE,
        entries.last().timestamp,
        now,
        false,
    )
}

/// The entries of a session, where it could be read and is not empty.
pub open spec fn session_entries(
    s: (Seq<char>, Option<Seq<RawEntryView>>),
    now: i64,
) -> Seq<MemoryEntryView> {
    match s.1 {
        Some(entries) => if entries.len() == 0 {
            Seq::empty()
        } else {
            seq![head_entry(s.0, entries[0], now), tail_entry(s.0, entries, now)]
        },
        None => Seq::empty(),
    }
}

/// The entries of several sessions.
pub open spec fn all_session_entries(
    s: Seq<(Seq<char>, Option<Seq<RawEntryView>>)>,
    now: i64,
) -> Seq<MemoryEntryView>
    decreases s.len(),
{
    if s.len() == 0 {
        Seq::empty()
    } else {
        all_session_entries(s.drop_last(), now) + session_entries(s.last(), now)
    }
}

/// The sessions but the one at hand.
pub open spec fn other_than(current: Seq<char>) -> spec_fn(
    (Seq<char>, Option<Seq<RawEntryView>>),
) -> bool {
    |s: (Seq<char>, Option<Seq<RawEntryView>>)| s.0 != current
}

/// The last three sessions but the one at hand, the last first.
pub open spec fn recent_sessions(
    sessions: Seq<(Seq<char>, Option<Seq<RawEntryView>>)>,
    current: Seq<char>,
) -> Seq<(Seq<char>, Option<Seq<RawEntryView>>)> {
    at_most(sessions.filter(other_than(current)).reverse(), 3)
}

/// The rules that may be recalled: those that are active and have a priority of
/// 3 or above, by falling priority.
pub open spec fn recallable_rules(rules: Seq<EvolutionRuleView>) -> Seq<EvolutionRuleView> {
    active_rules(rules).filter(|r: EvolutionRuleView| r.priority >= 3)
}

/// All that may be recalled: impressions first, then topics, summaries that
/// nothing has replaced, what is known, active pitfalls, active rules of
/// priority 3 and above, and the sessions before.
pub open spec fn candidates_of(
    s: CandidateSourcesView,
    current: Seq<char>,
    now: i64,
) -> Seq<MemoryEntryView> {
    at_most(s.impressions, 10).map_values(|e: SubconsciousEntryView| impression_entry(e, now))
        + at_most(s.topics, 5).filter_map(
        |t: (Seq<char>, Option<ArchiveTopicIndexView>)| topic_entry(t, now),
    ) + at_most(recallable_summaries(s.summaries), 10).map_values(
        |e: SessionSummaryView| summary_entry(e, now),
    ) + (match s.fact_summary {
        Some(f) => seq![fact_entry(f, now)],
        None => Seq::empty(),
    }) + at_most(active_pitfalls(s.pitfalls), 5).map_values(
        |p: PitfallRecordView| pitfall_entry(p, now),
    ) + at_most(recallable_rules(s.rules), 5).map_values(|r: EvolutionRuleView| rule_entry(r, now)) + all_session_entries(
        recent_sessions(s.sessions, current),
        now,
    )
}

fn new_entry(
    id: String,
    content: String,
    tags: Vec<String>,
    layer: MemoryLayer,
    importance: u64,
    confidence: u64,
    created_at: i64,
    now: i64,
    consolidated: bool,
) -> (r: MemoryEntry)
    ensures
        r.deep_view() == entry_of(
            id@,
            content@,
            tags.deep_view(),
            layer,
            importance,
            confidence,
            created_at,
            now,
            consolidated,
        ),
{
    let memory_id = id.clone();
    MemoryEntry {
        id,
        content,
        tags,
        layer,
        importance,
        source: KnowledgeSource { memory_id, layer },
        confidence,
        reference_count: 0,
        created_at,
        last_accessed: now,
        consolidated,
    }
}

/// Four texts one after the other.
fn glue(a: &str, b: &str, c: &str, d: &str) -> (r: String)
    ensures
        r@ == a@ + b@ + c@ + d@,
{
    let mut r = a.to_owned();
    r.append(b);
    r.append(c);
    r.append(d);
    r
}

fn make_impression_entry(e: &SubconsciousEntry, now: i64) -> (r: MemoryEntry)
    ensures
        r.deep_view() == impression_entry(e.deep_view(), now),
{
    new_entry(
        e.id.clone(),
        glue("[印象] ", e.topic.as_str(), " — ", e.impression.as_str()),
        e.trigger_keywords.replicate(),
        MemoryLayer::TaskSummary,
        e.importance,
        NINE_TENTHS,
        e.created_at,
        now,
        true,
    )
}

fn make_topic_entry(t: &(String, Option<ArchiveTopicIndex>), now: i64) -> (r: Option<MemoryEntry>)
    ensures
        r.deep_view() == topic_entry(t.deep_view(), now),
{
    match &t.1 {
        Some(i) => {
            let mut id = "archive-".to_owned();
            id.append(t.0.as_str());
            Some(
                new_entry(
                    id,
                    glue("[归档] ", i.topic.as_str(), " — ", i.merged_summary.as_str()),
                    i.trigger_keywords.replicate(),
                    MemoryLayer::TaskSummary,
                    i.importance,
                    FOUR_FIFTHS,
                    i.created_at,
                    now,
                    true,
                ),
            )
        },
        None => None,
    }
}

fn make_summary_entry(s: &SessionSummary, now: i64) -> (r: MemoryEntry)
    ensures
        r.deep_view() == summary_entry(s.deep_view(), now),
{
    let mut id = "summary-".to_owned();
    id.append(s.session_id.as_str());
    let decisions = join(s.decisions.as_slice(), "; ");
    new_entry(
        id,
        glue("[会话] ", s.fact_summary.as_str(), " — ", decisions.as_str()),
        s.tags.replicate(),
        MemoryLayer::EventIndex,
        SEVEN_TENTHS,
        THREE_QUARTERS,
        s.created_at,
        now,
        s.archived,
    )
}

fn make_fact_entry(fact: &str, now: i64) -> (r: MemoryEntry)
    ensures
        r.deep_view() == fact_entry(fact@, now),
{
    MemoryEntry {
        id: "fact-summary".to_owned(),
        content: fact.to_owned(),
        tags: no_items(),
        layer: MemoryLayer::TaskSummary,
        importance: NINE_TENTHS,
        source: KnowledgeSource {
            memory_id: "fact_summary".to_owned(),
            layer: MemoryLayer::TaskSummary,
        },
        confidence: FOUR_FIFTHS,
        reference_count: 0,
        created_at: now,
        last_accessed: now,
        consolidated: true,
    }
}

fn make_pitfall_entry(p: &PitfallRecord, now: i64) -> (r: MemoryEntry)
    ensures
        r.deep_view() == pitfall_entry(p.deep_view(), now),
{
    let mut content = "[踩坑] ".to_owned();
    content.append(p.description.as_str());
    new_entry(
        p.id.clone(),
        content,
        no_items(),
        MemoryLayer::ShortTerm,
        SEVENTEEN_TWENTIETHS,
        FOUR_FIFTHS,
        p.occurred_at,
        now,
        true,
    )
}

fn make_rule_entry(p: &EvolutionRule, now: i64) -> (r: MemoryEntry)
    ensures
        r.deep_view() == rule_entry(p.deep_view(), now),
{
    let mut content = "[规则] ".to_owned();
    content.append(p.rule.as_str());
    new_entry(
        p.id.clone(),
        content,
        no_items(),
        MemoryLayer::TaskSummary,
        NINETEEN_TWENTIETHS,
        NINE_TENTHS,
        p.created_at,
        now,
        true,
    )
}

fn make_session_entries(s: &(String, Option<Vec<RawEntry>>), now: i64) -> (r: Vec<MemoryEntry>)
    ensures
        r.deep_view() == session_entries(s.deep_view(), now),
{
    let mut r: Vec<MemoryEntry> = no_items();
    if let Some(entries) = &s.1 {
        if entries.len() == 0 {
            return r;
        }
        let ghost all = entries.deep_view();
        let first = &entries[0];
        assert(all[0] == first.deep_view());
        let mut id = "raw-".to_owned();
        id.append(s.0.as_str());
        id.append("-head");
        let mut content = "[对话开头] ".to_owned();
        let preview = head(first.content.as_str(), 150);
        content.append(preview.as_str());
        let opening = new_entry(
            id,
            content,
            no_items(),
            MemoryLayer::Raw,
            TWO_FIFTHS,
            ONE,
            first.timestamp,
            now,
            false,
        );
        let back = reversed(entries.as_slice());
        let last = first_items(back.as_slice(), 3);
        let cut = |e: &RawEntry| -> (r: String)
            ensures r@ == head_of(e.deep_view().content, 100)
        {
            head(e.content.as_str(), 100)
        };
        let parts = map_each(
            last.as_slice(),
            cut,
            Ghost(|e: RawEntryView| head_of(e.content, 100)),
        );
        let tail = join(parts.as_slice(), " | ");
        let mut id = "raw-".to_owned();
        id.append(s.0.as_str());
        id.append("-tail");
        let mut content = "[对话结尾] ".to_owned();
        content.append(tail.as_str());
        assert(all.last() == entries@[entries@.len() - 1].deep_view());
        let closing = new_entry(
            id,
            content,
            no_items(),
            MemoryLayer::Raw,
            HALF,
            ONE,
            entries[entries.len() - 1].timestamp,
            now,
            false,
        );
        push_one(&mut r, opening);
        push_one(&mut r, closing);
        assert(r.deep_view() =~= session_entries(s.deep_view(), now));
    }
    r
}

fn find_recent_sessions(
    sessions: &Vec<(String, Option<Vec<RawEntry>>)>,
    current: &str,
) -> (r: Vec<(String, Option<Vec<RawEntry>>)>)
    ensures
        r.deep_view() == recent_sessions(sessions.deep_view(), current@),
{
    let other = |s: &(String, Option<Vec<RawEntry>>)| -> (r: bool)
        ensures r == (s.deep_view().0 != current@)
    {
        !same(s.0.as_str(), current)
    };
    let others = filter_each(sessions.as_slice(), other, Ghost(other_than(current@)));
    let back = reversed(others.as_slice());
    first_items(back.as_slice(), 3)
}

/// All that may be recalled.
pub fn gather_all_candidates(
    sources: &CandidateSources,
    session_id: &str,
    now: i64,
) -> (r: Vec<MemoryEntry>)
    ensures
        r.deep_view() == candidates_of(sources.deep_view(), session_id@, now),
{
    let items = first_items(sources.impressions.as_slice(), 10);
    let f = |e: &SubconsciousEntry| -> (r: MemoryEntry)
        ensures r.deep_view() == impression_entry(e.deep_view(), now)
    {
        make_impression_entry(e, now)
    };
    let mut r = map_each(
        items.as_slice(),
        f,
        Ghost(|e: SubconsciousEntryView| impression_entry(e, now)),
    );
    let items = first_items(sources.topics.as_slice(), 5);
    let f = |t: &(String, Option<ArchiveTopicIndex>)| -> (r: Option<MemoryEntry>)
        ensures r.deep_view() == topic_entry(t.deep_view(), now)
    {
        make_topic_entry(t, now)
    };
    let more = filter_map_each(
        items.as_slice(),
        f,
        Ghost(|t: (Seq<char>, Option<ArchiveTopicIndexView>)| topic_entry(t, now)),
    );
    append_all(&mut r, more);
    let items = find_recallable(&sources.summaries);
    let items = first_items(items.as_slice(), 10);
    let f = |e: &SessionSummary| -> (r: MemoryEntry)
        ensures r.deep_view() == summary_entry(e.deep_view(), now)
    {
        make_summary_entry(e, now)
    };
    let more = map_each(
        items.as_slice(),
        f,
        Ghost(|e: SessionSummaryView| summary_entry(e, now)),
    );
    append_all(&mut r, more);
    let mut more: Vec<MemoryEntry> = no_items();
    if let Some(fact) = &sources.fact_summary {
        push_one(&mut more, make_fact_entry(fact.as_str(), now));
        assert(more.deep_view() =~= seq![fact_entry(fact@, now)]);
    }
    append_all(&mut r, more);
    let items = find_active_pitfalls(&sources.pitfalls);
    let items = first_items(items.as_slice(), 5);
    let f = |e: &PitfallRecord| -> (r: MemoryEntry)
        ensures r.deep_view() == pitfall_entry(e.deep_view(), now)
    {
        make_pitfall_entry(e, now)
    };
    let more = map_each(
        items.as_slice(),
        f,
        Ghost(|p: PitfallRecordView| pitfall_entry(p, now)),
    );
    append_all(&mut r, more);
    let high = |e: &EvolutionRule| -> (r: bool)
        ensures r == (e.deep_view().priority >= 3)
    {
        e.priority >= 3
    };
    let items = find_active_rules(&sources.rules);
    let items = filter_each(
        items.as_slice(),
        high,
        Ghost(|r: EvolutionRuleView| r.priority >= 3),
    );
    let items = first_items(items.as_slice(), 5);
    let f = |e: &EvolutionRule| -> (r: MemoryEntry)
        ensures r.deep_view() == rule_entry(e.deep_view(), now)
    {
        make_rule_entry(e, now)
    };
    let more = map_each(items.as_slice(), f, Ghost(|r: EvolutionRuleView| rule_entry(r, now)));
    append_all(&mut r, more);
    let recent = find_recent_sessions(&sources.sessions, session_id);
    let ghost all = recent.deep_view();
    let mut more: Vec<MemoryEntry> = no_items();
    let mut i: usize = 0;
    assert(all.take(0) =~= Seq::<(Seq<char>, Option<Seq<RawEntryView>>)>::empty());
    while i < recent.len()
        invariant
            i <= recent@.len(),
            all == recent.deep_view(),
            more.deep_view() == all_session_entries(all.take(i as int), now),
        decreases recent@.len() - i,
    {
        proof {
            lemma_take_step(all, i as int);
            assert(all[i as int] == recent@[i as int].deep_view());
        }
        append_all(&mut more, make_session_entries(&recent[i], now));
        i = i + 1;
    }
    proof {
        lemma_take_all(all);
    }
    append_all(&mut r, more);
    r
}

// ---------------------------------------------------------------------------
// Recall
// ---------------------------------------------------------------------------

/// One of the keywords is in the text, whatever the case of the letters.
pub open spec fn has_keyword(content: Seq<char>, keywords: Seq<Seq<char>>) -> bool {
    some_is(
        keywords,
        |kw: Seq<char>| has_text(lowercase_of(content), lowercase_of(kw)),
    )
}

/// `found` and those of `candidates` that are not there yet, up to `max`.
pub open spec fn filled_up(
    found: Seq<MemoryEntryView>,
    candidates: Seq<MemoryEntryView>,
    max: nat,
) -> Seq<MemoryEntryView>
    decreases candidates.len(),
{
    if candidates.len() == 0 {
        found
    } else {
        let before = filled_up(found, candidates.drop_last(), max);
        let next = candidates.last();
        if before.len() < max && !some_is(before, |r: MemoryEntryView| r.id == next.id) {
            before.push(next)
        } else {
            before
        }
    }
}

/// The candidates with a keyword of the query first, then the others, up to
/// `max`.
pub open spec fn recalled(
    candidates: Seq<MemoryEntryView>,
    query: Seq<char>,
    max: nat,
) -> Seq<MemoryEntryView> {
    filled_up(
        at_most(
            candidates.filter(
                |e: MemoryEntryView| has_keyword(e.content, keywords_of(query, 8)),
            ),
            max,
        ),
        candidates,
        max,
    )
}

fn find_keyword(content: &str, keywords: &Vec<String>) -> (r: bool)
    ensures
        r == has_keyword(content@, keywords.deep_view()),
{
    let low = content.to_lowercase();
    let f = |kw: &String| -> (r: bool)
        ensures r == has_text(lowercase_of(content@), lowercase_of(kw@))
    {
        let k = kw.as_str().to_lowercase();
        contains(low.as_str(), k.as_str())
    };
    any_is(
        keywords.as_slice(),
        f,
        Ghost(|kw: Seq<char>| has_text(lowercase_of(content@), lowercase_of(kw))),
    )
}

/// What is recalled of the candidates for a query.
pub fn pick_for_context(candidates: &Vec<MemoryEntry>, query: &str, max: usize) -> (r: Vec<
    MemoryEntry,
>)
    ensures
        r.deep_view() == recalled(candidates.deep_view(), query@, max as nat),
{
    let keywords = extract_keywords(query, 8);
    let f = |e: &MemoryEntry| -> (r: bool)
        ensures r == has_keyword(e.deep_view().content, keywords_of(query@, 8))
    {
        find_keyword(e.content.as_str(), &keywords)
    };
    let found = filter_each(
        candidates.as_slice(),
        f,
        Ghost(|e: MemoryEntryView| has_keyword(e.content, keywords_of(query@, 8))),
    );
    let mut r = first_items(found.as_slice(), max);
    let ghost start = r.deep_view();
    let ghost all = candidates.deep_view();
    let mut i: usize = 0;
    assert(all.take(0) =~= Seq::<MemoryEntryView>::empty());
    while i < candidates.len()
        invariant
            i <= candidates@.len(),
            all == candidates.deep_view(),
            r.deep_view() == filled_up(start, all.take(i as int), max as nat),
        decreases candidates@.len() - i,
    {
        let next = &candidates[i];
        proof {
            lemma_take_step(all, i as int);
            assert(all[i as int] == next.deep_view());
            assert(r.deep_view().len() == r@.len());
        }
        if r.len() < max {
            let f = |x: &MemoryEntry| -> (r: bool)
                ensures r == (x.deep_view().id == next.deep_view().id)
            {
                same(x.id.as_str(), next.id.as_str())
            };
            if !any_is(
                r.as_slice(),
                f,
                Ghost(|x: MemoryEntryView| x.id == next.deep_view().id),
            ) {
                push_one(&mut r, next.replicate());
            }
        }
        i = i + 1;
    }
    proof {
        lemma_take_all(all);
    }
    r
}

/// The impressions among what was recalled: they are to be made stronger.
pub open spec fn impressions_in(entries: Seq<MemoryEntryView>) -> Seq<Seq<char>> {
    entries.filter(|e: MemoryEntryView| occurs_at(e.id, "sc-"@, 0)).map_values(
        |e: MemoryEntryView| e.id,
    )
}

/// The ids of the impressions among what was recalled.
pub fn recalled_impressions(entries: &Vec<MemoryEntry>) -> (r: Vec<String>)
    ensures
        r.deep_view() == impressions_in(entries.deep_view()),
{
    let f = |e: &MemoryEntry| -> (r: bool)
        ensures r == occurs_at(e.deep_view().id, "sc-"@, 0)
    {
        starts_with(e.id.as_str(), "sc-")
    };
    let some = filter_each(
        entries.as_slice(),
        f,
        Ghost(|e: MemoryEntryView| occurs_at(e.id, "sc-"@, 0)),
    );
    let id = |e: &MemoryEntry| -> (r: String)
        ensures r@ == e.deep_view().id
    {
        e.id.clone()
    };
    map_each(some.as_slice(), id, Ghost(|e: MemoryEntryView| e.id))
}

/// A summary that a search found.
pub open spec fn summary_hit(s: SessionSummaryView, now: i64) -> MemoryEntryView {
    entry_of(
        "summary-"@ + s.session_id,
        "[会话摘要] "@ + s.fact_summary + " | 决策: "@ + joined(s.decisions, "; "@) + " | 踩坑: "@
            + joined(s.pitfalls, "; "@),
        s.tags,
        MemoryLayer::EventIndex,
        SEVEN_TENTHS,
        THREE_QUARTERS,
        s.created_at,
        now,
        s.archived,
    )
}

fn make_summary_hit(s: &SessionSummary, now: i64) -> (r: MemoryEntry)
    ensures
        r.deep_view() == summary_hit(s.deep_view(), now),
{
    let mut id = "summary-".to_owned();
    id.append(s.session_id.as_str());
    let mut content = "[会话摘要] ".to_owned();
    content.append(s.fact_summary.as_str());
    content.append(" | 决策: ");
    let part = join(s.decisions.as_slice(), "; ");
    content.append(part.as_str());
    content.append(" | 踩坑: ");
    let part = join(s.pitfalls.as_slice(), "; ");
    content.append(part.as_str());
    new_entry(
        id,
        content,
        s.tags.replicate(),
        MemoryLayer::EventIndex,
        SEVEN_TENTHS,
        THREE_QUARTERS,
        s.created_at,
        now,
        s.archived,
    )
}

/// The characters between which the query of a search is cut.
pub open spec fn search_separators() -> Seq<char> {
    seq![' ', ',', '，', '、', '；']
}

/// The words of a query that is searched for.
pub open spec fn search_words(query: Seq<char>) -> Seq<Seq<char>> {
    split_at_chars(query, |c: char| search_separators().contains(c)).map_values(
        |s: Seq<char>| trimmed(s),
    ).filter(|s: Seq<char>| s.len() > 0)
}

/// The keywords of a search.
pub fn search_keywords(query: &str) -> (r: Vec<String>)
    ensures
        r.deep_view() == search_words(query@),
{
    let set: [char; 5] = [' ', ',', '，', '、', '；'];
    assert(set@ =~= search_separators());
    parts_of(query, &set)
}

/// What a search gives: the impressions, what was said and the summaries that it
/// found, no more than `max`.
pub open spec fn results_of(
    impressions: Seq<SubconsciousEntryView>,
    raw: Seq<MemoryEntryView>,
    summaries: Seq<SessionSummaryView>,
    max: nat,
    now: i64,
) -> Seq<MemoryEntryView> {
    at_most(
        impressions.map_values(|e: SubconsciousEntryView| impression_entry(e, now)) + raw
            + summaries.map_values(|s: SessionSummaryView| summary_hit(s, now)),
        max,
    )
}

/// What a search gives: the impressions, what was said and the summaries that
/// it found, up to `max`.
pub fn search_results(
    impressions: &Vec<SubconsciousEntry>,
    raw: &Vec<MemoryEntry>,
    summaries: &Vec<SessionSummary>,
    max_results: usize,
    now: i64,
) -> (r: Vec<MemoryEntry>)
    ensures
        r.deep_view() == results_of(
            impressions.deep_view(),
            raw.deep_view(),
            summaries.deep_view(),
            max_results as nat,
            now,
        ),
{
    let f = |e: &SubconsciousEntry| -> (r: MemoryEntry)
        ensures r.deep_view() == impression_entry(e.deep_view(), now)
    {
        make_impression_entry(e, now)
    };
    let mut all = map_each(
        impressions.as_slice(),
        f,
        Ghost(|e: SubconsciousEntryView| impression_entry(e, now)),
    );
    append_all(&mut all, raw.replicate());
    let f = |s: &SessionSummary| -> (r: MemoryEntry)
        ensures r.deep_view() == summary_hit(s.deep_view(), now)
    {
        make_summary_hit(s, now)
    };
    let more = map_each(
        summaries.as_slice(),
        f,
        Ghost(|s: SessionSummaryView| summary_hit(s, now)),
    );
    append_all(&mut all, more);
    first_items(all.as_slice(), max_results)
}

/// One line of the list of candidates that a model is shown.
pub open spec fn candidate_line(n: int, e: MemoryEntryView) -> Seq<char> {
    decimal(n as nat) + ". ["@ + e.id + "] "@ + head_of(e.content, 200)
}

/// The list of candidates that a model is shown.
pub open spec fn candidate_lines(entries: Seq<MemoryEntryView>) -> Seq<Seq<char>> {
    Seq::new(entries.len(), |i: int| candidate_line(i + 1, entries[i]))
}

/// What a model is asked when it is to pick the candidates that matter.
pub open spec fn recall_prompt_of(
    query: Seq<char>,
    entries: Seq<MemoryEntryView>,
    max: nat,
) -> Seq<char> {
    "# 任务\n从以下记忆条目中，选出与用户查询最相关的 "@ + decimal(max) + " 条。\n返回相关条目的编号列表（JSON 数组），按相关度降序排列。\n如果没有相关的，返回空数组。\n\n# 用户查询\n"@ + query + "\n\n# 记忆条目\n"@ + joined(candidate_lines(entries), "\n"@) + "\n\n# 输出格式\n只输出 JSON 数组，例如: [3, 1, 7]\n不要输出其他任何内容。"@
}

/// What a model is asked when it is to pick the candidates that matter.
pub fn recall_prompt(query: &str, candidates: &Vec<MemoryEntry>, max: usize) -> (r: String)
    ensures
        r@ == recall_prompt_of(query@, candidates.deep_view(), max as nat),
{
    let ghost all = candidates.deep_view();
    let total: usize = candidates.len();
    let mut lines: Vec<String> = Vec::new();
    let mut i: usize = 0;
    while i < total
        invariant
            i <= total == candidates@.len(),
            all == candidates.deep_view(),
            lines@.len() == i,
            forall|k: int| 0 <= k < i ==> (#[trigger] lines@[k])@ == candidate_line(k + 1, all[k]),
        decreases total - i,
    {
        let e = &candidates[i];
        assert(all[i as int] == e.deep_view());
        let mut line = number((i + 1) as u64);
        line.append(". [");
        line.append(e.id.as_str());
        line.append("] ");
        let content = head(e.content.as_str(), 200);
        line.append(content.as_str());
        lines.push(line);
        i = i + 1;
    }
    assert(lines.deep_view() =~= candidate_lines(all));
    let text = join(lines.as_slice(), "\n");
    let mut r = "# 任务\n从以下记忆条目中，选出与用户查询最相关的 ".to_owned();
    let n = number(max as u64);
    r.append(n.as_str());
    r.append(" 条。\n返回相关条目的编号列表（JSON 数组），按相关度降序排列。\n如果没有相关的，返回空数组。\n\n# 用户查询\n");
    r.append(query);
    r.append("\n\n# 记忆条目\n");
    r.append(text.as_str());
    r.append("\n\n# 输出格式\n只输出 JSON 数组，例如: [3, 1, 7]\n不要输出其他任何内容。");
    r
}

/// The part of a reply that lists numbers: from the first `[` to the first `]`
/// after it, or the whole reply in brackets where there is no `[`.
pub open spec fn index_list(reply: Seq<char>) -> Seq<char> {
    let t = trimmed(reply);
    match find_from(t, "["@, 0) {
        Some(s) => match find_from(t, "]"@, s) {
            Some(e) => t.subrange(s, e + 1),
            None => t.skip(s),
        },
        None => "["@ + t + "]"@,
    }
}

/// The part of a reply that lists numbers.
pub fn find_index_list(reply: &str) -> (r: String)
    ensures
        r@ == index_list(reply@),
{
    let t = trim(reply);
    let cs = chars_of(t.as_str());
    let total: usize = cs.len();
    let open = chars_of("[");
    let close = chars_of("]");
    proof {
        reveal_strlit("[");
        reveal_strlit("]");
        lemma_find_from(cs@, "["@, 0);
    }
    match find_chars(&cs, &open, 0) {
        Some(s) => {
            proof {
                lemma_find_from(cs@, "]"@, s as int);
            }
            match find_chars(&cs, &close, s) {
                Some(e) => text_of(&cs, s, e + 1),
                None => {
                    let r = text_of(&cs, s, total);
                    assert(r@ =~= cs@.skip(s as int));
                    r
                },
            }
        },
        None => {
            let mut r = "[".to_owned();
            r.append(t.as_str());
            r.append("]");
            r
        },
    }
}

/// The position that a number of a list stands for, where there is one: the
/// first is 1, and 0 counts as the first too.
pub open spec fn listed_index(v: JsonView, len: nat) -> Option<usize> {
    match v.as_u64() {
        Some(n) => {
            let i = if n == 0 {
                0
            } else {
                n - 1
            };
            if i < len {
                Some(i as usize)
            } else {
                None
            }
        },
        None => None,
    }
}

/// The positions that a list stands for; of what is no list, none.
pub open spec fn listed_indices(list: Result<JsonView, Seq<char>>, len: nat) -> Seq<usize> {
    match list {
        Ok(JsonView::Array(items)) => items.filter_map(|v: JsonView| listed_index(v, len)),
        _ => Seq::empty(),
    }
}

/// The positions that a list, as it was read, stands for.
pub fn indices_of_list(list: &Result<Json, String>, max_len: usize) -> (r: Vec<usize>)
    ensures
        r@ == listed_indices(
            match list {
                Ok(j) => Ok(j.deep_view()),
                Err(e) => Err(e@),
            },
            max_len as nat,
        ),
{
    let mut r: Vec<usize> = Vec::new();
    if let Ok(j) = list {
        if let Some(items) = j.as_array() {
            let f = |v: &Json| -> (r: Option<usize>)
                ensures r == listed_index(v.deep_view(), max_len as nat)
            {
                match v.as_u64() {
                    Some(n) => {
                        let i: u64 = if n == 0 {
                            0
                        } else {
                            n - 1
                        };
                        if i < max_len as u64 {
                            Some(i as usize)
                        } else {
                            None
                        }
                    },
                    None => None,
                }
            };
            r = filter_map_each(
                items.as_slice(),
                f,
                Ghost(|v: JsonView| listed_index(v, max_len as nat)),
            );
            assert(r@ =~= r.deep_view());
        }
    }
    r
}

/// The positions that the reply of a model lists.
pub fn parse_index_response(response: &str, max_len: usize) -> (r: Vec<usize>)
    ensures
        r@ == listed_indices(json_of_text(index_list(response@)), max_len as nat),
{
    let list = find_index_list(response);
    let parsed = Json::parse(list.as_str());
    indices_of_list(&parsed, max_len)
}

/// The candidates that were chosen, in the order of the choice, no more than
/// `max`.
pub open spec fn chosen(
    candidates: Seq<MemoryEntryView>,
    indices: Seq<usize>,
    max: nat,
) -> Seq<MemoryEntryView> {
    at_most(indices, max).map_values(|i: usize| candidates[i as int])
}

/// The candidates at the first `max` of the positions.
pub fn pick_listed(candidates: &Vec<MemoryEntry>, indices: &Vec<usize>, max: usize) -> (r: Vec<
    MemoryEntry,
>)
    requires
        forall|i: int| 0 <= i < indices@.len() ==> #[trigger] indices@[i] < candidates@.len(),
    ensures
        r.deep_view() == chosen(candidates.deep_view(), indices@, max as nat),
{
    let mut r: Vec<MemoryEntry> = Vec::new();
    let mut i: usize = 0;
    while i < indices.len() && i < max
        invariant
            i <= indices@.len(),
            i <= max,
            forall|k: int| 0 <= k < indices@.len() ==> #[trigger] indices@[k] < candidates@.len(),
            r@.len() == i,
            forall|k: int|
                0 <= k < i ==> (#[trigger] r@[k]).deep_view()
                    == candidates@[indices@[k] as int].deep_view(),
        decreases indices@.len() - i,
    {
        r.push(candidates[indices[i]].replicate());
        i = i + 1;
    }
    assert(r.deep_view() =~= at_most(indices@, max as nat).map_values(
        |i: usize| candidates.deep_view()[i as int],
    ));
    r
}

proof fn lemma_listed_indices(list: Result<JsonView, Seq<char>>, len: nat)
    requires
        len <= usize::MAX,
    ensures
        forall|i: int|
            0 <= i < listed_indices(list, len).len() ==> #[trigger] listed_indices(list, len)[i]
                < len,
{
    if let Ok(JsonView::Array(items)) = list {
        let f = |v: JsonView| listed_index(v, len);
        lemma_picked_below(items, f, len);
    }
}

proof fn lemma_picked_below(items: Seq<JsonView>, f: spec_fn(JsonView) -> Option<usize>, len: nat)
    requires
        forall|v: JsonView| (#[trigger] f(v)) is Some ==> f(v)->0 < len,
    ensures
        forall|i: int|
            0 <= i < items.filter_map(f).len() ==> #[trigger] items.filter_map(f)[i] < len,
    decreases items.len(),
{
    lemma_filter_map_none(items, f);
    lemma_take_all(items);
    if items.len() > 0 {
        let rest = items.drop_last();
        lemma_picked_below(rest, f, len);
        lemma_filter_map_step(items, items.len() - 1, f);
        assert(items.take(items.len() - 1) =~= rest);
        assert forall|i: int| 0 <= i < items.filter_map(f).len() implies #[trigger] items.filter_map(
            f,
        )[i] < len by {
            if i < rest.filter_map(f).len() {
                assert(items.filter_map(f)[i] == rest.filter_map(f)[i]);
            }
        }
    }
}

/// What is recalled by the reply of a model.
pub fn accept_recall(response: &str, candidates: &Vec<MemoryEntry>, max: usize) -> (r: Vec<
    MemoryEntry,
>)
    ensures
        r.deep_view() == chosen(
            candidates.deep_view(),
            listed_indices(json_of_text(index_list(response@)), candidates.deep_view().len()),
            max as nat,
        ),
{
    let total: usize = candidates.len();
    let indices = parse_index_response(response, total);
    proof {
        lemma_listed_indices(json_of_text(index_list(response@)), total as nat);
    }
    pick_listed(candidates, &indices, max)
}

// ---------------------------------------------------------------------------
// What is read and what is kept
// ---------------------------------------------------------------------------

/// The summary that the file of what is known holds, as it was read.
pub open spec fn stored_summary(file: Result<JsonView, Seq<char>>) -> Option<Seq<char>> {
    match file {
        Ok(j) => j.str_at("summary"@),
        Err(_) => None,
    }
}

/// The summary that a file, as it was read, holds.
pub fn summary_in(file: &Result<Json, String>) -> (r: Option<String>)
    ensures
        r.deep_view() == stored_summary(
            match file {
                Ok(j) => Ok(j.deep_view()),
                Err(e) => Err(e@),
            },
        ),
{
    match file {
        Ok(j) => j.str_at("summary"),
        Err(_) => None,
    }
}

/// The summary that the text of the file of what is known holds.
pub fn load_fact_summary(data: &str) -> (r: Option<String>)
    ensures
        r.deep_view() == stored_summary(json_of_text(data@)),
{
    let parsed = Json::parse(data);
    summary_in(&parsed)
}

/// The value of something said, with the text of its time.
pub open spec fn said_json(content: Seq<char>, time: Option<Seq<char>>) -> JsonView {
    JsonView::Object(
        seq![
            ("role"@, JsonView::Str("user"@)),
            ("content"@, JsonView::Str(content)),
            (
                "timestamp"@,
                match time {
                    Some(t) => JsonView::Str(t),
                    None => JsonView::Null,
                },
            ),
        ],
    )
}

/// The value of something said, with the text of its time; without one where
/// the time cannot be written.
pub fn said(content: &str, time: &Option<String>) -> (r: Json)
    ensures
        r.deep_view() == said_json(content@, time.deep_view()),
{
    let mut f = JsonFields::new();
    f.put_text("role", "user");
    f.put_text("content", content);
    match time {
        Some(t) => f.put_text("timestamp", t.as_str()),
        None => f.put("timestamp", Json::Null),
    }
    assert(f@ =~= said_json(content@, time.deep_view())->Object_0);
    f.done()
}

/// The last things said, the earliest first, each as JSON text.
pub open spec fn recent_texts(entries: Seq<RawEntryView>, max: nat) -> Seq<Seq<char>> {
    at_most(entries.reverse(), max).reverse().map_values(
        |e: RawEntryView| text_of_json(said_json(e.content, rfc3339_of(e.timestamp))),
    )
}

/// The last things said in a session, the earliest first, each as JSON text.
pub fn read_recent_conversations(entries: &Vec<RawEntry>, max_entries: usize) -> (r: Vec<String>)
    ensures
        r.deep_view() == recent_texts(entries.deep_view(), max_entries as nat),
{
    let back = reversed(entries.as_slice());
    let last = first_items(back.as_slice(), max_entries);
    let order = reversed(last.as_slice());
    let f = |e: &RawEntry| -> (r: String)
        ensures
            r@ == text_of_json(
                said_json(e.deep_view().content, rfc3339_of(e.deep_view().timestamp)),
            )
    {
        let time = write_time(e.timestamp);
        said(e.content.as_str(), &time).to_text()
    };
    map_each(
        order.as_slice(),
        f,
        Ghost(
            |e: RawEntryView| text_of_json(said_json(e.content, rfc3339_of(e.timestamp))),
        ),
    )
}

/// The line of an impression.
pub open spec fn impression_line(e: SubconsciousEntryView) -> Seq<char> {
    "• "@ + e.topic + " (触发词: "@ + joined(e.trigger_keywords, "、"@) + ") — "@ + e.impression
}

/// All impressions, one on a line; nothing where there are none.
pub fn load_subconscious_summary(entries: &Vec<SubconsciousEntry>) -> (r: Option<String>)
    ensures
        r.deep_view() == if entries.deep_view().len() == 0 {
            None
        } else {
            Some(
                joined(
                    entries.deep_view().map_values(
                        |e: SubconsciousEntryView| impression_line(e),
                    ),
                    "\n"@,
                ),
            )
        },
{
    if entries.len() == 0 {
        return None;
    }
    let f = |e: &SubconsciousEntry| -> (r: String)
        ensures r@ == impression_line(e.deep_view())
    {
        let mut line = "• ".to_owned();
        line.append(e.topic.as_str());
        line.append(" (触发词: ");
        let words = join(e.trigger_keywords.as_slice(), "、");
        line.append(words.as_str());
        line.append(") — ");
        line.append(e.impression.as_str());
        line
    };
    let lines = map_each(
        entries.as_slice(),
        f,
        Ghost(|e: SubconsciousEntryView| impression_line(e)),
    );
    Some(join(lines.as_slice(), "\n"))
}

/// The label of a layer.
pub open spec fn label_of(layer: MemoryLayer) -> Seq<char> {
    match layer {
        MemoryLayer::TaskSummary => "L0"@,
        MemoryLayer::EventIndex => "L1"@,
        MemoryLayer::ShortTerm => "L2"@,
        MemoryLayer::Raw => "L3"@,
    }
}

/// The label of a layer.
pub fn layer_label(layer: MemoryLayer) -> (r: &'static str)
    ensures
        r@ == label_of(layer),
{
    match layer {
        MemoryLayer::TaskSummary => "L0",
        MemoryLayer::EventIndex => "L1",
        MemoryLayer::ShortTerm => "L2",
        MemoryLayer::Raw => "L3",
    }
}

/// How much the memory has.
#[derive(Debug, PartialEq)]
pub struct MemoryStats {
    pub l0_count: u32,
    pub l1_count: u32,
    pub l2_count: u32,
    pub l3_count: u32,
    pub total_size_bytes: u64,
}

/// What such a count is.
#[verifier::ext_equal]
pub struct MemoryStatsView {
    pub l0_count: u32,
    pub l1_count: u32,
    pub l2_count: u32,
    pub l3_count: u32,
    pub total_size_bytes: u64,
}

impl DeepView for MemoryStats {
    type V = MemoryStatsView;

    open spec fn deep_view(&self) -> MemoryStatsView {
        MemoryStatsView {
            l0_count: self.l0_count,
            l1_count: self.l1_count,
            l2_count: self.l2_count,
            l3_count: self.l3_count,
            total_size_bytes: self.total_size_bytes,
        }
    }
}

/// What is to be recalled.
#[derive(Debug, PartialEq)]
pub struct RecallQuery {
    pub keywords: Vec<String>,
    pub tags: Vec<String>,
    pub max_results: usize,
    /// The bits of the least importance.
    pub min_importance: u64,
    pub layers: Vec<MemoryLayer>,
}

/// What such a query is.
#[verifier::ext_equal]
pub struct RecallQueryView {
    pub keywords: Seq<Seq<char>>,
    pub tags: Seq<Seq<char>>,
    pub max_results: usize,
    pub min_importance: u64,
    pub layers: Seq<MemoryLayer>,
}

impl DeepView for RecallQuery {
    type V = RecallQueryView;

    open spec fn deep_view(&self) -> RecallQueryView {
        RecallQueryView {
            keywords: self.keywords.deep_view(),
            tags: self.tags.deep_view(),
            max_results: self.max_results,
            min_importance: self.min_importance,
            layers: self.layers.deep_view(),
        }
    }
}

/// The memory brain.
pub struct MemoryBrain {
    pub id: BrainId,
    pub config: MemoryBrainConfig,
    /// How many queries there were.
    pub query_count: u32,
    /// Whether there is a model that can be asked.
    pub llm: bool,
}

/// The time after which the conversation is analysed again has come.
pub open spec fn is_analysis_due(count: int) -> bool {
    count % ANALYSIS_INTERVAL as int == 0
}

/// The query of a request for what is remembered.
pub open spec fn request_query(content: Seq<char>) -> RecallQueryView {
    RecallQueryView {
        keywords: split_at_chars(content, |c: char| request_separators().contains(c)),
        tags: Seq::empty(),
        max_results: 5,
        min_importance: FIFTH,
        layers: seq![MemoryLayer::TaskSummary, MemoryLayer::EventIndex, MemoryLayer::ShortTerm],
    }
}

/// The characters between which a request is cut.
pub open spec fn request_separators() -> Seq<char> {
    seq![' ', ',', '，', '、']
}

/// The query of a thorough search.
pub open spec fn deep_query(content: Seq<char>, max_keywords: nat) -> RecallQueryView {
    RecallQueryView {
        keywords: keywords_of(content, max_keywords),
        tags: Seq::empty(),
        max_results: 10,
        min_importance: TENTH,
        layers: seq![
            MemoryLayer::TaskSummary,
            MemoryLayer::EventIndex,
            MemoryLayer::ShortTerm,
            MemoryLayer::Raw,
        ],
    }
}

/// What is kept of a message in the layer of what was said.
pub open spec fn raw_entry_of(m: crate::brains::BroadcastMessageView, now: i64) -> RawEntryView {
    RawEntryView {
        id: "raw-"@ + signed_decimal(now as int),
        content: m.content,
        raw_input: m.raw_input,
        context: m.context,
        timestamp: m.timestamp,
    }
}

/// What is kept of a message in the short term.
pub open spec fn short_term_entry_of(
    m: crate::brains::BroadcastMessageView,
    max_keywords: nat,
    now: i64,
) -> MemoryEntryView {
    MemoryEntryView {
        id: "stm-"@ + signed_decimal(now as int),
        content: m.content,
        tags: keywords_of(m.content, max_keywords),
        layer: MemoryLayer::ShortTerm,
        importance: THREE_FIFTHS,
        source: KnowledgeSourceView {
            memory_id: "raw-"@ + signed_decimal(now as int),
            layer: MemoryLayer::Raw,
        },
        confidence: SEVEN_TENTHS,
        reference_count: 0,
        created_at: now,
        last_accessed: now,
        consolidated: false,
    }
}

/// What the brain thinks at once of what it found.
pub open spec fn fast_thought(found: Seq<MemoryEntryView>) -> FastThinkResultView {
    if found.len() == 0 {
        FastThinkResultView {
            relevant: false,
            confidence: THREE_TENTHS,
            summary: None,
            suggested_tools: Seq::empty(),
            matched_experience: None,
        }
    } else {
        FastThinkResultView {
            relevant: true,
            confidence: SEVEN_TENTHS,
            summary: Some(joined(found.map_values(|e: MemoryEntryView| e.content), "; "@)),
            suggested_tools: Seq::empty(),
            matched_experience: Some(found[0].content),
        }
    }
}

/// What the brain thinks of what a thorough search found, or of its failure.
pub open spec fn slow_thought(
    found: Result<Seq<MemoryEntryView>, Seq<char>>,
) -> SlowThinkResultView {
    match found {
        Ok(m) => SlowThinkResultView {
            conclusion: if m.len() == 0 {
                "未找到相关记忆"@
            } else {
                joined(m.map_values(|e: MemoryEntryView| labelled(e)), "\n"@)
            },
            reasoning_path: m.map_values(|e: MemoryEntryView| e.content),
            confidence: if m.len() == 0 {
                FIFTH
            } else {
                THREE_QUARTERS
            },
            sources: m.map_values(|e: MemoryEntryView| e.source),
            new_experience: None,
        },
        Err(e) => SlowThinkResultView {
            conclusion: "记忆检索失败: "@ + e,
            reasoning_path: Seq::empty(),
            confidence: TENTH,
            sources: Seq::empty(),
            new_experience: None,
        },
    }
}

/// An entry with the label of its layer.
pub open spec fn labelled(e: MemoryEntryView) -> Seq<char> {
    "["@ + label_of(e.layer) + "] "@ + e.content
}

/// The answer to a request, by what was recalled.
pub open spec fn recall_answer(
    id: crate::brains::BrainIdView,
    found: Seq<MemoryEntryView>,
    now: i64,
) -> BrainResponseView {
    BrainResponseView {
        from: id,
        relevance: if found.len() == 0 {
            TENTH
        } else {
            FOUR_FIFTHS
        },
        confidence: SEVEN_TENTHS,
        result: BrainResponsePayloadView::MemoryRecall(found),
        need_slow_think: false,
        timestamp: now,
    }
}

fn contents_of(entries: &Vec<MemoryEntry>) -> (r: Vec<String>)
    ensures
        r.deep_view() == entries.deep_view().map_values(|e: MemoryEntryView| e.content),
{
    let f = |e: &MemoryEntry| -> (r: String)
        ensures r@ == e.deep_view().content
    {
        e.content.clone()
    };
    map_each(entries.as_slice(), f, Ghost(|e: MemoryEntryView| e.content))
}

impl MemoryBrain {
    /// A brain that has had no query and has no model to ask.
    pub fn new(config: MemoryBrainConfig) -> (r: Self)
        ensures
            r.id.deep_view().name == "memory"@,
            r.config == config,
            r.query_count == 0,
            !r.llm,
    {
        MemoryBrain { id: BrainId::memory(), config, query_count: 0, llm: false }
    }

    /// There is a model that can be asked.
    pub fn set_llm(&mut self)
        ensures
            *final(self) == (MemoryBrain { llm: true, ..*old(self) }),
    {
        self.llm = true;
    }

    /// Whether there is a model that can be asked.
    pub fn has_llm(&self) -> (r: bool)
        ensures
            r == self.llm,
    {
        self.llm
    }

    /// What is kept of a message: as it was said, and in the short term.
    pub fn store_broadcast(&self, msg: &BroadcastMessage, now: i64) -> (r: (RawEntry, MemoryEntry))
        ensures
            r.0.deep_view() == raw_entry_of(msg.deep_view(), now),
            r.1.deep_view() == short_term_entry_of(
                msg.deep_view(),
                self.config.max_keywords as nat,
                now,
            ),
    {
        let time = signed_number(now);
        let mut raw_id = "raw-".to_owned();
        raw_id.append(time.as_str());
        let mut id = "stm-".to_owned();
        id.append(time.as_str());
        let raw = RawEntry {
            id: raw_id.clone(),
            content: msg.content.clone(),
            raw_input: msg.raw_input.clone(),
            context: msg.context.replicate(),
            timestamp: msg.timestamp,
        };
        let entry = MemoryEntry {
            id,
            content: msg.content.clone(),
            tags: extract_keywords(msg.content.as_str(), self.config.max_keywords),
            layer: MemoryLayer::ShortTerm,
            importance: THREE_FIFTHS,
            source: KnowledgeSource { memory_id: raw_id, layer: MemoryLayer::Raw },
            confidence: SEVEN_TENTHS,
            reference_count: 0,
            created_at: now,
            last_accessed: now,
            consolidated: false,
        };
        (raw, entry)
    }

    /// How much the memory has, by what its layers count; a layer that cannot
    /// be counted counts as empty.
    pub fn stats(
        &self,
        l0: Option<u32>,
        l1: Option<u32>,
        l2: u32,
        l3: Option<u32>,
    ) -> (r: MemoryStats)
        ensures
            r.deep_view() == (MemoryStatsView {
                l0_count: if l0 is Some { l0->0 } else { 0 },
                l1_count: if l1 is Some { l1->0 } else { 0 },
                l2_count: l2,
                l3_count: if l3 is Some { l3->0 } else { 0 },
                total_size_bytes: 0,
            }),
    {
        MemoryStats {
            l0_count: l0.unwrap_or(0),
            l1_count: l1.unwrap_or(0),
            l2_count: l2,
            l3_count: l3.unwrap_or(0),
            total_size_bytes: 0,
        }
    }

    /// What is recalled for a query, from all that the memory has.
    pub fn recall_for_context(
        &self,
        sources: &CandidateSources,
        query: &str,
        max: usize,
        now: i64,
    ) -> (r: Vec<MemoryEntry>)
        ensures
            r.deep_view() == recalled(
                candidates_of(sources.deep_view(), self.config.session_id@, now),
                query@,
                max as nat,
            ),
    {
        let candidates = gather_all_candidates(sources, self.config.session_id.as_str(), now);
        pick_for_context(&candidates, query, max)
    }

    /// Counts one query more; says whether the conversation is to be analysed.
    pub fn tick_and_should_analyze(&mut self) -> (r: bool)
        requires
            old(self).query_count < u32::MAX,
        ensures
            *final(self) == (MemoryBrain {
                query_count: (old(self).query_count + 1) as u32,
                ..*old(self)
            }),
            r == is_analysis_due(old(self).query_count + 1),
    {
        self.query_count = self.query_count + 1;
        self.query_count % ANALYSIS_INTERVAL == 0
    }

    /// Where the memory is kept.
    pub fn base_dir(&self) -> (r: &str)
        ensures
            r@ == self.config.base_dir@,
    {
        self.config.base_dir.as_str()
    }

    /// The session at hand.
    pub fn session_id(&self) -> (r: &str)
        ensures
            r@ == self.config.session_id@,
    {
        self.config.session_id.as_str()
    }

    /// What is to be recalled for a message: only a request asks for something.
    pub fn handle_collaboration(&self, msg: &CollaborationMessage) -> (r: Option<RecallQuery>)
        ensures
            r.deep_view() == match msg.kind {
                CollaborationKind::Request => Some(request_query(msg.content@)),
                _ => None,
            },
    {
        match msg.kind {
            CollaborationKind::Request => {
                let set: [char; 4] = [' ', ',', '，', '、'];
                assert(set@ =~= request_separators());
                let layers: Vec<MemoryLayer> = vec![
                    MemoryLayer::TaskSummary,
                    MemoryLayer::EventIndex,
                    MemoryLayer::ShortTerm,
                ];
                assert(layers.deep_view() =~= request_query(msg.content@).layers);
                Some(
                    RecallQuery {
                        keywords: split_any(msg.content.as_str(), &set),
                        tags: no_items(),
                        max_results: 5,
                        min_importance: FIFTH,
                        layers,
                    },
                )
            },
            _ => None,
        }
    }

    /// The answer to a request, by what was recalled; none where the recall
    /// failed.
    pub fn answer_request(&self, found: Option<Vec<MemoryEntry>>, now: i64) -> (r: Option<
        BrainResponse,
    >)
        ensures
            r.deep_view() == match found {
                Some(m) => Some(recall_answer(self.id.deep_view(), m.deep_view(), now)),
                None => None,
            },
    {
        match found {
            Some(m) => {
                assert(m.deep_view().len() == m@.len());
                Some(
                    BrainResponse {
                        from: self.id.replicate(),
                        relevance: if m.len() == 0 {
                            TENTH
                        } else {
                            FOUR_FIFTHS
                        },
                        confidence: SEVEN_TENTHS,
                        result: BrainResponsePayload::MemoryRecall(m),
                        need_slow_think: false,
                        timestamp: now,
                    },
                )
            },
            None => None,
        }
    }

    /// The keywords by which the brain looks at once.
    pub fn fast_keywords(&self, msg: &BroadcastMessage) -> (r: Vec<String>)
        ensures
            r.deep_view() == keywords_of(msg.content@, self.config.max_keywords as nat),
    {
        extract_keywords(msg.content.as_str(), self.config.max_keywords)
    }

    /// What the brain thinks at once of what it found.
    pub fn fast_think(&self, found: &Vec<MemoryEntry>) -> (r: FastThinkResult)
        ensures
            r.deep_view() == fast_thought(found.deep_view()),
    {
        assert(found.deep_view().len() == found@.len());
        if found.len() == 0 {
            FastThinkResult {
                relevant: false,
                confidence: THREE_TENTHS,
                summary: None,
                suggested_tools: no_items(),
                matched_experience: None,
            }
        } else {
            let contents = contents_of(found);
            assert(found.deep_view()[0] == found@[0].deep_view());
            FastThinkResult {
                relevant: true,
                confidence: SEVEN_TENTHS,
                summary: Some(join(contents.as_slice(), "; ")),
                suggested_tools: no_items(),
                matched_experience: Some(found[0].content.clone()),
            }
        }
    }

    /// What the brain looks for thoroughly.
    pub fn slow_query(&self, msg: &BroadcastMessage) -> (r: RecallQuery)
        ensures
            r.deep_view() == deep_query(msg.content@, self.config.max_keywords as nat),
    {
        let layers: Vec<MemoryLayer> = vec![
            MemoryLayer::TaskSummary,
            MemoryLayer::EventIndex,
            MemoryLayer::ShortTerm,
            MemoryLayer::Raw,
        ];
        assert(layers.deep_view() =~= deep_query(
            msg.content@,
            self.config.max_keywords as nat,
        ).layers);
        RecallQuery {
            keywords: extract_keywords(msg.content.as_str(), self.config.max_keywords),
            tags: no_items(),
            max_results: 10,
            min_importance: TENTH,
            layers,
        }
    }

    /// What the brain thinks of what a thorough search found.
    pub fn slow_think(&self, found: &Result<Vec<MemoryEntry>, String>) -> (r: SlowThinkResult)
        ensures
            r.deep_view() == slow_thought(
                match found {
                    Ok(m) => Ok(m.deep_view()),
                    Err(e) => Err(e@),
                },
            ),
    {
        match found {
            Ok(m) => {
                assert(m.deep_view().len() == m@.len());
                let label = |e: &MemoryEntry| -> (r: String)
                    ensures r@ == labelled(e.deep_view())
                {
                    let mut line = "[".to_owned();
                    line.append(layer_label(e.layer));
                    line.append("] ");
                    line.append(e.content.as_str());
                    line
                };
                let lines = map_each(
                    m.as_slice(),
                    label,
                    Ghost(|e: MemoryEntryView| labelled(e)),
                );
                let origin = |e: &MemoryEntry| -> (r: KnowledgeSource)
                    ensures r.deep_view() == e.deep_view().source
                {
                    e.source.replicate()
                };
                let sources = map_each(
                    m.as_slice(),
                    origin,
                    Ghost(|e: MemoryEntryView| e.source),
                );
                SlowThinkResult {
                    conclusion: if m.len() == 0 {
                        "未找到相关记忆".to_owned()
                    } else {
                        join(lines.as_slice(), "\n")
                    },
                    reasoning_path: contents_of(m),
                    confidence: if m.len() == 0 {
                        FIFTH
                    } else {
                        THREE_QUARTERS
                    },
                    sources,
                    new_experience: None,
                }
            },
            Err(e) => {
                let mut conclusion = "记忆检索失败: ".to_owned();
                conclusion.append(e.as_str());
                SlowThinkResult {
                    conclusion,
                    reasoning_path: no_items(),
                    confidence: TENTH,
                    sources: no_items(),
                    new_experience: None,
                }
            },
        }
    }
}

// ---------------------------------------------------------------------------
// Laws
// ---------------------------------------------------------------------------

/// Of as many counts in a row as the interval says, exactly one is due.
pub proof fn law_one_tick_in_each_interval(count: int)
    requires
        0 <= count,
    ensures
        exists|k: int|
            0 <= k < ANALYSIS_INTERVAL && #[trigger] is_analysis_due(count + k) && (forall|j: int|
                0 <= j < ANALYSIS_INTERVAL && #[trigger] is_analysis_due(count + j) ==> j == k),
{
    let k = (5 - count % 5) % 5;
    let q = count / 5;
    let r = count % 5;
    assert(count == 5 * q + r && 0 <= r < 5);
    assert(k == if r == 0 { 0 } else { 5 - r });
    assert(is_analysis_due(count + k));
    assert forall|j: int|
        0 <= j < ANALYSIS_INTERVAL && #[trigger] is_analysis_due(count + j) implies j == k by {
        let t = (count + j) / 5;
        assert(count + j == 5 * t);
    }
}

proof fn lemma_filled_up(
    found: Seq<MemoryEntryView>,
    candidates: Seq<MemoryEntryView>,
    max: nat,
)
    requires
        found.len() <= max,
    ensures
        filled_up(found, candidates, max).len() <= max,
        found.len() <= filled_up(found, candidates, max).len(),
        filled_up(found, candidates, max).take(found.len() as int) == found,
        filled_up(found, candidates, max).len() < max ==> forall|i: int|
            0 <= i < candidates.len() ==> exists|j: int|
                0 <= j < filled_up(found, candidates, max).len() && filled_up(
                    found,
                    candidates,
                    max,
                )[j].id == (#[trigger] candidates[i]).id,
    decreases candidates.len(),
{
    let r = filled_up(found, candidates, max);
    if candidates.len() == 0 {
        assert(found.take(found.len() as int) =~= found);
    } else {
        let rest = candidates.drop_last();
        let before = filled_up(found, rest, max);
        lemma_filled_up(found, rest, max);
        assert(r.take(found.len() as int) =~= before.take(found.len() as int));
        if r.len() < max {
            assert forall|i: int| 0 <= i < candidates.len() implies exists|j: int|
                0 <= j < r.len() && r[j].id == (#[trigger] candidates[i]).id by {
                let next = candidates.last();
                let p = |x: MemoryEntryView| x.id == next.id;
                if i < rest.len() {
                    assert(candidates[i] == rest[i]);
                    let j = choose|j: int| 0 <= j < before.len() && before[j].id == rest[i].id;
                    assert(r[j].id == candidates[i].id);
                } else if some_is(before, p) {
                    let j = choose|j: int| 0 <= j < before.len() && p(before[j]);
                    assert(r[j].id == candidates[i].id);
                } else {
                    assert(r[before.len() as int].id == candidates[i].id);
                }
            }
        }
    }
}

/// A recall gives at most as much as was asked for; what has a keyword of the
/// query comes first; and where it gives less than was asked for, every
/// candidate is in it.
pub proof fn law_recall_is_full(candidates: Seq<MemoryEntryView>, query: Seq<char>, max: nat)
    ensures
        ({
            let r = recalled(candidates, query, max);
            let first = at_most(
                candidates.filter(
                    |e: MemoryEntryView| has_keyword(e.content, keywords_of(query, 8)),
                ),
                max,
            );
            &&& r.len() <= max
            &&& first.len() <= r.len() && r.take(first.len() as int) == first
            &&& r.len() < max ==> forall|i: int|
                0 <= i < candidates.len() ==> exists|j: int|
                    0 <= j < r.len() && r[j].id == (#[trigger] candidates[i]).id
        }),
{
    let first = at_most(
        candidates.filter(|e: MemoryEntryView| has_keyword(e.content, keywords_of(query, 8))),
        max,
    );
    lemma_filled_up(first, candidates, max);
}

} // verus!
