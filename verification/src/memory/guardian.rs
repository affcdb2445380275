//! The guardian: sorts the summaries of sessions into topics of the archive.

use crate::json::{
    array, double_bits_of, json_of_text, text_array, text_of_json, texts_view, Json, JsonFields,
    JsonView,
};
use crate::keyed::{keyed_item, keyed_put, law_put_is_found, with_key};
use crate::memory::analyzer::{strings_at, texts_at};
use crate::memory::archive::{
    ArchiveReference, ArchiveReferenceView, ArchiveStore, ArchiveTopicIndex, ArchiveTopicIndexView,
};
use crate::memory::novel::canon::has_string;
use crate::memory::replies::{find_matching_brace, matching_end};
use crate::memory::types::{SessionSummary, SessionSummaryView};
use crate::replicate::Replicate;
use crate::seqs::{lemma_first_index, lemma_take_all, lemma_take_step};
use crate::text::{
    ascii_lower, chars_of, find_chars, find_from, join, joined, same_ignoring_case, text_of, trim,
    trimmed,
};
use crate::walk::{
    any_is, append_all, at_most, filter_each, filter_map_each, first_items, map_each, no_items,
    push_one, some_is,
};
use crate::weights::{larger, larger_of, SEVEN_TENTHS};
use vstd::prelude::*;

verus! {

/// When the guardian runs.
#[derive(Debug, PartialEq)]
pub struct GuardianConfig {
    pub check_interval_secs: u64,
    /// How many summaries must be waiting.
    pub min_new_summaries: usize,
}

/// What such a setup is.
#[verifier::ext_equal]
pub struct GuardianConfigView {
    pub check_interval_secs: u64,
    pub min_new_summaries: usize,
}

impl DeepView for GuardianConfig {
    type V = GuardianConfigView;

    open spec fn deep_view(&self) -> GuardianConfigView {
        GuardianConfigView {
            check_interval_secs: self.check_interval_secs,
            min_new_summaries: self.min_new_summaries,
        }
    }
}

impl Replicate for GuardianConfig {
    fn replicate(&self) -> (r: Self) {
        GuardianConfig {
            check_interval_secs: self.check_interval_secs,
            min_new_summaries: self.min_new_summaries,
        }
    }
}

impl Default for GuardianConfig {
    fn default() -> (r: Self)
        ensures
            r.check_interval_secs == 28800,
            r.min_new_summaries == 10,
    {
        GuardianConfig { check_interval_secs: 28800, min_new_summaries: 10 }
    }
}

/// What the guardian did.
#[derive(Debug, PartialEq)]
pub struct GuardianReport {
    pub archived_count: usize,
    pub new_topics: usize,
    pub merged_topics: usize,
    pub decayed_count: usize,
    pub pruned_count: usize,
}

/// What a report is.
#[verifier::ext_equal]
pub struct GuardianReportView {
    pub archived_count: usize,
    pub new_topics: usize,
    pub merged_topics: usize,
    pub decayed_count: usize,
    pub pruned_count: usize,
}

impl DeepView for GuardianReport {
    type V = GuardianReportView;

    open spec fn deep_view(&self) -> GuardianReportView {
        GuardianReportView {
            archived_count: self.archived_count,
            new_topics: self.new_topics,
            merged_topics: self.merged_topics,
            decayed_count: self.decayed_count,
            pruned_count: self.pruned_count,
        }
    }
}

impl Replicate for GuardianReport {
    fn replicate(&self) -> (r: Self) {
        GuardianReport {
            archived_count: self.archived_count,
            new_topics: self.new_topics,
            merged_topics: self.merged_topics,
            decayed_count: self.decayed_count,
            pruned_count: self.pruned_count,
        }
    }
}

impl Default for GuardianReport {
    fn default() -> (r: Self)
        ensures
            r.deep_view() == (GuardianReportView {
                archived_count: 0,
                new_topics: 0,
                merged_topics: 0,
                decayed_count: 0,
                pruned_count: 0,
            }),
    {
        GuardianReport {
            archived_count: 0,
            new_topics: 0,
            merged_topics: 0,
            decayed_count: 0,
            pruned_count: 0,
        }
    }
}

/// A topic that a model proposes, and the sessions that belong to it.
#[derive(Debug, PartialEq)]
pub struct TopicProposal {
    pub topic: String,
    pub keywords: Vec<String>,
    /// The bits of the importance.
    pub importance: u64,
    pub session_ids: Vec<String>,
}

/// What a proposal is.
#[verifier::ext_equal]
pub struct TopicProposalView {
    pub topic: Seq<char>,
    pub keywords: Seq<Seq<char>>,
    pub importance: u64,
    pub session_ids: Seq<Seq<char>>,
}

impl DeepView for TopicProposal {
    type V = TopicProposalView;

    open spec fn deep_view(&self) -> TopicProposalView {
        TopicProposalView {
            topic: self.topic@,
            keywords: self.keywords.deep_view(),
            importance: self.importance,
            session_ids: self.session_ids.deep_view(),
        }
    }
}

impl Replicate for TopicProposal {
    fn replicate(&self) -> (r: Self) {
        TopicProposal {
            topic: self.topic.clone(),
            keywords: self.keywords.replicate(),
            importance: self.importance,
            session_ids: self.session_ids.replicate(),
        }
    }
}

/// Where the list or the object in a text starts: at the first `[`, or at the
/// first `{` where there is no `[`.
pub open spec fn list_start(t: Seq<char>) -> Option<int> {
    match find_from(t, "["@, 0) {
        Some(i) => Some(i),
        None => find_from(t, "{"@, 0),
    }
}

/// The list or the object in the reply of a model: from its first bracket to
/// the one that closes it, or the whole reply where it has no bracket.
pub open spec fn list_in(reply: Seq<char>) -> Seq<char> {
    let t = trimmed(reply);
    match list_start(t) {
        Some(s) => t.subrange(s, matching_end(t, s)),
        None => t,
    }
}

/// The list or the object in the reply of a model.
pub fn extract_json(text: &str) -> (r: String)
    ensures
        r@ == list_in(text@),
{
    let t = trim(text);
    let cs = chars_of(t.as_str());
    proof {
        reveal_strlit("[");
        reveal_strlit("{");
    }
    let start = match find_chars(&cs, &chars_of("["), 0) {
        Some(i) => Some(i),
        None => find_chars(&cs, &chars_of("{"), 0),
    };
    match start {
        Some(s) => {
            assert(cs@.subrange(s as int, s + 1)[0] == cs@[s as int]);
            let e: usize = find_matching_brace(&cs, s);
            text_of(&cs, s, e)
        },
        None => t,
    }
}

/// The value of a summary that a model is shown.
pub open spec fn summary_json(s: SessionSummaryView) -> JsonView {
    JsonView::Object(
        seq![
            ("session_id"@, JsonView::Str(s.session_id)),
            ("fact_summary"@, JsonView::Str(s.fact_summary)),
            ("tags"@, texts_view(s.tags)),
        ],
    )
}

/// What a model is asked when it is to find the topics.
pub open spec fn classify_prompt_of(unarchived: Seq<SessionSummaryView>) -> Seq<char> {
    "# 任务\n将以下未归档的会话总结按主题分类。\n\n# 未归档总结\n"@ + text_of_json(
        JsonView::Array(unarchived.map_values(|s: SessionSummaryView| summary_json(s))),
    ) + "\n\n# 输出格式（JSON 数组）\n[\n{\n\"topic\": \"主题名称\",\n\"keywords\": [\"关键词1\", \"关键词2\"],\n\"importance\": 0.8,\n\"session_ids\": [\"sess-xxx\"]\n}\n]\n\n规则：\n1. 每个总结只能属于一个 topic\n2. topic 名称用中文\n3. keywords 提取 3-8 个\n4. importance 0.0-1.0"@
}

/// What a model is asked when it is to find the topics.
pub fn classify_prompt(unarchived: &Vec<SessionSummary>) -> (r: String)
    ensures
        r@ == classify_prompt_of(unarchived.deep_view()),
{
    let f = |s: &SessionSummary| -> (r: Json)
        ensures r.deep_view() == summary_json(s.deep_view())
    {
        let mut f = JsonFields::new();
        f.put_text("session_id", s.session_id.as_str());
        f.put_text("fact_summary", s.fact_summary.as_str());
        f.put("tags", text_array(&s.tags));
        assert(f@ =~= summary_json(s.deep_view())->Object_0);
        f.done()
    };
    let values = map_each(
        unarchived.as_slice(),
        f,
        Ghost(|s: SessionSummaryView| summary_json(s)),
    );
    let text = array(values).to_text();
    let mut r = "# 任务\n将以下未归档的会话总结按主题分类。\n\n# 未归档总结\n".to_owned();
    r.append(text.as_str());
    r.append("\n\n# 输出格式（JSON 数组）\n[\n{\n\"topic\": \"主题名称\",\n\"keywords\": [\"关键词1\", \"关键词2\"],\n\"importance\": 0.8,\n\"session_ids\": [\"sess-xxx\"]\n}\n]\n\n规则：\n1. 每个总结只能属于一个 topic\n2. topic 名称用中文\n3. keywords 提取 3-8 个\n4. importance 0.0-1.0");
    r
}

/// What a model is asked when it is to merge summaries.
pub open spec fn merge_prompt_of(existing: Seq<char>, news: Seq<char>) -> Seq<char> {
    "# 任务\n将新的会话总结合并到已有的归档总结中。\n\n# 已有归档总结\n"@ + existing + "\n\n# 新的会话总结\n"@ + news + "\n\n# 规则\n1. 保留已有的核心内容\n2. 整合新总结的关键信息\n3. 去重，不要重复相同内容\n4. 控制在 500 字以内\n5. 直接输出合并后的文本（纯文本，不要 JSON）"@
}

/// What a model is asked when it is to merge summaries.
pub fn merge_prompt(existing: &str, new_summaries: &str) -> (r: String)
    ensures
        r@ == merge_prompt_of(existing@, new_summaries@),
{
    let mut r = "# 任务\n将新的会话总结合并到已有的归档总结中。\n\n# 已有归档总结\n".to_owned();
    r.append(existing);
    r.append("\n\n# 新的会话总结\n");
    r.append(new_summaries);
    r.append("\n\n# 规则\n1. 保留已有的核心内容\n2. 整合新总结的关键信息\n3. 去重，不要重复相同内容\n4. 控制在 500 字以内\n5. 直接输出合并后的文本（纯文本，不要 JSON）");
    r
}

/// The merged summary: the reply of the model, or one after the other where
/// there is none.
pub fn merge_summary(reply: Option<&str>, existing: &str, new_summaries: &str) -> (r: String)
    ensures
        r@ == match reply {
            Some(t) => trimmed(t@),
            None => existing@ + "\n"@ + new_summaries@,
        },
{
    match reply {
        Some(t) => trim(t),
        None => {
            let mut r = existing.to_owned();
            r.append("\n");
            r.append(new_summaries);
            r
        },
    }
}

/// The topic that a value stands for; none where it has no name.
pub open spec fn topic_of(v: JsonView) -> Option<TopicProposalView> {
    match v.str_at("topic"@) {
        Some(topic) => Some(
            TopicProposalView {
                topic,
                keywords: texts_at(v, "keywords"@),
                importance: importance_of(v),
                session_ids: texts_at(v, "session_ids"@),
            },
        ),
        None => None,
    }
}

/// The importance that a value gives.
pub open spec fn importance_of(v: JsonView) -> u64 {
    match v.get("importance"@) {
        Some(x) => match double_bits_of(x) {
            Some(bits) => bits,
            None => SEVEN_TENTHS,
        },
        None => SEVEN_TENTHS,
    }
}

/// The topics that a list, as it was read, stands for; of what is no list,
/// none.
pub open spec fn topics_of(read: Result<JsonView, Seq<char>>) -> Seq<TopicProposalView> {
    match read {
        Ok(JsonView::Array(items)) => items.filter_map(|v: JsonView| topic_of(v)),
        _ => Seq::empty(),
    }
}

fn find_topic(v: &Json) -> (r: Option<TopicProposal>)
    ensures
        r.deep_view() == topic_of(v.deep_view()),
{
    match v.str_at("topic") {
        Some(topic) => {
            let importance: u64 = match v.get("importance") {
                Some(x) => match x.as_double_bits() {
                    Some(bits) => bits,
                    None => SEVEN_TENTHS,
                },
                None => SEVEN_TENTHS,
            };
            Some(
                TopicProposal {
                    topic,
                    keywords: strings_at(v, "keywords"),
                    importance,
                    session_ids: strings_at(v, "session_ids"),
                },
            )
        },
        None => None,
    }
}

/// The topics that a list, as it was read, stands for.
pub fn topics_in(read: &Result<Json, String>) -> (r: Vec<TopicProposal>)
    ensures
        r.deep_view() == topics_of(
            match read {
                Ok(j) => Ok(j.deep_view()),
                Err(e) => Err(e@),
            },
        ),
{
    if let Ok(j) = read {
        if let Some(items) = j.as_array() {
            let f = |v: &Json| -> (r: Option<TopicProposal>)
                ensures r.deep_view() == topic_of(v.deep_view())
            {
                find_topic(v)
            };
            return filter_map_each(items.as_slice(), f, Ghost(|v: JsonView| topic_of(v)));
        }
    }
    no_items()
}

/// The topics that a reply proposes.
pub fn classify_topics(reply: &str) -> (r: Vec<TopicProposal>)
    ensures
        r.deep_view() == topics_of(json_of_text(list_in(reply@))),
{
    let text = extract_json(reply);
    let read = Json::parse(text.as_str());
    topics_in(&read)
}

/// The facts of the summaries that belong to a topic.
pub open spec fn topic_facts(
    unarchived: Seq<SessionSummaryView>,
    session_ids: Seq<Seq<char>>,
) -> Seq<Seq<char>> {
    unarchived.filter(|s: SessionSummaryView| session_ids.contains(s.session_id)).map_values(
        |s: SessionSummaryView| s.fact_summary,
    )
}

/// The facts of the summaries that belong to a topic; where there are none, the
/// topic is left alone.
pub fn facts_of_topic(unarchived: &Vec<SessionSummary>, t: &TopicProposal) -> (r: Vec<String>)
    ensures
        r.deep_view() == topic_facts(unarchived.deep_view(), t.deep_view().session_ids),
{
    let f = |s: &SessionSummary| -> (r: bool)
        ensures r == t.deep_view().session_ids.contains(s.deep_view().session_id)
    {
        has_string(&t.session_ids, s.session_id.as_str())
    };
    let ghost ids = t.deep_view().session_ids;
    let own = filter_each(
        unarchived.as_slice(),
        f,
        Ghost(|s: SessionSummaryView| ids.contains(s.session_id)),
    );
    let f = |s: &SessionSummary| -> (r: String)
        ensures r@ == s.deep_view().fact_summary
    {
        s.fact_summary.clone()
    };
    map_each(own.as_slice(), f, Ghost(|s: SessionSummaryView| s.fact_summary))
}

/// The references to the sessions of a topic.
pub open spec fn references_of(t: TopicProposalView) -> Seq<ArchiveReferenceView> {
    t.session_ids.map_values(
        |id: Seq<char>|
            ArchiveReferenceView { session_id: id, summary: ""@, importance: t.importance },
    )
}

/// `have` and those of `more` that are not there yet, whatever the case of
/// ASCII letters.
pub open spec fn keywords_united(have: Seq<Seq<char>>, more: Seq<Seq<char>>) -> Seq<Seq<char>>
    decreases more.len(),
{
    if more.len() == 0 {
        have
    } else {
        let before = keywords_united(have, more.drop_last());
        let next = more.last();
        if some_is(before, |k: Seq<char>| ascii_lower(k) == ascii_lower(next)) {
            before
        } else {
            before.push(next)
        }
    }
}

/// The index of a new topic.
pub open spec fn new_topic(
    t: TopicProposalView,
    facts: Seq<Seq<char>>,
    now: i64,
) -> ArchiveTopicIndexView {
    ArchiveTopicIndexView {
        topic: t.topic,
        trigger_keywords: t.keywords,
        merged_summary: joined(facts, "\n"@),
        importance: t.importance,
        references: references_of(t),
        updated_at: now,
        created_at: now,
    }
}

/// The index of a topic after more sessions were sorted into it.
pub open spec fn merged_topic(
    i: ArchiveTopicIndexView,
    t: TopicProposalView,
    summary: Seq<char>,
    now: i64,
) -> ArchiveTopicIndexView {
    ArchiveTopicIndexView {
        merged_summary: summary,
        references: i.references + references_of(t),
        trigger_keywords: at_most(keywords_united(i.trigger_keywords, t.keywords), 10),
        importance: larger_of(i.importance, t.importance),
        updated_at: now,
        ..i
    }
}

fn make_references(t: &TopicProposal) -> (r: Vec<ArchiveReference>)
    ensures
        r.deep_view() == references_of(t.deep_view()),
{
    let importance: u64 = t.importance;
    let f = |id: &String| -> (r: ArchiveReference)
        ensures
            r.deep_view() == (ArchiveReferenceView {
                session_id: id@,
                summary: ""@,
                importance: importance,
            })
    {
        ArchiveReference { session_id: id.clone(), summary: "".to_owned(), importance }
    };
    map_each(
        t.session_ids.as_slice(),
        f,
        Ghost(
            |id: Seq<char>|
                ArchiveReferenceView { session_id: id, summary: ""@, importance: t.importance },
        ),
    )
}

fn unite_keywords(have: &Vec<String>, more: &Vec<String>) -> (r: Vec<String>)
    ensures
        r.deep_view() == keywords_united(have.deep_view(), more.deep_view()),
{
    let ghost all = more.deep_view();
    let mut r = have.replicate();
    let mut i: usize = 0;
    assert(all.take(0) =~= Seq::<Seq<char>>::empty());
    while i < more.len()
        invariant
            i <= more@.len(),
            all == more.deep_view(),
            r.deep_view() == keywords_united(have.deep_view(), all.take(i as int)),
        decreases more@.len() - i,
    {
        let next = &more[i];
        proof {
            lemma_take_step(all, i as int);
            assert(all[i as int] == next@);
        }
        let f = |k: &String| -> (r: bool)
            ensures r == (ascii_lower(k@) == ascii_lower(next@))
        {
            same_ignoring_case(k.as_str(), next.as_str())
        };
        if !any_is(
            r.as_slice(),
            f,
            Ghost(|k: Seq<char>| ascii_lower(k) == ascii_lower(next@)),
        ) {
            push_one(&mut r, next.clone());
        }
        i = i + 1;
    }
    proof {
        lemma_take_all(all);
    }
    r
}

/// The index of a new topic.
pub fn create_topic(t: &TopicProposal, facts: &Vec<String>, now: i64) -> (r: ArchiveTopicIndex)
    ensures
        r.deep_view() == new_topic(t.deep_view(), facts.deep_view(), now),
{
    ArchiveTopicIndex {
        topic: t.topic.clone(),
        trigger_keywords: t.keywords.replicate(),
        merged_summary: join(facts.as_slice(), "\n"),
        importance: t.importance,
        references: make_references(t),
        updated_at: now,
        created_at: now,
    }
}

/// The index of a topic after more sessions were sorted into it.
pub fn merge_topic(
    index: &ArchiveTopicIndex,
    t: &TopicProposal,
    merged_summary: String,
    now: i64,
) -> (r: ArchiveTopicIndex)
    ensures
        r.deep_view() == merged_topic(index.deep_view(), t.deep_view(), merged_summary@, now),
{
    let mut references = index.references.replicate();
    append_all(&mut references, make_references(t));
    let words = unite_keywords(&index.trigger_keywords, &t.keywords);
    ArchiveTopicIndex {
        topic: index.topic.clone(),
        trigger_keywords: first_items(words.as_slice(), 10),
        merged_summary,
        importance: larger(index.importance, t.importance),
        references,
        updated_at: now,
        created_at: index.created_at,
    }
}

/// The summary of a topic with new facts: the reply of the model, or one after
/// the other where there is none.
pub open spec fn summary_with(
    reply: Option<Seq<char>>,
    existing: Seq<char>,
    facts: Seq<Seq<char>>,
) -> Seq<char> {
    match reply {
        Some(t) => trimmed(t),
        None => existing + "\n"@ + joined(facts, "\n"@),
    }
}

/// The index of a topic after the facts of its sessions came: a new one, where
/// the topic is not kept yet.
pub open spec fn filed_index(
    topics: Seq<ArchiveTopicIndexView>,
    t: TopicProposalView,
    facts: Seq<Seq<char>>,
    reply: Option<Seq<char>>,
    now: i64,
) -> ArchiveTopicIndexView {
    match keyed_item::<ArchiveTopicIndex>(topics, t.topic) {
        Some(i) => merged_topic(i, t, summary_with(reply, i.merged_summary, facts), now),
        None => new_topic(t, facts, now),
    }
}

/// The summaries that are not archived.
pub open spec fn unarchived_summaries(summaries: Seq<SessionSummaryView>) -> Seq<
    SessionSummaryView,
> {
    summaries.filter(|s: SessionSummaryView| !s.archived)
}

/// Copies of the summaries that are not archived.
pub fn find_unarchived(summaries: &Vec<SessionSummary>) -> (r: Vec<SessionSummary>)
    ensures
        r.deep_view() == unarchived_summaries(summaries.deep_view()),
{
    let f = |s: &SessionSummary| -> (r: bool)
        ensures r == !s.deep_view().archived
    {
        !s.archived
    };
    filter_each(summaries.as_slice(), f, Ghost(|s: SessionSummaryView| !s.archived))
}

/// The summaries, those of the sessions archived.
pub open spec fn archived_in(s: Seq<SessionSummaryView>, ids: Seq<Seq<char>>) -> Seq<
    SessionSummaryView,
> {
    s.map_values(
        |x: SessionSummaryView|
            if ids.contains(x.session_id) {
                SessionSummaryView { archived: true, ..x }
            } else {
                x
            },
    )
}

/// Marks the summaries of the sessions as archived.
pub fn mark_archived(summaries: &mut Vec<SessionSummary>, ids: &Vec<String>)
    ensures
        final(summaries).deep_view() == archived_in(old(summaries).deep_view(), ids.deep_view()),
{
    let f = |x: &SessionSummary| -> (r: SessionSummary)
        ensures
            r.deep_view() == (if ids.deep_view().contains(x.deep_view().session_id) {
                SessionSummaryView { archived: true, ..x.deep_view() }
            } else {
                x.deep_view()
            })
    {
        let mut y = x.replicate();
        if has_string(ids, x.session_id.as_str()) {
            y.archived = true;
        }
        y
    };
    let ghost g = ids.deep_view();
    let marked = map_each(
        summaries.as_slice(),
        f,
        Ghost(
            |x: SessionSummaryView|
                if g.contains(x.session_id) {
                    SessionSummaryView { archived: true, ..x }
                } else {
                    x
                },
        ),
    );
    *summaries = marked;
}

/// What a model is asked before the facts of a topic are filed: nothing where
/// there are no facts or the topic is new.
pub fn filing_prompt(archive: &ArchiveStore, t: &TopicProposal, facts: &Vec<String>) -> (r: Option<
    String,
>)
    ensures
        r.deep_view() == match keyed_item::<ArchiveTopicIndex>(
            archive.topics.deep_view(),
            t.deep_view().topic,
        ) {
            Some(i) if facts@.len() > 0 => Some(
                merge_prompt_of(i.merged_summary, joined(facts.deep_view(), "\n"@)),
            ),
            _ => None,
        },
{
    if facts.len() == 0 {
        return None;
    }
    match archive.load_topic(t.topic.as_str()) {
        Some(i) => {
            let news = join(facts.as_slice(), "\n");
            Some(merge_prompt(i.merged_summary.as_str(), news.as_str()))
        },
        None => None,
    }
}

/// The guardian.
pub struct GuardianEngine {
    pub config: GuardianConfig,
    pub report: GuardianReport,
}

impl GuardianEngine {
    /// A guardian that has done nothing yet.
    pub fn new(config: GuardianConfig) -> (r: Self)
        ensures
            r.config == config,
            r.report.deep_view() == (GuardianReportView {
                archived_count: 0,
                new_topics: 0,
                merged_topics: 0,
                decayed_count: 0,
                pruned_count: 0,
            }),
    {
        GuardianEngine { config, report: GuardianReport::default() }
    }

    /// Whether enough of the summaries are waiting to be archived.
    pub fn should_run(&self, summaries: &Vec<SessionSummary>) -> (r: bool)
        ensures
            r == (unarchived_summaries(summaries.deep_view()).len()
                >= self.config.min_new_summaries),
    {
        let unarchived = find_unarchived(summaries);
        assert(unarchived.deep_view().len() == unarchived@.len());
        unarchived.len() >= self.config.min_new_summaries
    }

    /// Counts a topic that was kept with its sessions.
    pub fn count_topic(&mut self, is_new: bool, sessions: usize)
        requires
            old(self).report.archived_count + sessions <= usize::MAX,
            old(self).report.new_topics < usize::MAX,
            old(self).report.merged_topics < usize::MAX,
        ensures
            final(self).config == old(self).config,
            final(self).report.deep_view() == (GuardianReportView {
                archived_count: (old(self).report.archived_count + sessions) as usize,
                new_topics: (old(self).report.new_topics + if is_new {
                    1int
                } else {
                    0
                }) as usize,
                merged_topics: (old(self).report.merged_topics + if is_new {
                    0int
                } else {
                    1
                }) as usize,
                ..old(self).report.deep_view()
            }),
    {
        if is_new {
            self.report.new_topics = self.report.new_topics + 1;
        } else {
            self.report.merged_topics = self.report.merged_topics + 1;
        }
        self.report.archived_count = self.report.archived_count + sessions;
    }

    /// Files a topic: the facts of its sessions go into its index, with the
    /// reply of a model where it is kept already, and its sessions count as
    /// archived. A topic without facts is left alone.
    pub fn file_topic(
        &mut self,
        archive: &mut ArchiveStore,
        summaries: &mut Vec<SessionSummary>,
        t: &TopicProposal,
        facts: &Vec<String>,
        reply: Option<&str>,
        now: i64,
    )
        requires
            old(self).report.archived_count + t.session_ids@.len() <= usize::MAX,
            old(self).report.new_topics < usize::MAX,
            old(self).report.merged_topics < usize::MAX,
        ensures
            final(self).config == old(self).config,
            final(archive).base_dir == old(archive).base_dir,
            facts@.len() == 0 ==> {
                &&& final(self).report.deep_view() == old(self).report.deep_view()
                &&& final(archive).topics.deep_view() == old(archive).topics.deep_view()
                &&& final(summaries).deep_view() == old(summaries).deep_view()
            },
            facts@.len() > 0 ==> {
                let is_new = keyed_item::<ArchiveTopicIndex>(
                    old(archive).topics.deep_view(),
                    t.deep_view().topic,
                ) is None;
                &&& final(archive).topics.deep_view() == keyed_put::<ArchiveTopicIndex>(
                    old(archive).topics.deep_view(),
                    filed_index(
                        old(archive).topics.deep_view(),
                        t.deep_view(),
                        facts.deep_view(),
                        reply.deep_view(),
                        now,
                    ),
                )
                &&& final(summaries).deep_view() == archived_in(
                    old(summaries).deep_view(),
                    t.deep_view().session_ids,
                )
                &&& final(self).report.deep_view() == (GuardianReportView {
                    archived_count: (old(self).report.archived_count
                        + t.deep_view().session_ids.len()) as usize,
                    new_topics: (old(self).report.new_topics + if is_new {
                        1int
                    } else {
                        0
                    }) as usize,
                    merged_topics: (old(self).report.merged_topics + if is_new {
                        0int
                    } else {
                        1
                    }) as usize,
                    ..old(self).report.deep_view()
                })
            },
    {
        if facts.len() == 0 {
            return ;
        }
        let is_new = match archive.load_topic(t.topic.as_str()) {
            Some(i) => {
                let news = join(facts.as_slice(), "\n");
                let summary = merge_summary(reply, i.merged_summary.as_str(), news.as_str());
                let index = merge_topic(&i, t, summary, now);
                archive.save_topic(&index);
                false
            },
            None => {
                let index = create_topic(t, facts, now);
                archive.save_topic(&index);
                true
            },
        };
        mark_archived(summaries, &t.session_ids);
        assert(t.deep_view().session_ids.len() == t.session_ids@.len());
        self.count_topic(is_new, t.session_ids.len());
    }

    /// Takes over what the decay of the memory did.
    pub fn count_decay(&mut self, decayed: usize, pruned: usize)
        ensures
            final(self).config == old(self).config,
            final(self).report.deep_view() == (GuardianReportView {
                decayed_count: decayed,
                pruned_count: pruned,
                ..old(self).report.deep_view()
            }),
    {
        self.report.decayed_count = decayed;
        self.report.pruned_count = pruned;
    }
}

proof fn lemma_keywords_united(have: Seq<Seq<char>>, more: Seq<Seq<char>>)
    ensures
        have.len() <= keywords_united(have, more).len(),
        keywords_united(have, more).take(have.len() as int) == have,
        forall|i: int|
            0 <= i < more.len() ==> some_is(
                keywords_united(have, more),
                |k: Seq<char>| ascii_lower(k) == ascii_lower(#[trigger] more[i]),
            ),
    decreases more.len(),
{
    let r = keywords_united(have, more);
    if more.len() == 0 {
        assert(have.take(have.len() as int) =~= have);
    } else {
        let rest = more.drop_last();
        let before = keywords_united(have, rest);
        lemma_keywords_united(have, rest);
        assert(r.take(have.len() as int) =~= before.take(have.len() as int));
        let next = more.last();
        let q = |k: Seq<char>| ascii_lower(k) == ascii_lower(next);
        assert forall|i: int| 0 <= i < more.len() implies some_is(
            r,
            |k: Seq<char>| ascii_lower(k) == ascii_lower(#[trigger] more[i]),
        ) by {
            let p = |k: Seq<char>| ascii_lower(k) == ascii_lower(more[i]);
            if i < rest.len() {
                assert(more[i] == rest[i]);
                let pr = |k: Seq<char>| ascii_lower(k) == ascii_lower(rest[i]);
                assert(some_is(before, pr));
                let j = choose|j: int| 0 <= j < before.len() && pr(#[trigger] before[j]);
                assert(p(r[j]));
            } else if some_is(before, q) {
                let j = choose|j: int| 0 <= j < before.len() && q(#[trigger] before[j]);
                assert(p(r[j]));
            } else {
                assert(p(r[before.len() as int]));
            }
        }
    }
}

/// Sorting sessions into a topic keeps every reference that it had and adds one
/// for each session; its keywords stay, as far as ten of them, and its
/// importance does not fall.
pub proof fn law_topic_only_grows(
    i: ArchiveTopicIndexView,
    t: TopicProposalView,
    summary: Seq<char>,
    now: i64,
)
    ensures
        ({
            let r = merged_topic(i, t, summary, now);
            &&& r.topic == i.topic
            &&& r.references.len() == i.references.len() + t.session_ids.len()
            &&& r.references.take(i.references.len() as int) == i.references
            &&& r.trigger_keywords.len() <= 10
            &&& i.trigger_keywords.len() <= 10 ==> i.trigger_keywords.len()
                <= r.trigger_keywords.len() && r.trigger_keywords.take(
                i.trigger_keywords.len() as int,
            ) == i.trigger_keywords
            &&& crate::weights::is_number(i.importance) ==> crate::weights::rank_of(r.importance)
                >= crate::weights::rank_of(i.importance)
        }),
{
    let r = merged_topic(i, t, summary, now);
    assert(r.references.take(i.references.len() as int) =~= i.references);
    lemma_keywords_united(i.trigger_keywords, t.keywords);
    let u = keywords_united(i.trigger_keywords, t.keywords);
    let n = i.trigger_keywords.len() as int;
    if i.trigger_keywords.len() <= 10 {
        assert(r.trigger_keywords.take(n) =~= u.take(n));
    }
}

/// A topic that is filed is kept, with a reference to each of its sessions, and
/// their summaries no longer wait.
pub proof fn law_filed_topic_is_kept(
    topics: Seq<ArchiveTopicIndexView>,
    summaries: Seq<SessionSummaryView>,
    t: TopicProposalView,
    facts: Seq<Seq<char>>,
    reply: Option<Seq<char>>,
    now: i64,
)
    ensures
        ({
            let index = filed_index(topics, t, facts, reply, now);
            let after = archived_in(summaries, t.session_ids);
            &&& keyed_item::<ArchiveTopicIndex>(
                keyed_put::<ArchiveTopicIndex>(topics, index),
                t.topic,
            ) == Some(index)
            &&& forall|i: int|
                0 <= i < t.session_ids.len() ==> index.references.contains(
                    ArchiveReferenceView {
                        session_id: #[trigger] t.session_ids[i],
                        summary: ""@,
                        importance: t.importance,
                    },
                )
            &&& after.len() == summaries.len()
            &&& forall|i: int|
                0 <= i < after.len() ==> (#[trigger] after[i]).session_id == summaries[i].session_id
                    && after[i].archived == (summaries[i].archived || t.session_ids.contains(
                    summaries[i].session_id,
                ))
        }),
{
    let index = filed_index(topics, t, facts, reply, now);
    lemma_first_index(topics, with_key::<ArchiveTopicIndex>(t.topic));
    assert(index.topic == t.topic);
    law_put_is_found::<ArchiveTopicIndex>(topics, index, t.topic);
    assert forall|i: int| 0 <= i < t.session_ids.len() implies index.references.contains(
        ArchiveReferenceView {
            session_id: #[trigger] t.session_ids[i],
            summary: ""@,
            importance: t.importance,
        },
    ) by {
        let n = index.references.len() - t.session_ids.len();
        assert(index.references[n + i] == references_of(t)[i]);
    }
}

} // verus!
