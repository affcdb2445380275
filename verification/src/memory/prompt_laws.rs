//! What the model is told of the memory, and what else is written out of it.

use crate::brains::{MemoryEntryView, MemoryLayer};
use crate::json::{JsonView, json_of_text, text_of_json};
use crate::llm::laws::law_first_field_counts;
use crate::memory::analyzer::{
    found_pitfalls_text, known_rule_line, new_pitfall_json, new_rule_lines, replaced_memories,
};
use crate::memory::brain_state::{
    refs_of_category, refs_of_entry, refs_of_source, snapshot_refs, state_ref,
};
use crate::memory::concentration::{
    ConcentrationEngineView, ConcentrationOutcomeView, ConcentrationReportView, ConcentrationStep,
    after_concentration, begun, fenced_or_all, is_to_clear, nothing_made,
};
use crate::memory::evolution::{NewEvolutionRuleView, united};
use crate::memory::guardian::{
    TopicProposalView, classify_prompt_of, list_in, merge_prompt_of, summary_json, topic_of,
    topics_of,
};
use crate::memory::index_layer::{IndexEntry, IndexEntryView, SourceRefView};
use crate::memory::memory_brain::{
    candidate_lines, impression_line, impressions_in, recall_prompt_of, summary_hit,
};
use crate::memory::memory_iteration::{
    ExistingMemoryView, IterationResultView, MemoryStoreType, iterations_of, marked_by,
    memories_text_of, memory_text, store_name,
};
use crate::memory::pitfall::NewPitfallView;
use crate::memory::replies::{bracketed, fenced, json_in, matching_end};
use crate::memory::store_laws::law_united;
use crate::memory::types::{
    EvolutionRuleView, SessionSummaryView, StateSourceRefView, SubconsciousEntryView, category_name,
    pitfall_line,
};
use crate::order::{law_sorting_orders, ordered};
use crate::paths::path_of;
use crate::seqs::{lemma_filter_has, lemma_filter_map_has};
use crate::shelf::{Shelved, categories_of, in_category};
use crate::text::{decimal, find_from, joined, occurs_at, trimmed};
use crate::text_laws::{
    law_found_is_the_first, law_joined_has_each_part, lemma_flat_has, lemma_stands_between,
    lemma_stands_through, stands_in,
};
use crate::walk::{at_most, flat_mapped};
use vstd::prelude::*;

verus! {

/// The model that is to choose is told the query, how many to choose, and each
/// candidate under its number, counted from one, with its id and the first two
/// hundred characters of what it says.
pub proof fn law_candidates_are_told(
    query: Seq<char>,
    entries: Seq<MemoryEntryView>,
    max: nat,
    i: int,
)
    requires
        0 <= i < entries.len(),
    ensures
        ({
            let r = recall_prompt_of(query, entries, max);
            let c = entries[i].content;
            &&& stands_in(r, query)
            &&& stands_in(r, " "@ + decimal(max) + " "@)
            &&& stands_in(
                r,
                decimal((i + 1) as nat) + ". ["@ + entries[i].id + "] "@ + (if c.len() <= 200 {
                    c
                } else {
                    c.take(200)
                }),
            )
        }),
{
    let r = recall_prompt_of(query, entries, max);
    let lines = candidate_lines(entries);
    let told = joined(lines, "\n"@);
    let a = "# 任务\n从以下记忆条目中，选出与用户查询最相关的 "@;
    let b = " 条。\n返回相关条目的编号列表（JSON 数组），按相关度降序排列。\n如果没有相关的，返回空数组。\n\n# 用户查询\n"@;
    let c = "\n\n# 记忆条目\n"@;
    let d = "\n\n# 输出格式\n只输出 JSON 数组，例如: [3, 1, 7]\n不要输出其他任何内容。"@;
    reveal_strlit("# 任务\n从以下记忆条目中，选出与用户查询最相关的 ");
    reveal_strlit(
        " 条。\n返回相关条目的编号列表（JSON 数组），按相关度降序排列。\n如果没有相关的，返回空数组。\n\n# 用户查询\n",
    );
    reveal_strlit(" ");
    lemma_stands_between(a + decimal(max) + b, query, c + told + d, r);
    lemma_stands_between(a + decimal(max) + b + query + c, told, d, r);
    assert(a =~= a.drop_last() + " "@);
    assert(b =~= " "@ + b.skip(1));
    lemma_stands_between(
        a.drop_last(),
        " "@ + decimal(max) + " "@,
        b.skip(1) + query + c + told + d,
        r,
    );
    law_joined_has_each_part(lines, "\n"@, i);
    lemma_stands_through(r, told, lines[i]);
}

/// The impressions among the entries are those whose ids mark them as such.
pub proof fn law_impressions_among(entries: Seq<MemoryEntryView>, id: Seq<char>)
    ensures
        impressions_in(entries).contains(id) <==> "sc-"@.is_prefix_of(id) && exists|e:
            MemoryEntryView| #[trigger] entries.contains(e) && e.id == id,
{
    let p = |e: MemoryEntryView| occurs_at(e.id, "sc-"@, 0);
    let g = |e: MemoryEntryView| e.id;
    let kept = entries.filter(p);
    let r = impressions_in(entries);
    assert forall|x: Seq<char>| occurs_at(x, "sc-"@, 0) <==> "sc-"@.is_prefix_of(x) by {
        law_found_is_the_first(x, "sc-"@, 0);
    }
    if r.contains(id) {
        let k = choose|k: int| 0 <= k < r.len() && r[k] == id;
        assert(kept.contains(kept[k]));
        lemma_filter_has(entries, p, kept[k]);
        assert(entries.contains(kept[k]) && kept[k].id == id);
    }
    if "sc-"@.is_prefix_of(id) && exists|e: MemoryEntryView| #[trigger]
        entries.contains(e) && e.id == id {
        let e = choose|e: MemoryEntryView| #[trigger] entries.contains(e) && e.id == id;
        lemma_filter_has(entries, p, e);
        let k = choose|k: int| 0 <= k < kept.len() && kept[k] == e;
        assert(r[k] == id);
    }
}

/// A summary that a search finds tells the facts, the decisions and the
/// pitfalls of its session; and an impression its topic, its words and itself.
pub proof fn law_hits_are_told(s: SessionSummaryView, e: SubconsciousEntryView, now: i64)
    ensures
        ({
            let x = summary_hit(s, now);
            &&& x.id == "summary-"@ + s.session_id && x.tags == s.tags
            &&& x.created_at == s.created_at && x.layer == MemoryLayer::EventIndex
            &&& stands_in(x.content, s.fact_summary)
            &&& stands_in(x.content, joined(s.decisions, "; "@))
            &&& stands_in(x.content, joined(s.pitfalls, "; "@))
        }),
        stands_in(impression_line(e), e.topic),
        stands_in(impression_line(e), e.impression),
        stands_in(impression_line(e), joined(e.trigger_keywords, "、"@)),
{
    let x = summary_hit(s, now).content;
    let a = "[会话摘要] "@;
    let b = " | 决策: "@;
    let c = " | 踩坑: "@;
    let d = joined(s.decisions, "; "@);
    let p = joined(s.pitfalls, "; "@);
    lemma_stands_between(a, s.fact_summary, b + d + c + p, x);
    lemma_stands_between(a + s.fact_summary + b, d, c + p, x);
    lemma_stands_between(a + s.fact_summary + b + d + c, p, Seq::empty(), x);
    let l = impression_line(e);
    let k = joined(e.trigger_keywords, "、"@);
    lemma_stands_between("• "@, e.topic, " (触发词: "@ + k + ") — "@ + e.impression, l);
    lemma_stands_between("• "@ + e.topic + " (触发词: "@, k, ") — "@ + e.impression, l);
    lemma_stands_between(
        "• "@ + e.topic + " (触发词: "@ + k + ") — "@,
        e.impression,
        Seq::empty(),
        l,
    );
}

/// The model that sorts sessions into topics is told each session with its id,
/// its facts and its tags; the one that merges is told both texts.
pub proof fn law_topics_are_told(
    unarchived: Seq<SessionSummaryView>,
    existing: Seq<char>,
    news: Seq<char>,
    i: int,
)
    requires
        0 <= i < unarchived.len(),
    ensures
        stands_in(
            classify_prompt_of(unarchived),
            text_of_json(
                JsonView::Array(
                    Seq::new(unarchived.len(), |k: int| summary_json(unarchived[k])),
                ),
            ),
        ),
        summary_json(unarchived[i]).get("session_id"@) == Some(
            JsonView::Str(unarchived[i].session_id),
        ),
        summary_json(unarchived[i]).get("fact_summary"@) == Some(
            JsonView::Str(unarchived[i].fact_summary),
        ),
        summary_json(unarchived[i]).get("tags"@) is Some,
        forall|k: int|
            0 <= k < unarchived[i].tags.len() ==> (summary_json(unarchived[i]).get(
                "tags"@,
            )->0)->Array_0[k] == JsonView::Str(#[trigger] unarchived[i].tags[k]),
        stands_in(merge_prompt_of(existing, news), existing),
        stands_in(merge_prompt_of(existing, news), news),
{
    let items = unarchived.map_values(|s: SessionSummaryView| summary_json(s));
    assert(items =~= Seq::new(unarchived.len(), |k: int| summary_json(unarchived[k])));
    let a = "# 任务\n将以下未归档的会话总结按主题分类。\n\n# 未归档总结\n"@;
    let n = text_of_json(JsonView::Array(items));
    let r = classify_prompt_of(unarchived);
    lemma_stands_between(a, n, r.skip((a + n).len() as int), r);
    let m = merge_prompt_of(existing, news);
    let b = "# 任务\n将新的会话总结合并到已有的归档总结中。\n\n# 已有归档总结\n"@;
    let c = "\n\n# 新的会话总结\n"@;
    lemma_stands_between(b, existing, m.skip((b + existing).len() as int), m);
    let d = b + existing + c;
    lemma_stands_between(d, news, m.skip((d + news).len() as int), m);
    reveal_strlit("session_id");
    reveal_strlit("fact_summary");
    reveal_strlit("tags");
    assert("session_id"@.len() == 10 && "fact_summary"@.len() == 12 && "tags"@.len() == 4);
    let s = unarchived[i];
    let fields = summary_json(s)->Object_0;
    law_first_field_counts(fields, "session_id"@, 0);
    law_first_field_counts(fields, "fact_summary"@, 1);
    law_first_field_counts(fields, "tags"@, 2);
}

/// The topics that are read are those of the list in the reply, as far as they
/// can be read.
pub proof fn law_topics_are_read(items: Seq<JsonView>, t: TopicProposalView, e: Seq<char>)
    ensures
        topics_of(Ok(JsonView::Array(items))).contains(t) <==> exists|v: JsonView| #[trigger]
            items.contains(v) && topic_of(v) == Some(t),
        topics_of(Err(e)).len() == 0,
{
    let f = |v: JsonView| topic_of(v);
    lemma_filter_map_has(items, f, t);
    if exists|i: int| 0 <= i < items.len() && f(#[trigger] items[i]) == Some(t) {
        let i = choose|i: int| 0 <= i < items.len() && f(#[trigger] items[i]) == Some(t);
        assert(items.contains(items[i]) && topic_of(items[i]) == Some(t));
    }
    if exists|v: JsonView| #[trigger] items.contains(v) && topic_of(v) == Some(t) {
        let v = choose|v: JsonView| #[trigger] items.contains(v) && topic_of(v) == Some(t);
        let i = choose|i: int| 0 <= i < items.len() && items[i] == v;
        assert(f(items[i]) == Some(t));
    }
}

/// What is known already is put to the model entry by entry, each with its id,
/// its store and its content.
pub proof fn law_memories_are_told(items: Seq<ExistingMemoryView>, i: int)
    requires
        0 <= i < items.len(),
    ensures
        stands_in(memories_text_of(items), text_of_json(JsonView::Str(items[i].id))),
        stands_in(memories_text_of(items), text_of_json(JsonView::Str(items[i].content))),
        stands_in(
            memories_text_of(items),
            text_of_json(
                JsonView::Str(
                    match items[i].store_type {
                        MemoryStoreType::Subconscious => "Subconscious"@,
                        MemoryStoreType::Summary => "Summary"@,
                        MemoryStoreType::Pitfall => "Pitfall"@,
                        MemoryStoreType::Evolution => "Evolution"@,
                    },
                ),
            ),
        ),
{
    let texts = items.map_values(|m: ExistingMemoryView| memory_text(m));
    let all = joined(texts, ","@);
    let r = memories_text_of(items);
    lemma_stands_between("["@, all, "]"@, r);
    law_joined_has_each_part(texts, ","@, i);
    let x = texts[i];
    lemma_stands_through(r, all, x);
    let m = items[i];
    let a = "{\"id\":"@;
    let id = text_of_json(JsonView::Str(m.id));
    let b = ",\"store_type\":"@;
    let store = text_of_json(JsonView::Str(store_name(m.store_type)));
    let c = ",\"content\":"@;
    let content = text_of_json(JsonView::Str(m.content));
    lemma_stands_between(a, id, x.skip((a + id).len() as int), x);
    lemma_stands_through(r, x, id);
    let d = a + id + b;
    lemma_stands_between(d, store, x.skip((d + store).len() as int), x);
    lemma_stands_through(r, x, store);
    let e = d + store + c;
    lemma_stands_between(e, content, x.skip((e + content).len() as int), x);
    lemma_stands_through(r, x, content);
}

/// The memories that a reply has replaced are those that one of its entries
/// marks; a reply that cannot be read replaces nothing.
pub proof fn law_reply_replaces(
    v: JsonView,
    existing: Seq<ExistingMemoryView>,
    x: (MemoryStoreType, Seq<char>),
    e: Seq<char>,
)
    ensures
        replaced_memories(Err(e), existing).len() == 0,
        iterations_of(v) is None ==> replaced_memories(Ok(v), existing).len() == 0,
        iterations_of(v) matches Some(items) ==> (replaced_memories(Ok(v), existing).contains(x)
            <==> exists|y: IterationResultView| #[trigger]
            items.contains(y) && marked_by(existing, y) == Some(x)),
{
    if let Some(items) = iterations_of(v) {
        let f = |y: IterationResultView| marked_by(existing, y);
        lemma_filter_map_has(items, f, x);
        if exists|i: int| 0 <= i < items.len() && f(#[trigger] items[i]) == Some(x) {
            let i = choose|i: int| 0 <= i < items.len() && f(#[trigger] items[i]) == Some(x);
            assert(items.contains(items[i]) && marked_by(existing, items[i]) == Some(x));
        }
        if exists|y: IterationResultView| #[trigger]
            items.contains(y) && marked_by(existing, y) == Some(x) {
            let y = choose|y: IterationResultView| #[trigger]
                items.contains(y) && marked_by(existing, y) == Some(x);
            let i = choose|i: int| 0 <= i < items.len() && items[i] == y;
            assert(f(items[i]) == Some(x));
        }
    }
}

/// A pitfall that was found is written with its category, its description and
/// its correction; those found are told line by line, or that there are none;
/// and a rule with its priority.
pub proof fn law_findings_are_told(
    pitfalls: Seq<NewPitfallView>,
    none: Seq<char>,
    r: EvolutionRuleView,
    rules: Seq<NewEvolutionRuleView>,
    i: int,
)
    requires
        0 <= i,
    ensures
        pitfalls.len() == 0 ==> found_pitfalls_text(pitfalls, none) == none,
        i < pitfalls.len() ==> stands_in(
            found_pitfalls_text(pitfalls, none),
            "- ["@ + category_name(pitfalls[i].category) + "] "@ + pitfalls[i].description,
        ),
        i < pitfalls.len() ==> ({
            let j = new_pitfall_json(pitfalls[i]);
            &&& j.get("category"@) == Some(JsonView::Str(category_name(pitfalls[i].category)))
            &&& j.get("description"@) == Some(JsonView::Str(pitfalls[i].description))
            &&& j.get("user_correction"@) == Some(
                if pitfalls[i].user_correction is Some {
                    JsonView::Str(pitfalls[i].user_correction->0)
                } else {
                    JsonView::Null
                },
            )
        }),
        known_rule_line(r) == "- [P"@ + decimal(r.priority as nat) + "] "@ + r.rule,
        i < rules.len() ==> stands_in(new_rule_lines(rules), "- "@ + rules[i].rule),
{
    if i < pitfalls.len() {
        let lines = pitfalls.map_values(|p: NewPitfallView| pitfall_line(p.category, p.description));
        law_joined_has_each_part(lines, "\n"@, i);
        reveal_strlit("category");
        reveal_strlit("description");
        reveal_strlit("user_correction");
        assert("category"@.len() == 8 && "description"@.len() == 11 && "user_correction"@.len()
            == 15);
        let fields = new_pitfall_json(pitfalls[i])->Object_0;
        law_first_field_counts(fields, "category"@, 0);
        law_first_field_counts(fields, "description"@, 1);
        law_first_field_counts(fields, "user_correction"@, 2);
    }
    if i < rules.len() {
        let lines = rules.map_values(|r: NewEvolutionRuleView| "- "@ + r.rule);
        law_joined_has_each_part(lines, "\n"@, i);
    }
}

/// What a reply says in a fence is what is read of it; without a fence it is
/// what stands between brackets.
pub proof fn law_json_is_taken_out(reply: Seq<char>)
    ensures
        ({
            let t = trimmed(reply);
            &&& fenced(t, "```json"@) is Some ==> json_in(reply) == fenced(t, "```json"@)->0
                && fenced_or_all(reply) == fenced(t, "```json"@)->0
            &&& fenced(t, "```json"@) is None && fenced(t, "```"@) is Some ==> json_in(reply)
                == fenced(t, "```"@)->0 && fenced_or_all(reply) == fenced(t, "```"@)->0
            &&& fenced(t, "```json"@) is None && fenced(t, "```"@) is None ==> fenced_or_all(reply)
                == t
            &&& fenced(t, "```json"@) is None && fenced(t, "```"@) is None && bracketed(t, "{"@)
                is Some && bracketed(t, "["@) is None ==> json_in(reply) == bracketed(t, "{"@)->0
            &&& fenced(t, "```json"@) is None && fenced(t, "```"@) is None && bracketed(t, "{"@)
                is None && bracketed(t, "["@) is None ==> json_in(reply) == t
        }),
{
}

/// Of an object and a list in a reply without a fence the one that can be read is
/// taken; the one that begins first where both can be, and the object where
/// neither can.
pub proof fn law_part_that_reads_is_taken(reply: Seq<char>, object: Seq<char>, list: Seq<char>)
    requires
        fenced(trimmed(reply), "```json"@) is None,
        fenced(trimmed(reply), "```"@) is None,
        bracketed(trimmed(reply), "{"@) == Some(object),
        bracketed(trimmed(reply), "["@) == Some(list),
    ensures
        json_of_text(object) is Ok && json_of_text(list) is Err ==> json_in(reply) == object,
        json_of_text(object) is Err && json_of_text(list) is Ok ==> json_in(reply) == list,
        json_of_text(object) is Err && json_of_text(list) is Err ==> json_in(reply) == object,
        json_of_text(object) is Ok && json_of_text(list) is Ok ==> json_in(reply) == if find_from(
            trimmed(reply),
            "["@,
            0,
        )->0 < find_from(trimmed(reply), "{"@, 0)->0 {
            list
        } else {
            object
        },
{
}

/// What a reply to the guardian holds begins at its first list, or else at its
/// first object, and runs to where that is closed.
pub proof fn law_list_is_taken_out(reply: Seq<char>)
    ensures
        ({
            let t = trimmed(reply);
            &&& find_from(t, "["@, 0) matches Some(s) ==> list_in(reply) == t.subrange(
                s,
                matching_end(t, s),
            )
            &&& find_from(t, "["@, 0) is None && find_from(t, "{"@, 0) is None ==> list_in(reply)
                == t
            &&& find_from(t, "["@, 0) is None ==> (find_from(t, "{"@, 0) matches Some(s)
                ==> list_in(reply) == t.subrange(s, matching_end(t, s)))
        }),
{
}

/// The sources of a state are those of the entries of the index, by category
/// and no more than so many of each, each by its file and its id.
pub proof fn law_sources_of_a_state(s: Seq<IndexEntryView>, x: StateSourceRefView)
    ensures
        snapshot_refs(s).contains(x) ==> exists|i: int, k: int, n: int|
            #![trigger s[i].source_refs[k].entry_ids[n]]
            0 <= i < s.len() && 0 <= k < s[i].source_refs.len() && 0 <= n
                < s[i].source_refs[k].entry_ids.len() && x.storage_id
                == s[i].source_refs[k].entry_ids[n] && x.reference
                == s[i].source_refs[k].session_file + ":"@ + s[i].source_refs[k].entry_ids[n],
{
    let g = |c: Seq<char>| refs_of_category(s, c);
    let h = |e: IndexEntryView| refs_of_entry(e);
    let f = |r: SourceRefView| refs_of_source(r);
    let cats = categories_of::<IndexEntry>(s);
    let all = flat_mapped(cats, g);
    if snapshot_refs(s).contains(x) {
        let r = snapshot_refs(s);
        let j = choose|j: int| 0 <= j < r.len() && r[j] == x;
        assert(all[j] == x);
        lemma_flat_has(cats, g, x);
        let a = choose|a: int| 0 <= a < cats.len() && g(#[trigger] cats[a]).contains(x);
        let p = in_category::<IndexEntry>(cats[a]);
        let mine = s.filter(p);
        let some = at_most(mine, crate::memory::brain_state::ENTRIES_PER_CATEGORY as nat);
        lemma_flat_has(some, h, x);
        let b = choose|b: int| 0 <= b < some.len() && h(#[trigger] some[b]).contains(x);
        assert(some[b] == mine[b]);
        let i = crate::seqs::lemma_filter_from(s, p, b);
        let e = s[i];
        lemma_flat_has(e.source_refs, f, x);
        let k = choose|k: int|
            0 <= k < e.source_refs.len() && f(#[trigger] e.source_refs[k]).contains(x);
        let refs = f(e.source_refs[k]);
        let n = choose|n: int| 0 <= n < refs.len() && refs[n] == x;
        assert(x == state_ref(e.source_refs[k].session_file, e.source_refs[k].entry_ids[n]));
        assert(x.storage_id == s[i].source_refs[k].entry_ids[n]);
    }
}

/// Before its first step a concentration has made nothing and met no error.
pub proof fn law_nothing_is_made_at_first()
    ensures
        ({
            let r = nothing_made();
            &&& r.step1_tasks == 0
            &&& r.step2_types == 0
            &&& r.step3_triggers == 0
            &&& r.step3_narrative_chars == 0
            &&& !r.step4_profile_updated
            &&& r.errors.len() == 0
        }),
{
}

/// A concentration begins with its first step where there is anything to
/// concentrate, and ends at once where there is nothing or it could not be
/// gathered; only a rebuild of nothing clears what was there.
pub proof fn law_concentration_begins(e: ConcentrationEngineView, t: Seq<char>, x: Seq<char>)
    ensures
        t != "[]"@ ==> begun(e, Ok(t)).step == ConcentrationStep::Split,
        begun(e, Ok("[]"@)).step == ConcentrationStep::Done,
        begun(e, Err(x)).step == ConcentrationStep::Done,
        begun(e, Ok(t)).report == e.report,
        begun(e, Err(x)).report.errors == e.report.errors.push("gather_conversations: "@ + x),
        is_to_clear(e, Ok(t)) <==> e.rebuild_from_active_l1 && t == "[]"@,
        !is_to_clear(e, Err(x)),
{
}

/// Each step of a concentration that succeeds counts what it made under its own
/// head and leads to the next; one that fails tells so.
pub proof fn law_concentration_goes_on(
    e: ConcentrationEngineView,
    count: usize,
    narrative_chars: usize,
    x: Seq<char>,
)
    ensures
        ({
            let made = ConcentrationOutcomeView::Made { count, narrative_chars };
            let r = after_concentration(e, made);
            &&& e.step == ConcentrationStep::Split ==> r.step == ConcentrationStep::Abstract
                && r.report == (ConcentrationReportView { step1_tasks: count, ..e.report })
            &&& e.step == ConcentrationStep::Abstract ==> r.step == ConcentrationStep::Triggers
                && r.report == (ConcentrationReportView { step2_types: count, ..e.report })
            &&& e.step == ConcentrationStep::Triggers ==> r.step == ConcentrationStep::Profile
                && r.report == (ConcentrationReportView {
                step3_triggers: count,
                step3_narrative_chars: narrative_chars,
                ..e.report
            })
            &&& e.step == ConcentrationStep::Profile ==> r.step == ConcentrationStep::Done
                && r.report == (ConcentrationReportView { step4_profile_updated: true, ..e.report })
        }),
        e.step == ConcentrationStep::Profile ==> after_concentration(
            e,
            ConcentrationOutcomeView::Failed(x),
        ).step == ConcentrationStep::Done,
        e.step != ConcentrationStep::Done ==> stands_in(
            after_concentration(e, ConcentrationOutcomeView::Failed(x)).report.errors.last(),
            x,
        ),
{
    if e.step != ConcentrationStep::Done {
        let last = after_concentration(e, ConcentrationOutcomeView::Failed(x)).report.errors.last();
        match e.step {
            ConcentrationStep::Split => {
                lemma_stands_between("Step1: "@, x, Seq::empty(), last);
            },
            ConcentrationStep::Abstract => {
                lemma_stands_between("Step2: "@, x, Seq::empty(), last);
            },
            ConcentrationStep::Triggers => {
                lemma_stands_between("Step3: "@, x, Seq::empty(), last);
            },
            _ => {
                lemma_stands_between("Step4: "@, x, Seq::empty(), last);
            },
        }
    }
}

/// Categories are those of the entries, each once and in order; an entry is in
/// its own category alone.
pub proof fn law_categories(s: Seq<IndexEntryView>, c: Seq<char>, e: IndexEntryView)
    ensures
        categories_of::<IndexEntry>(s).contains(c) <==> exists|i: int|
            0 <= i < s.len() && (#[trigger] s[i]).category == c,
        ordered(categories_of::<IndexEntry>(s)),
        s.filter(in_category::<IndexEntry>(c)).contains(e) <==> s.contains(e) && e.category == c,
{
    let g = |x: IndexEntryView| <IndexEntry as Shelved>::category_of(x);
    let names = s.map_values(g);
    let once = united(Seq::empty(), names);
    let r = categories_of::<IndexEntry>(s);
    law_united(Seq::empty(), names);
    law_sorting_orders(once);
    once.to_multiset_ensures();
    r.to_multiset_ensures();
    assert(r.contains(c) <==> r.to_multiset().count(c) > 0);
    assert(once.contains(c) <==> once.to_multiset().count(c) > 0);
    assert(!Seq::<Seq<char>>::empty().contains(c));
    if names.contains(c) {
        let i = choose|i: int| 0 <= i < names.len() && names[i] == c;
        assert(s[i].category == c);
    }
    if exists|i: int| 0 <= i < s.len() && (#[trigger] s[i]).category == c {
        let i = choose|i: int| 0 <= i < s.len() && (#[trigger] s[i]).category == c;
        assert(names[i] == c);
    }
    lemma_filter_has(s, in_category::<IndexEntry>(c), e);
}

/// A name below a directory stands behind it and one stroke; one that begins
/// with a stroke stands for itself.
pub proof fn law_paths(base: Seq<char>, name: Seq<char>)
    ensures
        name.len() > 0 && name[0] == '/' ==> path_of(base, name) == name,
        (name.len() == 0 || name[0] != '/') && base.len() > 0 && base.last() != '/' ==> path_of(
            base,
            name,
        ) == base + seq!['/'] + name,
        (name.len() == 0 || name[0] != '/') && base.len() > 0 && base.last() == '/' ==> path_of(
            base,
            name,
        ) == base + name,
{
    reveal_strlit("/");
    assert("/"@ =~= seq!['/']);
}

} // verus!
