//! What holds of how a task is shared out, how the answers become one, and how
//! brains gain and lose weight.

use crate::brains::{
    BrainIdView, BrainResponse, BrainResponsePayloadView, BrainResponseView, BroadcastMessageView,
    CollaborationKind, CollaborationMessageView, KnowledgeSourceView, MessagePriority, TaskPhase,
};
use crate::keyed::{Keyed, keyed_index, keyed_item, law_found_has_the_key};
use crate::master::master::{
    TaskContextView, active_brains_of, all_recorded, all_words, fast_received, is_memory,
    memory_dispatch, memory_dispatches, new_task, reasoning_dispatch, reasoning_dispatches,
    slow_begun, slow_received, slow_targets_of, sources_of, synthesis, takes_part, task_type_of,
    voice_of, voices, words_of,
};
use crate::master::weight_engine::{
    BrainWeight, BrainWeightView, Change, Deed, HEBBIAN_COUNT, PairCount, PairCountView,
    PerformanceRecordView, TaskStatsEntry, TaskStatsEntryView, WeightEngineView, all_counted,
    changes_after, counted, counts_within, engine_after, exceeds, hebbian_changes,
    law_counting_adds_one, law_deed_counts_once, law_together_is_symmetric, pair_of, pairs_of,
    pairs_with, partner_in, partners_of, stats_after, stats_before, stats_have_room, stats_of,
    strong_partners, together, weight_of, weight_rank, with_weight,
};
use crate::order::{lemma_text_less_total, lemma_text_less_transitive, text_less};
use crate::seqs::{law_sorted_is_in_order, lemma_filter_map_has, lemma_first_index, sorted_by};
use crate::shelf::{law_shelved_is_there, shelved_item};
use crate::text::{joined, lowercase_of, signed_decimal};
use crate::text_laws::{law_text_stands_in, stands_in};
use crate::walk::flat_mapped;
use crate::weights::{
    FIFTIETH, INFINITY, MINUS_ZERO, ONE, TENTH, TWENTIETH, is_number, larger_of, rank_of,
    weight_within,
};
use vstd::prelude::*;

verus! {

// ---------------------------------------------------------------------------
// Kinds of task
// ---------------------------------------------------------------------------

/// One of the words stands in the text.
pub open spec fn speaks_of(text: Seq<char>, a: Seq<char>, b: Seq<char>, c: Seq<char>) -> bool {
    stands_in(text, a) || stands_in(text, b) || stands_in(text, c)
}

/// A task that speaks of code is one of debugging, else one that speaks of
/// files one of searching, else one that speaks of changes one of editing, else
/// one that speaks of commands one of running them; any other has no kind.
pub proof fn law_kind_of_a_task(content: Seq<char>)
    ensures
        ({
            let c = lowercase_of(content);
            let kind = task_type_of(content);
            if speaks_of(c, "代码"@, "调试"@, "bug"@) {
                kind == "code_debugging"@
            } else if speaks_of(c, "搜索"@, "查找"@, "文件"@) {
                kind == "file_search"@
            } else if speaks_of(c, "修改"@, "编辑"@, "创建"@) {
                kind == "code_editing"@
            } else if speaks_of(c, "运行"@, "执行"@, "命令"@) {
                kind == "command_execution"@
            } else {
                kind == "general"@
            }
        }),
{
    let c = lowercase_of(content);
    law_text_stands_in(c, "代码"@);
    law_text_stands_in(c, "调试"@);
    law_text_stands_in(c, "bug"@);
    law_text_stands_in(c, "搜索"@);
    law_text_stands_in(c, "查找"@);
    law_text_stands_in(c, "文件"@);
    law_text_stands_in(c, "修改"@);
    law_text_stands_in(c, "编辑"@);
    law_text_stands_in(c, "创建"@);
    law_text_stands_in(c, "运行"@);
    law_text_stands_in(c, "执行"@);
    law_text_stands_in(c, "命令"@);
}

// ---------------------------------------------------------------------------
// Second thoughts
// ---------------------------------------------------------------------------

/// One more first answer makes its brain one of those that think again where it
/// asks for that, and else nothing.
pub proof fn law_who_thinks_again(fast: Seq<BrainResponseView>, r: BrainResponseView)
    ensures
        fast.len() == 0 ==> slow_targets_of(fast).len() == 0,
        slow_targets_of(fast.push(r)) == if r.need_slow_think {
            slow_targets_of(fast).push(r.from)
        } else {
            slow_targets_of(fast)
        },
{
    let p = |r: BrainResponseView| r.need_slow_think;
    let g = |r: BrainResponseView| r.from;
    reveal(Seq::filter);
    assert(fast.push(r).drop_last() =~= fast);
    assert(fast.push(r).last() == r);
    if p(r) {
        assert(fast.filter(p).push(r).map_values(g) =~= fast.filter(p).map_values(g).push(r.from));
    }
}

/// Each brain that thinks again is sent the task once, from the master and to
/// it alone, with high priority: the memory brain among the first messages, any
/// other among the second, which name the round that they belong to.
pub proof fn law_each_target_is_sent_the_task(
    targets: Seq<BrainIdView>,
    b: BrainIdView,
    content: Seq<char>,
    now: i64,
)
    ensures
        ({
            let first = memory_dispatches(targets, content, now);
            let second = reasoning_dispatches(targets, content, now);
            let first_after = memory_dispatches(targets.push(b), content, now);
            let second_after = reasoning_dispatches(targets.push(b), content, now);
            &&& targets.len() == 0 ==> first.len() == 0 && second.len() == 0
            &&& b.name == "memory"@ ==> second_after == second && first_after.len() == first.len()
                + 1 && first_after.drop_last() == first && sends_task(
                first_after.last(),
                b,
                content,
            ) && first_after.last().correlation_id is None
            &&& b.name != "memory"@ ==> first_after == first && second_after.len() == second.len()
                + 1 && second_after.drop_last() == second && sends_task(
                second_after.last(),
                b,
                content,
            ) && second_after.last().correlation_id == Some("slow-"@ + signed_decimal(now as int))
        }),
{
    let p = |b: BrainIdView| is_memory(b);
    let q = |b: BrainIdView| !is_memory(b);
    let f = |b: BrainIdView| memory_dispatch(b, content, now);
    let g = |b: BrainIdView| reasoning_dispatch(b, content, now);
    reveal(Seq::filter);
    let all = targets.push(b);
    assert(all.drop_last() =~= targets);
    assert(all.last() == b);
    assert(all.filter(p) == if p(b) { targets.filter(p).push(b) } else { targets.filter(p) });
    assert(all.filter(q) == if q(b) { targets.filter(q).push(b) } else { targets.filter(q) });
    if p(b) {
        let s = all.filter(p).map_values(f);
        assert(s =~= targets.filter(p).map_values(f).push(f(b)));
        assert(s.drop_last() =~= targets.filter(p).map_values(f));
    } else {
        let s = all.filter(q).map_values(g);
        assert(s =~= targets.filter(q).map_values(g).push(g(b)));
        assert(s.drop_last() =~= targets.filter(q).map_values(g));
    }
}

/// `m` hands the task on to `b`.
pub open spec fn sends_task(
    m: CollaborationMessageView,
    b: BrainIdView,
    content: Seq<char>,
) -> bool {
    &&& m.from.name == "master"@
    &&& m.to == seq![b]
    &&& m.content == content
    &&& m.priority == MessagePriority::High
    &&& m.kind == CollaborationKind::Dispatch
    &&& m.hop_count == 0
}

/// A task waits for second thoughts where some brain wants to think again, for
/// as many as want to; and a brain that is still at work has not answered.
pub proof fn law_second_thoughts_are_waited_for(t: TaskContextView, r: BrainResponseView)
    requires
        slow_targets_of(t.fast).len() <= usize::MAX,
    ensures
        slow_begun(t) == t <==> slow_targets_of(t.fast).len() == 0 || (t.phase
            == TaskPhase::DispatchingSlowThink && t.expected == slow_targets_of(t.fast).len()),
        slow_targets_of(t.fast).len() > 0 ==> slow_begun(t).phase == TaskPhase::DispatchingSlowThink
            && slow_begun(t).expected == slow_targets_of(t.fast).len(),
        slow_begun(t).fast == t.fast && slow_begun(t).slow == t.slow && slow_begun(t).input
            == t.input && slow_begun(t).start_at == t.start_at,
        r.result is Processing ==> slow_received(t, r) == t,
        r.result !is Processing ==> slow_received(t, r).slow == t.slow.push(r),
        fast_received(t, r).fast == t.fast.push(r),
        fast_received(t, r).slow == t.slow,
        slow_received(t, r).fast == t.fast,
        slow_received(t, r).expected == t.expected,
{
    if r.result is Processing {
        assert(slow_received(t, r) == t);
    }
}

// ---------------------------------------------------------------------------
// The answer
// ---------------------------------------------------------------------------

/// What an answer of a brain says to the user.
pub open spec fn said_by(r: BrainResponseView) -> Seq<Seq<char>> {
    match r.result {
        BrainResponsePayloadView::FastThink(f) => if f.summary is Some {
            seq![f.summary->0]
        } else {
            Seq::empty()
        },
        BrainResponsePayloadView::SlowThink(t) => seq![t.conclusion],
        BrainResponsePayloadView::MemoryRecall(entries) => Seq::new(
            entries.len(),
            |i: int| entries[i].content,
        ),
        BrainResponsePayloadView::ToolResult(output) => seq![output],
        _ => Seq::empty(),
    }
}

/// One brain more that has its say adds what its answer says, its confidence,
/// its sources and itself, behind those before it; a brain that has not
/// answered, finds the task of no concern or is still at work adds nothing.
pub proof fn law_each_voice_is_heard(
    raw_input: Seq<char>,
    responses: Seq<BrainResponseView>,
    ids: Seq<BrainIdView>,
    id: BrainIdView,
    start: i64,
    now: i64,
)
    ensures
        ({
            let before = synthesis(raw_input, responses, ids, start, now);
            let after = synthesis(raw_input, responses, ids.push(id), start, now);
            let words = all_words(voices(responses, ids));
            let more = all_words(voices(responses, ids.push(id)));
            match keyed_item::<BrainResponse>(responses, id.name) {
                Some(r) => if r.result is NotRelevant || r.result is Processing {
                    after == before && more == words
                } else {
                    &&& after.participating_brains == before.participating_brains.push(r.from)
                    &&& after.confidences == before.confidences.push(r.confidence)
                    &&& after.sources == match r.result {
                        BrainResponsePayloadView::SlowThink(t) => before.sources + t.sources,
                        _ => before.sources,
                    }
                    &&& more == words + said_by(r)
                },
                None => after == before && more == words,
            }
        }),
        ids.len() == 0 ==> all_words(voices(responses, ids)).len() == 0,
{
    let f = |id: BrainIdView| voice_of(responses, id);
    let g = |r: BrainResponseView| words_of(r);
    let h = |r: BrainResponseView| sources_of(r);
    let vs = voices(responses, ids);
    let all = voices(responses, ids.push(id));
    reveal(Seq::filter_map);
    assert(ids.push(id).drop_last() =~= ids);
    assert(ids.push(id).last() == id);
    let before = synthesis(raw_input, responses, ids, start, now);
    let after = synthesis(raw_input, responses, ids.push(id), start, now);
    match keyed_item::<BrainResponse>(responses, id.name) {
        Some(r) => {
            if takes_part(r) {
                assert(f(id) == Some(r));
                assert(all == vs.push(r));
                assert(all.drop_last() =~= vs);
                assert(after.participating_brains =~= before.participating_brains.push(r.from));
                assert(after.confidences =~= before.confidences.push(r.confidence));
                assert(flat_mapped(all, h) == flat_mapped(vs, h) + h(r));
                assert(flat_mapped(vs, h) + Seq::<KnowledgeSourceView>::empty()
                    =~= flat_mapped(vs, h));
                assert(words_of(r) =~= said_by(r));
                assert(flat_mapped(all, g) == flat_mapped(vs, g) + g(r));
            } else {
                assert(f(id) is None);
                assert(all == vs);
            }
        },
        None => {
            assert(f(id) is None);
            assert(all == vs);
        },
    }
    if ids.len() == 0 {
        assert(vs.len() == 0);
    }
}

/// Where anything is said, the answer is all of it, line below line; and the
/// task took the time from its start, if the clock did not run back.
pub proof fn law_answer_is_all_that_is_said(
    raw_input: Seq<char>,
    responses: Seq<BrainResponseView>,
    ids: Seq<BrainIdView>,
    start: i64,
    now: i64,
)
    ensures
        ({
            let r = synthesis(raw_input, responses, ids, start, now);
            let words = all_words(voices(responses, ids));
            &&& words.len() > 0 ==> r.answer == joined(words, "\n"@)
            &&& words.len() == 0 ==> stands_in(r.answer, raw_input)
            &&& now >= start ==> r.duration_ms == now - start
            &&& now < start ==> r.duration_ms == 0
        }),
{
    let r = synthesis(raw_input, responses, ids, start, now);
    if all_words(voices(responses, ids)).len() == 0 {
        let a = "收到输入「"@;
        let n = a.len() as int;
        assert(r.answer.subrange(n, n + raw_input.len()) =~= raw_input);
        assert(stands_in(r.answer, raw_input));
    }
}

// ---------------------------------------------------------------------------
// Weights
// ---------------------------------------------------------------------------

/// A brain has the weight that was set for it, and where none was set the one
/// that all have.
pub proof fn law_weight_of_a_brain(e: WeightEngineView, name: Seq<char>)
    ensures
        (forall|i: int| 0 <= i < e.weights.len() ==> (#[trigger] e.weights[i]).brain.name != name)
            ==> weight_of(e, name) == e.default_weight,
        forall|i: int|
            0 <= i < e.weights.len() && (#[trigger] e.weights[i]).brain.name == name && (forall|
                k: int,
            |
                0 <= k < i ==> (#[trigger] e.weights[k]).brain.name != name) ==> weight_of(
                e,
                name,
            ) == e.weights[i].weight,
{
    law_found_has_the_key::<BrainWeight>(e.weights, name);
    assert forall|i: int|
        0 <= i < e.weights.len() && (#[trigger] e.weights[i]).brain.name == name && (forall|
            k: int,
        |
            0 <= k < i ==> (#[trigger] e.weights[k]).brain.name != name) implies weight_of(e, name)
        == e.weights[i].weight by {
        let x = keyed_item::<BrainWeight>(e.weights, name)->0;
        assert(<BrainWeight as Keyed>::key_of(e.weights[i]) == name);
        let k = choose|k: int|
            0 <= k < e.weights.len() && #[trigger] e.weights[k] == x && forall|j: int|
                0 <= j < k ==> <BrainWeight as Keyed>::key_of(#[trigger] e.weights[j]) != name;
        assert(<BrainWeight as Keyed>::key_of(e.weights[k]) == name);
        if k < i {
            assert(e.weights[k].brain.name != name);
        }
        if i < k {
            assert(<BrainWeight as Keyed>::key_of(e.weights[i]) != name);
        }
    }
}

/// A brain that answered to the point and with confidence gains by the two
/// factors, one that had nothing to say loses by the one, and any other, and
/// one that has no weight of its own, neither gains nor loses.
pub proof fn law_deeds_change_weights(e: WeightEngineView, d: Deed)
    ensures
        ({
            let r = changes_after(e, d);
            let known = exists|i: int|
                0 <= i < e.weights.len() && (#[trigger] e.weights[i]).brain.name == d.brain.name;
            let confident = exceeds(d.confidence, d.threshold);
            &&& known && d.relevant && confident ==> r.len() == 2 && r[0].brain == d.brain
                && r[1].brain == d.brain && r[0].change == Change::Strengthen(TENTH) && r[1].change
                == Change::Strengthen(TWENTIETH)
            &&& known && !d.relevant ==> r.len() == 1 && r[0].brain == d.brain && r[0].change
                == Change::Weaken(TWENTIETH)
            &&& !known || (d.relevant && !confident) ==> r.len() == 0
        }),
        d.confidence <= d.threshold <= INFINITY ==> !exceeds(d.confidence, d.threshold),
        d.threshold < d.confidence <= INFINITY ==> exceeds(d.confidence, d.threshold),
{
    law_found_has_the_key::<BrainWeight>(e.weights, d.brain.name);
    if exists|i: int|
        0 <= i < e.weights.len() && (#[trigger] e.weights[i]).brain.name == d.brain.name {
        let i = choose|i: int|
            0 <= i < e.weights.len() && (#[trigger] e.weights[i]).brain.name == d.brain.name;
        assert(<BrainWeight as Keyed>::key_of(e.weights[i]) == d.brain.name);
    }
}

/// A deed is remembered as it was; of what is remembered the oldest goes first;
/// and the figures of its brain for its kind of task count it, the first by its
/// own confidence, and count it as relevant where it was.
pub proof fn law_deed_is_remembered(e: WeightEngineView, d: Deed)
    requires
        stats_have_room(e, 1),
        e.history.len() <= e.max_history,
    ensures
        ({
            let q = engine_after(e, d);
            let s = stats_before(e, d);
            let r = stats_of(q, d.task_type, d.brain.name);
            &&& q.weights == e.weights && q.pairs == e.pairs && q.default_weight == e.default_weight
            &&& e.max_history > 0 ==> q.history.last() == (PerformanceRecordView {
                brain_id: d.brain,
                task_type: d.task_type,
                relevant: d.relevant,
                confidence: d.confidence,
                timestamp: d.time,
            })
            &&& e.history.len() < e.max_history ==> q.history.drop_last() == e.history
            &&& e.max_history > 0 && e.history.len() == e.max_history ==> q.history.drop_last()
                == e.history.skip(1)
            &&& r is Some
            &&& (r->0).relevant_count == s.relevant_count + (if d.relevant {
                1int
            } else {
                0
            })
            &&& (r->0).total_tasks == s.total_tasks + 1
            &&& s.total_tasks == 0 ==> (r->0).avg_confidence == d.confidence
            &&& s.total_tasks > 0 ==> (r->0).avg_confidence == d.blended
            &&& stats_of(e, d.task_type, d.brain.name) is None ==> s.total_tasks == 0
                && s.relevant_count == 0
        }),
{
    let q = engine_after(e, d);
    let x = TaskStatsEntryView {
        task_type: d.task_type,
        brain: d.brain.name,
        stats: stats_after(stats_before(e, d), d),
    };
    crate::shelf::law_put_is_on_its_shelf::<TaskStatsEntry>(
        e.task_stats,
        x,
        d.task_type,
        d.brain.name,
    );
    law_deed_counts_once(e, d, d.task_type, d.brain.name);
    lemma_stats_before_fit(e, d);
    if e.history.len() < e.max_history {
        assert(q.history.drop_last() =~= e.history);
    } else if e.max_history > 0 {
        assert(q.history.drop_last() =~= e.history.skip(1));
    }
}

proof fn lemma_stats_before_fit(e: WeightEngineView, d: Deed)
    requires
        stats_have_room(e, 1),
    ensures
        stats_before(e, d).total_tasks < u32::MAX,
        stats_before(e, d).relevant_count < u32::MAX,
{
    if stats_of(e, d.task_type, d.brain.name) is Some {
        law_shelved_is_there::<TaskStatsEntry>(e.task_stats, d.task_type, d.brain.name);
        let x = shelved_item::<TaskStatsEntry>(e.task_stats, d.task_type, d.brain.name)->0;
        let i = choose|i: int| 0 <= i < e.task_stats.len() && #[trigger] e.task_stats[i] == x;
        assert(e.task_stats[i].stats.total_tasks + 1 <= u32::MAX);
    }
}

/// Each answer of a round is recorded as a deed of its brain, relevant unless
/// the brain found the task of no concern, in the order of the answers.
pub proof fn law_each_answer_is_a_deed(
    e: WeightEngineView,
    responses: Seq<BrainResponseView>,
    r: BrainResponseView,
    threshold: u64,
    task_type: Seq<char>,
    now: i64,
    blends: Seq<u64>,
    blend: u64,
)
    requires
        blends.len() == responses.len(),
    ensures
        ({
            let before = all_recorded(e, responses, threshold, task_type, now, blends);
            let after = all_recorded(
                e,
                responses.push(r),
                threshold,
                task_type,
                now,
                blends.push(blend),
            );
            let d = Deed {
                brain: r.from,
                relevant: !(r.result is NotRelevant),
                confidence: r.confidence,
                threshold,
                task_type,
                time: now,
                blended: blend,
            };
            &&& after.0 == engine_after(before.0, d)
            &&& after.1 == before.1 + changes_after(before.0, d)
            &&& responses.len() == 0 ==> before.0 == e && before.1.len() == 0
        }),
{
    assert(responses.push(r).drop_last() =~= responses);
    assert(blends.push(blend).take(responses.len() as int) =~= blends);
}

/// The brains that were active in a round are those that answered and did not
/// find the task of no concern.
pub proof fn law_who_was_active(responses: Seq<BrainResponseView>, r: BrainResponseView)
    ensures
        responses.len() == 0 ==> active_brains_of(responses).len() == 0,
        active_brains_of(responses.push(r)) == if r.result is NotRelevant {
            active_brains_of(responses)
        } else {
            active_brains_of(responses).push(r.from)
        },
{
    let p = |r: BrainResponseView| !(r.result is NotRelevant);
    let g = |r: BrainResponseView| r.from;
    reveal(Seq::filter);
    let all = responses.push(r);
    assert(all.drop_last() =~= responses);
    assert(all.last() == r);
    if p(r) {
        assert(all.filter(p).map_values(g) =~= responses.filter(p).map_values(g).push(r.from));
    }
}

/// Brains that were active together are counted as pairs, each with each that
/// stands behind it and no pair twice.
pub proof fn law_each_pair_once(names: Seq<Seq<char>>)
    ensures
        2 * pairs_of(names).len() == names.len() * (names.len() - 1),
        forall|i: int, j: int|
            0 <= i < j < names.len() ==> pairs_of(names).contains(
                (#[trigger] names[i], #[trigger] names[j]),
            ),
    decreases names.len(),
{
    if names.len() > 0 {
        let rest = names.skip(1);
        let first = pairs_with(names[0], rest);
        let more = pairs_of(rest);
        law_each_pair_once(rest);
        let n = names.len() as int;
        assert(2 * (n - 1) + (n - 1) * (n - 2) == n * (n - 1)) by (nonlinear_arith);
        assert(pairs_of(names) == first + more);
        assert forall|i: int, j: int| 0 <= i < j < names.len() implies pairs_of(names).contains(
            (#[trigger] names[i], #[trigger] names[j]),
        ) by {
            if i == 0 {
                assert(first[j - 1] == (names[0], names[j]));
                assert((first + more)[j - 1] == (names[i], names[j]));
            } else {
                assert(rest[i - 1] == names[i] && rest[j - 1] == names[j]);
                assert(more.contains((rest[i - 1], rest[j - 1])));
                let k = choose|k: int|
                    0 <= k < more.len() && more[k] == (rest[i - 1], rest[j - 1]);
                assert((first + more)[first.len() + k] == (names[i], names[j]));
            }
        }
    }
}

/// The partners of a brain are those that were counted with it, on either side
/// of the pair, each with its count; those counted often make it gain, no more
/// than three of them.
pub proof fn law_partners_are_counted(m: Seq<PairCountView>, name: Seq<char>, b: BrainIdView, n: u32)
    ensures
        partners_of(m, name).contains((b, n)) <==> exists|i: int|
            0 <= i < m.len() && (#[trigger] m[i]).count == n && ((m[i].first == name && m[i].second
                == b.name) || (m[i].first != name && m[i].second == name && m[i].first == b.name)),
        strong_partners(m, name) <= 3,
        (exists|c: BrainIdView, k: u32| k >= 3 && #[trigger] partners_of(m, name).contains((c, k)))
            <==> strong_partners(m, name) > 0,
{
    let f = |x: PairCountView| partner_in(x, name);
    let ps = partners_of(m, name);
    lemma_filter_map_has(m, f, (b, n));
    if exists|i: int| 0 <= i < m.len() && f(#[trigger] m[i]) == Some((b, n)) {
        let i = choose|i: int| 0 <= i < m.len() && f(#[trigger] m[i]) == Some((b, n));
        assert(m[i].count == n);
    }
    if exists|i: int|
        0 <= i < m.len() && (#[trigger] m[i]).count == n && ((m[i].first == name && m[i].second
            == b.name) || (m[i].first != name && m[i].second == name && m[i].first == b.name)) {
        let i = choose|i: int|
            0 <= i < m.len() && (#[trigger] m[i]).count == n && ((m[i].first == name
                && m[i].second == b.name) || (m[i].first != name && m[i].second == name
                && m[i].first == b.name));
        assert(f(m[i]) == Some((b, n)));
    }
    let q = |p: (BrainIdView, u32)| p.1 >= HEBBIAN_COUNT;
    let strong = ps.filter(q);
    if strong.len() > 0 {
        let k = crate::seqs::lemma_filter_from(ps, q, 0);
        let (c, x) = ps[k];
        assert(ps.contains((c, x)));
    }
    if exists|c: BrainIdView, k: u32| k >= 3 && #[trigger] partners_of(m, name).contains((c, k)) {
        let (c, k) = choose|c: BrainIdView, k: u32|
            k >= 3 && #[trigger] partners_of(m, name).contains((c, k));
        crate::seqs::lemma_filter_has(ps, q, (c, k));
        assert(strong.contains((c, k)));
    }
}

/// A weight that is set is kept between a tenth and one.
pub proof fn law_weights_stay_within(bits: u64)
    requires
        is_number(bits),
    ensures
        TENTH <= weight_within(bits) <= ONE,
        rank_of(TENTH) <= rank_of(bits) <= rank_of(ONE) ==> weight_within(bits) == bits,
        rank_of(bits) < rank_of(TENTH) ==> weight_within(bits) == TENTH,
        rank_of(ONE) < rank_of(bits) ==> weight_within(bits) == ONE,
{
}

/// Numbers are ranked by their size: those below nought below those above it,
/// and of two on one side of it the one further from it further out.
pub proof fn law_ranks_are_by_size(a: u64, b: u64)
    requires
        is_number(a),
        is_number(b),
    ensures
        a < MINUS_ZERO && b < MINUS_ZERO ==> (rank_of(a) <= rank_of(b) <==> a <= b),
        a >= MINUS_ZERO && b >= MINUS_ZERO ==> (rank_of(a) <= rank_of(b) <==> a >= b),
        a >= MINUS_ZERO && b < MINUS_ZERO ==> rank_of(a) <= rank_of(b),
        a >= MINUS_ZERO ==> rank_of(a) == -rank_of((a - MINUS_ZERO) as u64),
        larger_of(a, b) == a || larger_of(a, b) == b,
        rank_of(larger_of(a, b)) >= rank_of(a) && rank_of(larger_of(a, b)) >= rank_of(b),
{
}

/// How often `x` and `y` are a pair among `pairs`, in either order.
pub open spec fn times_paired(
    pairs: Seq<(Seq<char>, Seq<char>)>,
    x: Seq<char>,
    y: Seq<char>,
) -> nat
    decreases pairs.len(),
{
    if pairs.len() == 0 {
        0
    } else {
        let p = pairs.last();
        times_paired(pairs.drop_last(), x, y) + if (p.0 == x && p.1 == y) || (p.0 == y && p.1 == x) {
            1nat
        } else {
            0
        }
    }
}

proof fn lemma_same_pair(a: Seq<char>, b: Seq<char>, x: Seq<char>, y: Seq<char>)
    ensures
        pair_of(x, y) == pair_of(a, b) <==> (a == x && b == y) || (a == y && b == x),
{
    lemma_text_less_total(a, b);
    if text_less(a, b) && text_less(b, a) {
        lemma_text_less_transitive(a, b, a);
        crate::order::lemma_text_less_irreflexive(a);
    }
}

/// A pair names its two brains in order, whichever was named first.
pub proof fn law_pairs_are_in_order(a: Seq<char>, b: Seq<char>)
    ensures
        !text_less(pair_of(a, b).1, pair_of(a, b).0),
        pair_of(a, b) == (a, b) || pair_of(a, b) == (b, a),
        pair_of(a, b) == pair_of(b, a),
{
    lemma_same_pair(a, b, b, a);
    if text_less(a, b) && text_less(b, a) {
        lemma_text_less_transitive(a, b, a);
        crate::order::lemma_text_less_irreflexive(a);
    }
}

/// Each time that two brains are active together counts, and nothing else
/// does.
pub proof fn law_times_together_are_counted(
    m: Seq<PairCountView>,
    pairs: Seq<(Seq<char>, Seq<char>)>,
    x: Seq<char>,
    y: Seq<char>,
)
    requires
        counts_within(m, u32::MAX - pairs.len()),
        pairs.len() <= u32::MAX,
    ensures
        together(all_counted(m, pairs), x, y) == together(m, x, y) + times_paired(pairs, x, y),
        times_paired(pairs, x, y) <= pairs.len(),
    decreases pairs.len(),
{
    if pairs.len() > 0 {
        let rest = pairs.drop_last();
        let (a, b) = pairs.last();
        law_times_together_are_counted(m, rest, x, y);
        law_times_together_are_counted(m, rest, a, b);
        let before = all_counted(m, rest);
        let p = pair_of(a, b);
        law_shelved_is_there::<PairCount>(m, p.0, p.1);
        if let Some(c) = shelved_item::<PairCount>(m, p.0, p.1) {
            let i = choose|i: int| 0 <= i < m.len() && #[trigger] m[i] == c;
            assert(m[i].count <= u32::MAX - pairs.len());
        }
        assert(together(before, a, b) < u32::MAX);
        law_counting_adds_one(before, a, b, x, y);
        law_together_is_symmetric(counted(before, a, b), a, b);
        law_together_is_symmetric(before, a, b);
        lemma_same_pair(a, b, x, y);
    }
}

/// A brain with a weight of its own gains a little for each of its strong
/// partners, and one without gains nothing.
pub proof fn law_strong_partners_strengthen(
    m: Seq<PairCountView>,
    weights: Seq<BrainWeightView>,
    b: BrainIdView,
    i: int,
)
    ensures
        (exists|k: int| 0 <= k < weights.len() && (#[trigger] weights[k]).brain.name == b.name)
            ==> hebbian_changes(m, weights, b).len() == strong_partners(m, b.name),
        (forall|k: int| 0 <= k < weights.len() ==> (#[trigger] weights[k]).brain.name != b.name)
            ==> hebbian_changes(m, weights, b).len() == 0,
        0 <= i < hebbian_changes(m, weights, b).len() ==> hebbian_changes(m, weights, b)[i].brain
            == b && hebbian_changes(m, weights, b)[i].change == Change::Strengthen(FIFTIETH),
{
    law_found_has_the_key::<BrainWeight>(weights, b.name);
    if exists|k: int| 0 <= k < weights.len() && (#[trigger] weights[k]).brain.name == b.name {
        let k = choose|k: int|
            0 <= k < weights.len() && (#[trigger] weights[k]).brain.name == b.name;
        assert(<BrainWeight as Keyed>::key_of(weights[k]) == b.name);
    }
}

/// Sorted by weight, no brain stands before a heavier one, all are there, and
/// those of one weight keep their order.
pub proof fn law_heavier_brains_first(
    e: WeightEngineView,
    ids: Seq<BrainIdView>,
    r: Seq<BrainIdView>,
)
    requires
        sorted_by(ids, weight_rank(e), true, r),
    ensures
        r.len() == ids.len(),
        forall|b: BrainIdView| r.contains(b) <==> ids.contains(b),
        forall|i: int, j: int|
            0 <= i < j < r.len() ==> rank_of(weight_of(e, (#[trigger] r[i]).name)) >= rank_of(
                weight_of(e, (#[trigger] r[j]).name),
            ),
{
    law_sorted_is_in_order(ids, weight_rank(e), true, r);
    let key = weight_rank(e);
    assert forall|i: int, j: int| 0 <= i < j < r.len() implies rank_of(
        weight_of(e, (#[trigger] r[i]).name),
    ) >= rank_of(weight_of(e, (#[trigger] r[j]).name)) by {
        assert(key(r[i]) >= key(r[j]));
    }
}

/// A task begins with its input and its start, and with no answers.
pub proof fn law_task_begins(input: BroadcastMessageView, start: i64)
    ensures
        ({
            let t = new_task(input, start);
            &&& t.input == input && t.start_at == start && t.phase == TaskPhase::WaitingFastThink
            &&& t.fast.len() == 0 && t.slow.len() == 0 && t.brain_responses.len() == 0
            &&& t.expected == 0
        }),
{
}

/// Setting a weight sets it, within the limits, for the brain where it has one
/// of its own, and for no other; a brain without one keeps what all have.
pub proof fn law_weight_is_set(e: WeightEngineView, name: Seq<char>, weight: u64, other: Seq<char>)
    requires
        is_number(weight),
    ensures
        ({
            let r = with_weight(e, name, weight);
            &&& (exists|i: int| 0 <= i < e.weights.len() && (#[trigger] e.weights[i]).brain.name
                == name) ==> weight_of(r, name) == weight_within(weight)
            &&& other != name ==> weight_of(r, other) == weight_of(e, other)
            &&& r.default_weight == e.default_weight && r.pairs == e.pairs && r.history == e.history
            &&& r.weights.len() == e.weights.len()
        }),
{
    let r = with_weight(e, name, weight);
    let q = crate::keyed::with_key::<BrainWeight>(name);
    lemma_first_index(e.weights, q);
    match keyed_index::<BrainWeight>(e.weights, name) {
        Some(i) => {
            let x = BrainWeightView { weight: weight_within(weight), ..e.weights[i] };
            assert(q(e.weights[i]));
            assert(<BrainWeight as Keyed>::key_of(x) == name);
            assert(r.weights == crate::keyed::keyed_put::<BrainWeight>(e.weights, x));
            crate::keyed::law_put_is_found::<BrainWeight>(e.weights, x, other);
        },
        None => {
            assert forall|i: int| 0 <= i < e.weights.len() implies (
            #[trigger] e.weights[i]).brain.name != name by {
                assert(!q(e.weights[i]));
            }
        },
    }
}

} // verus!
