//! The brain that judges: it gathers what the others say, sends some of them to
//! think it over, and puts an answer together.

use crate::brains::{
    BrainId, BrainIdView, BrainResponse, BrainResponsePayload, BrainResponsePayloadView,
    BrainResponseView, BroadcastMessage, BroadcastMessageView, CollaborationKind,
    CollaborationMessage, CollaborationMessageView, KnowledgeSource, KnowledgeSourceView,
    MemoryEntry, MemoryEntryView, MessagePriority, TaskPhase,
};
use crate::keyed::{get_keyed, keyed_item, keyed_put, keyed_put_all, put_all, put_keyed, Keyed};
use crate::master::weight_engine::{
    all_counted, changes_after, counts_within, engine_after, hebbian_of, names_of, pairs_of,
    stats_have_room, weight_rank, weights_are_numbers, BrainWeight, Deed, WeightChange,
    WeightChangeView, WeightEngine, WeightEngineView,
};
use crate::replicate::Replicate;
use crate::seqs::{lemma_first_index, lemma_take_all, lemma_take_step, sorted_by};
use crate::text::{
    contains, has_text, join, joined, lowercase_of, same, signed_decimal, signed_number,
};
use crate::walk::{
    append_all, filter_each, filter_map_each, flat_map_each, flat_mapped, map_each, no_items,
    push_one,
};
use vstd::prelude::*;

verus! {

/// How long the first thoughts are waited for, in milliseconds.
pub const FAST_THINK_TIMEOUT: u64 = 5_000;

/// How long what was thought over is waited for, in milliseconds.
pub const SLOW_THINK_TIMEOUT: u64 = 60_000;

/// How long the memory brain gets before the others are sent to think, in
/// milliseconds.
pub const RECALL_WINDOW: u64 = 500;

impl Keyed for BrainResponse {
    open spec fn key_of(v: BrainResponseView) -> Seq<char> {
        v.from.name
    }

    fn key(&self) -> (r: &str) {
        self.from.name.as_str()
    }
}

// ---------------------------------------------------------------------------
// Kinds of task
// ---------------------------------------------------------------------------

/// The kind of task that a text is about.
pub open spec fn task_type_of(content: Seq<char>) -> Seq<char> {
    let c = lowercase_of(content);
    if has_text(c, "代码"@) || has_text(c, "调试"@) || has_text(c, "bug"@) {
        "code_debugging"@
    } else if has_text(c, "搜索"@) || has_text(c, "查找"@) || has_text(c, "文件"@) {
        "file_search"@
    } else if has_text(c, "修改"@) || has_text(c, "编辑"@) || has_text(c, "创建"@) {
        "code_editing"@
    } else if has_text(c, "运行"@) || has_text(c, "执行"@) || has_text(c, "命令"@) {
        "command_execution"@
    } else {
        "general"@
    }
}

/// The kind of task that a text is about.
pub fn infer_task_type(content: &str) -> (r: String)
    ensures
        r@ == task_type_of(content@),
{
    let low = content.to_lowercase();
    let c = low.as_str();
    if contains(c, "代码") || contains(c, "调试") || contains(c, "bug") {
        "code_debugging".to_owned()
    } else if contains(c, "搜索") || contains(c, "查找") || contains(c, "文件") {
        "file_search".to_owned()
    } else if contains(c, "修改") || contains(c, "编辑") || contains(c, "创建") {
        "code_editing".to_owned()
    } else if contains(c, "运行") || contains(c, "执行") || contains(c, "命令") {
        "command_execution".to_owned()
    } else {
        "general".to_owned()
    }
}

// ---------------------------------------------------------------------------
// Thinking it over
// ---------------------------------------------------------------------------

/// The brains that ask to think it over.
pub open spec fn slow_targets_of(fast: Seq<BrainResponseView>) -> Seq<BrainIdView> {
    fast.filter(|r: BrainResponseView| r.need_slow_think).map_values(
        |r: BrainResponseView| r.from,
    )
}

/// The brains that ask to think it over.
pub fn slow_targets(fast: &Vec<BrainResponse>) -> (r: Vec<BrainId>)
    ensures
        r.deep_view() == slow_targets_of(fast.deep_view()),
{
    let f = |r: &BrainResponse| -> (b: bool)
        ensures b == r.deep_view().need_slow_think
    {
        r.need_slow_think
    };
    let asking = filter_each(
        fast.as_slice(),
        f,
        Ghost(|r: BrainResponseView| r.need_slow_think),
    );
    let g = |r: &BrainResponse| -> (b: BrainId)
        ensures b.deep_view() == r.deep_view().from
    {
        r.from.replicate()
    };
    map_each(asking.as_slice(), g, Ghost(|r: BrainResponseView| r.from))
}

/// The word to the memory brain to think it over.
pub open spec fn memory_dispatch(
    target: BrainIdView,
    content: Seq<char>,
    now: i64,
) -> CollaborationMessageView {
    CollaborationMessageView {
        id: "slow-mem-"@ + signed_decimal(now as int) + "-"@ + target.name,
        from: BrainIdView { name: "master"@ },
        to: seq![target],
        correlation_id: None,
        hop_count: 0,
        priority: MessagePriority::High,
        content,
        kind: CollaborationKind::Dispatch,
    }
}

/// The word to another brain to think it over.
pub open spec fn reasoning_dispatch(
    target: BrainIdView,
    content: Seq<char>,
    now: i64,
) -> CollaborationMessageView {
    CollaborationMessageView {
        id: "slow-reas-"@ + signed_decimal(now as int) + "-"@ + target.name,
        correlation_id: Some("slow-"@ + signed_decimal(now as int)),
        ..memory_dispatch(target, content, now)
    }
}

/// The memory brain.
pub open spec fn is_memory(b: BrainIdView) -> bool {
    b.name == "memory"@
}

/// The words to the memory brain.
pub open spec fn memory_dispatches(
    targets: Seq<BrainIdView>,
    content: Seq<char>,
    now: i64,
) -> Seq<CollaborationMessageView> {
    targets.filter(|b: BrainIdView| is_memory(b)).map_values(
        |b: BrainIdView| memory_dispatch(b, content, now),
    )
}

/// The words to the other brains.
pub open spec fn reasoning_dispatches(
    targets: Seq<BrainIdView>,
    content: Seq<char>,
    now: i64,
) -> Seq<CollaborationMessageView> {
    targets.filter(|b: BrainIdView| !is_memory(b)).map_values(
        |b: BrainIdView| reasoning_dispatch(b, content, now),
    )
}

fn make_dispatch(
    prefix: &str,
    target: &BrainId,
    content: &str,
    correlation_id: Option<String>,
    now: i64,
) -> (r: CollaborationMessage)
    ensures
        r.deep_view() == (CollaborationMessageView {
            id: prefix@ + signed_decimal(now as int) + "-"@ + target.deep_view().name,
            correlation_id: correlation_id.deep_view(),
            ..memory_dispatch(target.deep_view(), content@, now)
        }),
{
    let mut id = prefix.to_owned();
    let n = signed_number(now);
    id.append(n.as_str());
    id.append("-");
    id.append(target.name.as_str());
    let mut to: Vec<BrainId> = no_items();
    push_one(&mut to, target.replicate());
    assert(to.deep_view() =~= seq![target.deep_view()]);
    CollaborationMessage {
        id,
        from: BrainId::master(),
        to,
        correlation_id,
        hop_count: 0,
        priority: MessagePriority::High,
        content: content.to_owned(),
        kind: CollaborationKind::Dispatch,
    }
}

/// The words to brains to think it over: those to the memory brain, which goes
/// first, and those to the others.
pub fn dispatch_slow_think(
    targets: &Vec<BrainId>,
    broadcast: &BroadcastMessage,
    now: i64,
) -> (r: (Vec<CollaborationMessage>, Vec<CollaborationMessage>))
    ensures
        r.0.deep_view() == memory_dispatches(
            targets.deep_view(),
            broadcast.deep_view().content,
            now,
        ),
        r.1.deep_view() == reasoning_dispatches(
            targets.deep_view(),
            broadcast.deep_view().content,
            now,
        ),
{
    let ghost content = broadcast.deep_view().content;
    let f = |b: &BrainId| -> (r: bool)
        ensures r == is_memory(b.deep_view())
    {
        same(b.name.as_str(), "memory")
    };
    let memory = filter_each(targets.as_slice(), f, Ghost(|b: BrainIdView| is_memory(b)));
    let g = |b: &BrainId| -> (r: bool)
        ensures r == !is_memory(b.deep_view())
    {
        !same(b.name.as_str(), "memory")
    };
    let others = filter_each(targets.as_slice(), g, Ghost(|b: BrainIdView| !is_memory(b)));
    let m = |b: &BrainId| -> (r: CollaborationMessage)
        ensures
            r.deep_view() == memory_dispatch(b.deep_view(), broadcast.deep_view().content, now)
    {
        make_dispatch("slow-mem-", b, broadcast.content.as_str(), None, now)
    };
    let first = map_each(
        memory.as_slice(),
        m,
        Ghost(|b: BrainIdView| memory_dispatch(b, content, now)),
    );
    let o = |b: &BrainId| -> (r: CollaborationMessage)
        ensures
            r.deep_view() == reasoning_dispatch(b.deep_view(), broadcast.deep_view().content, now)
    {
        let mut c = "slow-".to_owned();
        let n = signed_number(now);
        c.append(n.as_str());
        make_dispatch("slow-reas-", b, broadcast.content.as_str(), Some(c), now)
    };
    let second = map_each(
        others.as_slice(),
        o,
        Ghost(|b: BrainIdView| reasoning_dispatch(b, content, now)),
    );
    (first, second)
}

/// What brains said, with what they thought over in place of their first
/// thoughts: of each brain the last answer counts.
pub open spec fn merged_responses(
    fast: Seq<BrainResponseView>,
    slow: Seq<BrainResponseView>,
) -> Seq<BrainResponseView> {
    keyed_put_all::<BrainResponse>(
        keyed_put_all::<BrainResponse>(Seq::empty(), fast),
        slow,
    )
}

/// What brains said, with what they thought over in place of their first
/// thoughts.
pub fn merge_responses(fast: &Vec<BrainResponse>, slow: &Vec<BrainResponse>) -> (r: Vec<
    BrainResponse,
>)
    ensures
        r.deep_view() == merged_responses(fast.deep_view(), slow.deep_view()),
{
    let mut r: Vec<BrainResponse> = no_items();
    put_all(&mut r, fast);
    put_all(&mut r, slow);
    r
}

// ---------------------------------------------------------------------------
// The answer
// ---------------------------------------------------------------------------

/// An answer that has something to say.
pub open spec fn takes_part(r: BrainResponseView) -> bool {
    !(r.result is NotRelevant) && !(r.result is Processing)
}

/// What an answer adds to the words.
pub open spec fn words_of(r: BrainResponseView) -> Seq<Seq<char>> {
    match r.result {
        BrainResponsePayloadView::FastThink(f) => match f.summary {
            Some(s) => seq![s],
            None => Seq::empty(),
        },
        BrainResponsePayloadView::SlowThink(t) => seq![t.conclusion],
        BrainResponsePayloadView::MemoryRecall(entries) => entries.map_values(
            |e: MemoryEntryView| e.content,
        ),
        BrainResponsePayloadView::ToolResult(output) => seq![output],
        _ => Seq::empty(),
    }
}

/// What an answer comes from.
pub open spec fn sources_of(r: BrainResponseView) -> Seq<KnowledgeSourceView> {
    match r.result {
        BrainResponsePayloadView::SlowThink(t) => t.sources,
        _ => Seq::empty(),
    }
}

/// The answer of a brain, where it has something to say.
pub open spec fn voice_of(responses: Seq<BrainResponseView>, id: BrainIdView) -> Option<
    BrainResponseView,
> {
    match keyed_item::<BrainResponse>(responses, id.name) {
        Some(r) => if takes_part(r) {
            Some(r)
        } else {
            None
        },
        None => None,
    }
}

/// The answers that have something to say, in the order of the brains.
pub open spec fn voices(responses: Seq<BrainResponseView>, ids: Seq<BrainIdView>) -> Seq<
    BrainResponseView,
> {
    ids.filter_map(|id: BrainIdView| voice_of(responses, id))
}

/// The words of all answers.
pub open spec fn all_words(vs: Seq<BrainResponseView>) -> Seq<Seq<char>> {
    flat_mapped(vs, |r: BrainResponseView| words_of(r))
}

/// The answer to the user.
#[derive(Debug, PartialEq)]
pub struct MasterOutput {
    pub answer: String,
    /// The bits of the confidences whose mean is the confidence of the answer.
    pub confidences: Vec<u64>,
    pub sources: Vec<KnowledgeSource>,
    pub participating_brains: Vec<BrainId>,
    pub duration_ms: u64,
}

/// What the answer is.
#[verifier::ext_equal]
pub struct MasterOutputView {
    pub answer: Seq<char>,
    pub confidences: Seq<u64>,
    pub sources: Seq<KnowledgeSourceView>,
    pub participating_brains: Seq<BrainIdView>,
    pub duration_ms: u64,
}

impl DeepView for MasterOutput {
    type V = MasterOutputView;

    open spec fn deep_view(&self) -> MasterOutputView {
        MasterOutputView {
            answer: self.answer@,
            confidences: self.confidences.deep_view(),
            sources: self.sources.deep_view(),
            participating_brains: self.participating_brains.deep_view(),
            duration_ms: self.duration_ms,
        }
    }
}

/// How long a task took.
pub open spec fn duration_between(start: i64, now: i64) -> u64 {
    if now > start {
        (now - start) as u64
    } else {
        0
    }
}

/// The answer that is put together of what brains said.
pub open spec fn synthesis(
    raw_input: Seq<char>,
    responses: Seq<BrainResponseView>,
    ids: Seq<BrainIdView>,
    start: i64,
    now: i64,
) -> MasterOutputView {
    let vs = voices(responses, ids);
    let words = all_words(vs);
    MasterOutputView {
        answer: if words.len() == 0 {
            "收到输入「"@ + raw_input + "」，但没有副脑给出相关响应。"@
        } else {
            joined(words, "\n"@)
        },
        confidences: vs.map_values(|r: BrainResponseView| r.confidence),
        sources: flat_mapped(vs, |r: BrainResponseView| sources_of(r)),
        participating_brains: vs.map_values(|r: BrainResponseView| r.from),
        duration_ms: duration_between(start, now),
    }
}

fn has_part(r: &BrainResponse) -> (b: bool)
    ensures
        b == takes_part(r.deep_view()),
{
    match r.result {
        BrainResponsePayload::NotRelevant { .. } => false,
        BrainResponsePayload::Processing => false,
        _ => true,
    }
}

fn make_words(r: &BrainResponse) -> (w: Vec<String>)
    ensures
        w.deep_view() == words_of(r.deep_view()),
{
    let mut w: Vec<String> = no_items();
    match &r.result {
        BrainResponsePayload::FastThink(f) => {
            if let Some(s) = &f.summary {
                push_one(&mut w, s.clone());
            }
        },
        BrainResponsePayload::SlowThink(t) => {
            push_one(&mut w, t.conclusion.clone());
        },
        BrainResponsePayload::MemoryRecall(entries) => {
            let f = |e: &MemoryEntry| -> (c: String)
                ensures c.deep_view() == e.deep_view().content
            {
                e.content.clone()
            };
            return map_each(entries.as_slice(), f, Ghost(|e: MemoryEntryView| e.content));
        },
        BrainResponsePayload::ToolResult(output) => {
            push_one(&mut w, output.clone());
        },
        _ => {},
    }
    assert(w.deep_view() =~= words_of(r.deep_view()));
    w
}

fn make_sources(r: &BrainResponse) -> (s: Vec<KnowledgeSource>)
    ensures
        s.deep_view() == sources_of(r.deep_view()),
{
    match &r.result {
        BrainResponsePayload::SlowThink(t) => t.sources.replicate(),
        _ => no_items(),
    }
}

fn find_voice(responses: &Vec<BrainResponse>, id: &BrainId) -> (r: Option<BrainResponse>)
    ensures
        r.deep_view() == voice_of(responses.deep_view(), id.deep_view()),
{
    match get_keyed(responses, id.name.as_str()) {
        Some(r) => if has_part(&r) {
            Some(r)
        } else {
            None
        },
        None => None,
    }
}

/// Puts an answer together of what brains said, in the order of the brains.
pub fn synthesize(
    broadcast: &BroadcastMessage,
    responses: &Vec<BrainResponse>,
    sorted_ids: &Vec<BrainId>,
    start: i64,
    now: i64,
) -> (r: MasterOutput)
    ensures
        r.deep_view() == synthesis(
            broadcast.deep_view().raw_input,
            responses.deep_view(),
            sorted_ids.deep_view(),
            start,
            now,
        ),
{
    let ghost rs = responses.deep_view();
    let v = |id: &BrainId| -> (r: Option<BrainResponse>)
        ensures r.deep_view() == voice_of(responses.deep_view(), id.deep_view())
    {
        find_voice(responses, id)
    };
    let vs = filter_map_each(
        sorted_ids.as_slice(),
        v,
        Ghost(|id: BrainIdView| voice_of(rs, id)),
    );
    let items = vs.as_slice();
    assert(items.deep_view() =~= vs.deep_view());
    let w = |r: &BrainResponse| -> (x: Vec<String>)
        ensures x.deep_view() == words_of(r.deep_view())
    {
        make_words(r)
    };
    let words = flat_map_each(items, w, Ghost(|r: BrainResponseView| words_of(r)));
    let c = |r: &BrainResponse| -> (x: u64)
        ensures x == r.deep_view().confidence
    {
        r.confidence
    };
    let confidences = map_each(items, c, Ghost(|r: BrainResponseView| r.confidence));
    let s = |r: &BrainResponse| -> (x: Vec<KnowledgeSource>)
        ensures x.deep_view() == sources_of(r.deep_view())
    {
        make_sources(r)
    };
    let sources = flat_map_each(items, s, Ghost(|r: BrainResponseView| sources_of(r)));
    let p = |r: &BrainResponse| -> (x: BrainId)
        ensures x.deep_view() == r.deep_view().from
    {
        r.from.replicate()
    };
    let participating_brains = map_each(items, p, Ghost(|r: BrainResponseView| r.from));
    assert(words.deep_view().len() == words@.len());
    let answer = if words.len() == 0 {
        let mut t = "收到输入「".to_owned();
        t.append(broadcast.raw_input.as_str());
        t.append("」，但没有副脑给出相关响应。");
        t
    } else {
        join(words.as_slice(), "\n")
    };
    let duration_ms: u64 = if now > start {
        (now as i128 - start as i128) as u64
    } else {
        0
    };
    MasterOutput { answer, confidences, sources, participating_brains, duration_ms }
}

// ---------------------------------------------------------------------------
// A task
// ---------------------------------------------------------------------------

/// The task at hand.
#[derive(Debug, PartialEq)]
pub struct TaskContext {
    pub input: BroadcastMessage,
    pub start_at: i64,
    pub phase: TaskPhase,
    /// The first thoughts, as they came in.
    pub fast: Vec<BrainResponse>,
    /// What was thought over, as it came in.
    pub slow: Vec<BrainResponse>,
    /// How many brains were sent to think it over.
    pub expected: usize,
    /// The last answer of each brain.
    pub brain_responses: Vec<BrainResponse>,
}

/// What the task is.
#[verifier::ext_equal]
pub struct TaskContextView {
    pub input: BroadcastMessageView,
    pub start_at: i64,
    pub phase: TaskPhase,
    pub fast: Seq<BrainResponseView>,
    pub slow: Seq<BrainResponseView>,
    pub expected: usize,
    pub brain_responses: Seq<BrainResponseView>,
}

impl DeepView for TaskContext {
    type V = TaskContextView;

    open spec fn deep_view(&self) -> TaskContextView {
        TaskContextView {
            input: self.input.deep_view(),
            start_at: self.start_at,
            phase: self.phase,
            fast: self.fast.deep_view(),
            slow: self.slow.deep_view(),
            expected: self.expected,
            brain_responses: self.brain_responses.deep_view(),
        }
    }
}

impl Replicate for TaskContext {
    fn replicate(&self) -> (r: Self) {
        TaskContext {
            input: self.input.replicate(),
            start_at: self.start_at,
            phase: self.phase,
            fast: self.fast.replicate(),
            slow: self.slow.replicate(),
            expected: self.expected,
            brain_responses: self.brain_responses.replicate(),
        }
    }
}

/// A task that has just begun.
pub open spec fn new_task(input: BroadcastMessageView, start: i64) -> TaskContextView {
    TaskContextView {
        input,
        start_at: start,
        phase: TaskPhase::WaitingFastThink,
        fast: Seq::empty(),
        slow: Seq::empty(),
        expected: 0,
        brain_responses: Seq::empty(),
    }
}

/// The task with a first thought more.
pub open spec fn fast_received(t: TaskContextView, r: BrainResponseView) -> TaskContextView {
    TaskContextView {
        fast: t.fast.push(r),
        brain_responses: keyed_put::<BrainResponse>(t.brain_responses, r),
        ..t
    }
}

/// The task once it is known who thinks it over.
pub open spec fn slow_begun(t: TaskContextView) -> TaskContextView {
    let targets = slow_targets_of(t.fast);
    if targets.len() == 0 {
        t
    } else {
        TaskContextView {
            phase: TaskPhase::DispatchingSlowThink,
            expected: targets.len() as usize,
            ..t
        }
    }
}

/// The task with something thought over more. Word that a brain is at work is
/// not kept.
pub open spec fn slow_received(t: TaskContextView, r: BrainResponseView) -> TaskContextView {
    if r.result is Processing {
        t
    } else {
        TaskContextView {
            slow: t.slow.push(r),
            brain_responses: keyed_put::<BrainResponse>(t.brain_responses, r),
            ..t
        }
    }
}

/// Who did what in a task: each answer as a deed.
pub open spec fn deed_of(
    r: BrainResponseView,
    threshold: u64,
    task_type: Seq<char>,
    now: i64,
    blended: u64,
) -> Deed {
    Deed {
        brain: r.from,
        relevant: !(r.result is NotRelevant),
        confidence: r.confidence,
        threshold,
        task_type,
        time: now,
        blended,
    }
}

/// The engine after the answers were recorded as deeds, and how weights change.
pub open spec fn all_recorded(
    e: WeightEngineView,
    responses: Seq<BrainResponseView>,
    threshold: u64,
    task_type: Seq<char>,
    now: i64,
    blends: Seq<u64>,
) -> (WeightEngineView, Seq<WeightChangeView>)
    decreases responses.len(),
{
    if responses.len() == 0 {
        (e, Seq::empty())
    } else {
        let n = responses.len() - 1;
        let before = all_recorded(
            e,
            responses.drop_last(),
            threshold,
            task_type,
            now,
            blends.take(n),
        );
        let d = deed_of(responses.last(), threshold, task_type, now, blends[n]);
        (engine_after(before.0, d), before.1 + changes_after(before.0, d))
    }
}

/// The brains that had something to do with the task.
pub open spec fn active_brains_of(responses: Seq<BrainResponseView>) -> Seq<BrainIdView> {
    responses.filter(|r: BrainResponseView| !(r.result is NotRelevant)).map_values(
        |r: BrainResponseView| r.from,
    )
}

/// The brain that judges.
pub struct MasterBrain {
    pub weights: WeightEngine,
    pub task: Option<TaskContext>,
}

proof fn lemma_room_after(e: WeightEngineView, d: Deed, n: int)
    requires
        stats_have_room(e, n),
        n >= 1,
    ensures
        stats_have_room(engine_after(e, d), n - 1),
{
    lemma_first_index(
        e.task_stats,
        crate::shelf::shelved_at::<crate::master::weight_engine::TaskStatsEntry>(
            d.task_type,
            d.brain.name,
        ),
    );
    let after = engine_after(e, d).task_stats;
    assert forall|i: int| 0 <= i < after.len() implies (#[trigger] after[i]).stats.total_tasks + (n
        - 1) <= u32::MAX && after[i].stats.relevant_count + (n - 1) <= u32::MAX by {
        if i < e.task_stats.len() {
            assert(e.task_stats[i].stats.total_tasks + n <= u32::MAX);
        }
    }
}

impl MasterBrain {
    /// A brain with these weights and no task.
    pub fn new(weights: WeightEngine) -> (r: Self)
        ensures
            r.weights == weights,
            r.task is None,
    {
        MasterBrain { weights, task: None }
    }

    /// The weights of the other brains.
    pub fn get_weights(&self) -> (r: &Vec<BrainWeight>)
        ensures
            r.deep_view() == self.weights.deep_view().weights,
    {
        self.weights.all_weights()
    }

    /// The brain's own name.
    pub fn id(&self) -> (r: BrainId)
        ensures
            r.deep_view().name == "master"@,
    {
        BrainId::master()
    }

    /// The task at hand.
    pub fn current_task(&self) -> (r: Option<&TaskContext>)
        ensures
            r.deep_view() == self.task.deep_view(),
    {
        match &self.task {
            Some(t) => Some(t),
            None => None,
        }
    }

    /// Begins a task.
    pub fn begin(&mut self, broadcast: &BroadcastMessage, start: i64)
        ensures
            final(self).weights == old(self).weights,
            final(self).task.deep_view() == Some(new_task(broadcast.deep_view(), start)),
    {
        self.task = Some(
            TaskContext {
                input: broadcast.replicate(),
                start_at: start,
                phase: TaskPhase::WaitingFastThink,
                fast: no_items(),
                slow: no_items(),
                expected: 0,
                brain_responses: no_items(),
            },
        );
    }

    /// Takes in a first thought.
    pub fn receive_fast(&mut self, response: BrainResponse)
        ensures
            final(self).weights == old(self).weights,
            final(self).task.deep_view() == match old(self).task.deep_view() {
                Some(t) => Some(fast_received(t, response.deep_view())),
                None => None,
            },
    {
        if let Some(t) = &self.task {
            let mut t = t.replicate();
            put_keyed(&mut t.brain_responses, response.replicate());
            push_one(&mut t.fast, response);
            self.task = Some(t);
        }
    }

    /// Says who is to think it over.
    pub fn begin_slow(&mut self) -> (r: Vec<BrainId>)
        ensures
            final(self).weights == old(self).weights,
            final(self).task.deep_view() == match old(self).task.deep_view() {
                Some(t) => Some(slow_begun(t)),
                None => None,
            },
            r.deep_view() == match old(self).task.deep_view() {
                Some(t) => slow_targets_of(t.fast),
                None => Seq::empty(),
            },
    {
        if let Some(t) = &self.task {
            let targets = slow_targets(&t.fast);
            assert(targets.deep_view().len() == targets@.len());
            let mut t = t.replicate();
            if targets.len() > 0 {
                t.phase = TaskPhase::DispatchingSlowThink;
                t.expected = targets.len();
            }
            self.task = Some(t);
            targets
        } else {
            no_items()
        }
    }

    /// Notes that the word to think it over went out.
    pub fn dispatched(&mut self)
        ensures
            final(self).weights == old(self).weights,
            final(self).task.deep_view() == match old(self).task.deep_view() {
                Some(t) => Some(TaskContextView { phase: TaskPhase::WaitingSlowThink, ..t }),
                None => None,
            },
    {
        if let Some(t) = &self.task {
            let mut t = t.replicate();
            t.phase = TaskPhase::WaitingSlowThink;
            self.task = Some(t);
        }
    }

    /// Takes in something that was thought over, and says whether all of it is
    /// in.
    pub fn receive_slow(&mut self, response: BrainResponse) -> (r: bool)
        ensures
            final(self).weights == old(self).weights,
            final(self).task.deep_view() == match old(self).task.deep_view() {
                Some(t) => Some(slow_received(t, response.deep_view())),
                None => None,
            },
            r == match old(self).task.deep_view() {
                Some(t) => slow_received(t, response.deep_view()).slow.len() >= t.expected,
                None => true,
            },
    {
        if let Some(t) = &self.task {
            let mut t = t.replicate();
            let at_work = match response.result {
                BrainResponsePayload::Processing => true,
                _ => false,
            };
            if !at_work {
                put_keyed(&mut t.brain_responses, response.replicate());
                push_one(&mut t.slow, response);
            }
            assert(t.slow.deep_view().len() == t.slow@.len());
            let all_in = t.slow.len() >= t.expected;
            self.task = Some(t);
            all_in
        } else {
            true
        }
    }

    /// What the brains said to the task, the last answer of each.
    pub fn answers(&self) -> (r: Vec<BrainResponse>)
        ensures
            r.deep_view() == match self.task.deep_view() {
                Some(t) => merged_responses(t.fast, t.slow),
                None => Seq::empty(),
            },
    {
        match &self.task {
            Some(t) => merge_responses(&t.fast, &t.slow),
            None => no_items(),
        }
    }

    fn record_all(
        &mut self,
        responses: &Vec<BrainResponse>,
        threshold: u64,
        task_type: &str,
        now: i64,
        blends: &Vec<u64>,
    ) -> (r: Vec<WeightChange>)
        requires
            blends@.len() == responses@.len(),
            stats_have_room(old(self).weights.deep_view(), responses@.len() as int),
        ensures
            final(self).task == old(self).task,
            (final(self).weights.deep_view(), r.deep_view()) == all_recorded(
                old(self).weights.deep_view(),
                responses.deep_view(),
                threshold,
                task_type@,
                now,
                blends@,
            ),
            final(self).weights.deep_view().weights == old(self).weights.deep_view().weights,
            final(self).weights.deep_view().pairs == old(self).weights.deep_view().pairs,
    {
        let ghost all = responses.deep_view();
        let ghost e = self.weights.deep_view();
        let total: usize = responses.len();
        let mut changes: Vec<WeightChange> = no_items();
        let mut i: usize = 0;
        assert(all.take(0) =~= Seq::<BrainResponseView>::empty());
        while i < total
            invariant
                i <= total == responses@.len() == blends@.len(),
                all == responses.deep_view(),
                self.task == old(self).task,
                (self.weights.deep_view(), changes.deep_view()) == all_recorded(
                    e,
                    all.take(i as int),
                    threshold,
                    task_type@,
                    now,
                    blends@.take(i as int),
                ),
                stats_have_room(self.weights.deep_view(), total - i),
                self.weights.deep_view().weights == e.weights,
                self.weights.deep_view().pairs == e.pairs,
            decreases total - i,
        {
            let response = &responses[i];
            proof {
                lemma_take_step(all, i as int);
                assert(all[i as int] == response.deep_view());
                assert(blends@.take(i + 1).take(i as int) =~= blends@.take(i as int));
                lemma_room_after(
                    self.weights.deep_view(),
                    deed_of(all[i as int], threshold, task_type@, now, blends@[i as int]),
                    total - i,
                );
            }
            let relevant = match response.result {
                BrainResponsePayload::NotRelevant { .. } => false,
                _ => true,
            };
            let more = self.weights.record_performance_with_task_type(
                &response.from,
                relevant,
                response.confidence,
                threshold,
                task_type,
                now,
                blends[i],
            );
            append_all(&mut changes, more);
            i = i + 1;
        }
        proof {
            lemma_take_all(all);
            assert(blends@.take(total as int) =~= blends@);
        }
        changes
    }

    /// Ends the task: puts the answer together, records what the brains did and
    /// which were active together, and says how weights change. `blends` has
    /// the average confidence of the brain of each answer with that answer
    /// taken in.
    pub fn finish(&mut self, threshold: u64, blends: &Vec<u64>, now: i64) -> (r: Option<
        (MasterOutput, Vec<WeightChange>),
    >)
        requires
            weights_are_numbers(old(self).weights.deep_view()),
            match old(self).task.deep_view() {
                Some(t) => ({
                    let answers = merged_responses(t.fast, t.slow);
                    let pairs = pairs_of(names_of(active_brains_of(answers)));
                    &&& blends@.len() == answers.len()
                    &&& stats_have_room(old(self).weights.deep_view(), answers.len() as int)
                    &&& pairs.len() <= u32::MAX
                    &&& counts_within(
                        old(self).weights.deep_view().pairs,
                        u32::MAX - pairs.len(),
                    )
                }),
                None => true,
            },
        ensures
            final(self).task is None,
            match old(self).task.deep_view() {
                None => r is None && final(self).weights == old(self).weights,
                Some(t) => r is Some && ({
                    let e = old(self).weights.deep_view();
                    let answers = merged_responses(t.fast, t.slow);
                    let active = active_brains_of(answers);
                    let done = all_recorded(
                        e,
                        answers,
                        threshold,
                        task_type_of(t.input.content),
                        now,
                        blends@,
                    );
                    let pairs = all_counted(e.pairs, pairs_of(names_of(active)));
                    &&& final(self).weights.deep_view() == (WeightEngineView { pairs, ..done.0 })
                    &&& (r->0).1.deep_view() == done.1 + flat_mapped(
                        active,
                        hebbian_of(pairs, e.weights),
                    )
                    &&& exists|ids: Seq<BrainIdView>|
                        sorted_by(
                            answers.map_values(|x: BrainResponseView| x.from),
                            weight_rank(e),
                            true,
                            ids,
                        ) && (r->0).0.deep_view() == #[trigger] synthesis(
                            t.input.raw_input,
                            answers,
                            ids,
                            t.start_at,
                            now,
                        )
                }),
            },
    {
        let ghost e = self.weights.deep_view();
        let answers = self.answers();
        let ghost ans = answers.deep_view();
        assert(ans.len() == answers@.len());
        let task = match &self.task {
            Some(t) => t.replicate(),
            None => {
                return None;
            },
        };
        self.task = None;
        let p = |r: &BrainResponse| -> (x: BrainId)
            ensures x.deep_view() == r.deep_view().from
        {
            r.from.replicate()
        };
        let ids = map_each(answers.as_slice(), p, Ghost(|r: BrainResponseView| r.from));
        let sorted = self.weights.sort_by_weight(&ids);
        let task_type = infer_task_type(task.input.content.as_str());
        let mut changes = self.record_all(&answers, threshold, task_type.as_str(), now, blends);
        let f = |r: &BrainResponse| -> (x: bool)
            ensures x == !(r.deep_view().result is NotRelevant)
        {
            match r.result {
                BrainResponsePayload::NotRelevant { .. } => false,
                _ => true,
            }
        };
        let relevant = filter_each(
            answers.as_slice(),
            f,
            Ghost(|r: BrainResponseView| !(r.result is NotRelevant)),
        );
        let q = |r: &BrainResponse| -> (x: BrainId)
            ensures x.deep_view() == r.deep_view().from
        {
            r.from.replicate()
        };
        let active = map_each(relevant.as_slice(), q, Ghost(|r: BrainResponseView| r.from));
        let more = self.weights.record_round_co_activation(&active);
        append_all(&mut changes, more);
        assert(active.deep_view() == active_brains_of(ans));
        assert(sorted_by(
            ans.map_values(|x: BrainResponseView| x.from),
            weight_rank(e),
            true,
            sorted.deep_view(),
        ));
        let output = synthesize(&task.input, &answers, &sorted, task.start_at, now);
        proof {
            let t = old(self).task.deep_view()->0;
            let done = all_recorded(
                e,
                ans,
                threshold,
                task_type_of(t.input.content),
                now,
                blends@,
            );
            let pairs = all_counted(e.pairs, pairs_of(names_of(active_brains_of(ans))));
            assert(self.weights.deep_view() == (WeightEngineView { pairs, ..done.0 }));
            assert(changes.deep_view() == done.1 + flat_mapped(
                active_brains_of(ans),
                hebbian_of(pairs, e.weights),
            ));
            assert(output.deep_view() == synthesis(
                t.input.raw_input,
                ans,
                sorted.deep_view(),
                t.start_at,
                now,
            ));
        }
        Some((output, changes))
    }
}

// ---------------------------------------------------------------------------
// Laws
// ---------------------------------------------------------------------------

proof fn lemma_put_all_finds_last(
    s: Seq<BrainResponseView>,
    more: Seq<BrainResponseView>,
    name: Seq<char>,
)
    ensures
        keyed_item::<BrainResponse>(keyed_put_all::<BrainResponse>(s, more), name)
            == match last_of(more, name) {
            Some(r) => Some(r),
            None => keyed_item::<BrainResponse>(s, name),
        },
    decreases more.len(),
{
    if more.len() > 0 {
        let before = keyed_put_all::<BrainResponse>(s, more.drop_last());
        lemma_put_all_finds_last(s, more.drop_last(), name);
        crate::keyed::law_put_is_found::<BrainResponse>(before, more.last(), name);
    }
}

/// The last answer of a brain.
pub open spec fn last_of(s: Seq<BrainResponseView>, name: Seq<char>) -> Option<BrainResponseView>
    decreases s.len(),
{
    if s.len() == 0 {
        None
    } else if s.last().from.name == name {
        Some(s.last())
    } else {
        last_of(s.drop_last(), name)
    }
}

/// What a brain thought over counts in place of its first thought; a brain that
/// did not think it over is heard with its first thought.
pub proof fn law_second_thoughts_count(
    fast: Seq<BrainResponseView>,
    slow: Seq<BrainResponseView>,
    name: Seq<char>,
)
    ensures
        keyed_item::<BrainResponse>(merged_responses(fast, slow), name) == match last_of(
            slow,
            name,
        ) {
            Some(r) => Some(r),
            None => last_of(fast, name),
        },
{
    lemma_put_all_finds_last(Seq::empty(), fast, name);
    lemma_put_all_finds_last(keyed_put_all::<BrainResponse>(Seq::empty(), fast), slow, name);
    let none = Seq::<BrainResponseView>::empty();
    crate::seqs::lemma_first_index_none(none, crate::keyed::with_key::<BrainResponse>(name));
}

/// Where no brain has anything to say, the user is told so.
pub proof fn law_silence_is_told(
    raw_input: Seq<char>,
    responses: Seq<BrainResponseView>,
    ids: Seq<BrainIdView>,
    start: i64,
    now: i64,
)
    requires
        forall|i: int| 0 <= i < responses.len() ==> !takes_part(#[trigger] responses[i]),
    ensures
        synthesis(raw_input, responses, ids, start, now).answer == "收到输入「"@ + raw_input
            + "」，但没有副脑给出相关响应。"@,
        synthesis(raw_input, responses, ids, start, now).participating_brains.len() == 0,
{
    lemma_no_voices(responses, ids);
    assert(voices(responses, ids) =~= Seq::<BrainResponseView>::empty());
}

proof fn lemma_no_voices(responses: Seq<BrainResponseView>, ids: Seq<BrainIdView>)
    requires
        forall|i: int| 0 <= i < responses.len() ==> !takes_part(#[trigger] responses[i]),
    ensures
        voices(responses, ids).len() == 0,
    decreases ids.len(),
{
    if ids.len() > 0 {
        lemma_no_voices(responses, ids.drop_last());
        lemma_first_index(
            responses,
            crate::keyed::with_key::<BrainResponse>(ids.last().name),
        );
        assert(voice_of(responses, ids.last()) is None);
    }
}

} // verus!
