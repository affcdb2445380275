//! What holds of the conversation: what is recorded of a turn, what the model
//! is shown of it, and what may be shortened.

use crate::llm::provider::{MessageRole, MessageView, text_of_blocks};
use crate::llm::types::{BlockView, TokenUsage};
use crate::main_brain::brain::{
    MainBrain, added, after_failure, after_success, ends_with_answer, fills_up, is_to_shorten, kept,
    kept_all, kept_results, last_usage, prompt_parts, shown_messages, with_input, with_loop,
};
use crate::main_brain::compact::{
    TurnBlockView, Turns, body_chars, body_of, can_shorten, first_to_shorten, is_shortened,
    last_turn_chars, last_user, law_turns_partition, pending_applied, replaced, saved_chars,
    slide_out, tool_body_chars, touched, turn_blocks, turns_of,
};
use crate::main_brain::conversation::{
    ConversationMessageView, HistoryView, SpeakerRole, chat_message, context_tokens_of, cut_to,
    last_ones, rebuild_summary, rebuilt, rebuilt_from, said, shortened_summary, tool_message,
};
use crate::main_brain::prompts::{SYSTEM_PROMPT_NO_TOOLS, SYSTEM_PROMPT_WITH_TOOLS, section};
use crate::main_brain::tool_loop::estimate;
use crate::memory::types::BrainStateView;
use crate::seqs::lemma_push_has;
use crate::text::joined;
use crate::text_laws::law_joined_with_separators;
use vstd::prelude::*;

verus! {

// ---------------------------------------------------------------------------
// What the model is shown
// ---------------------------------------------------------------------------

/// What a section adds below what stands above it.
pub open spec fn below(s: Option<Seq<char>>) -> Seq<char> {
    match s {
        Some(t) => "\n"@ + t,
        None => Seq::empty(),
    }
}

/// The model is shown the whole history in its order, with the assistant's
/// messages as the assistant's and all others as the user's; and before it one
/// system message that holds, one below the other, the bootstrap text, the
/// system prompt, the environment, the skills and the memory, as far as they
/// are there.
pub proof fn law_history_is_shown(b: MainBrain, env: Seq<char>)
    ensures
        ({
            let r = shown_messages(b, env);
            let ms = b.history.deep_view().messages;
            let prompt = if b.tools@.len() > 0 {
                SYSTEM_PROMPT_WITH_TOOLS@
            } else {
                SYSTEM_PROMPT_NO_TOOLS@
            };
            let top = match b.bootstrap_content.deep_view() {
                Some(t) => t + "\n"@ + prompt,
                None => prompt,
            };
            let memory = match b.memory_context.deep_view() {
                Some(t) => "\n"@ + ("\n"@ + t),
                None => Seq::empty(),
            };
            &&& r.len() == ms.len() + 1
            &&& r[0].role == MessageRole::System
            &&& r[0].content == seq![
                BlockView::Text {
                    text: top + "\n"@ + env + below(b.skill_summary.deep_view()) + memory,
                },
            ]
            &&& forall|i: int|
                0 <= i < ms.len() ==> {
                    &&& (#[trigger] r[i + 1]).content == ms[i].content
                    &&& r[i + 1].role == MessageRole::Assistant <==> ms[i].role
                        == SpeakerRole::Assistant
                    &&& r[i + 1].role == MessageRole::User <==> ms[i].role != SpeakerRole::Assistant
                }
        }),
{
    let nl = "\n"@;
    let bootstrap = b.bootstrap_content.deep_view();
    let skills = b.skill_summary.deep_view();
    let memory = b.memory_context.deep_view();
    let has_tools = b.tools@.len() > 0;
    let prompt = if has_tools { SYSTEM_PROMPT_WITH_TOOLS@ } else { SYSTEM_PROMPT_NO_TOOLS@ };
    let top = match bootstrap {
        Some(t) => t + nl + prompt,
        None => prompt,
    };
    let parts = prompt_parts(bootstrap, has_tools, env, skills, memory);
    let a = section(bootstrap is Some, bootstrap->0) + seq![prompt];
    let c = a + seq![env];
    let d = c + section(skills is Some, skills->0);
    let m = nl + memory->0;
    assert(joined(a, nl) == top) by {
        if bootstrap is Some {
            assert(a =~= seq![bootstrap->0] + seq![prompt]);
            law_joined_with_separators(seq![bootstrap->0], seq![prompt], nl);
            law_joined_with_separators(seq![prompt], seq![prompt], nl);
        } else {
            assert(a =~= seq![prompt]);
            law_joined_with_separators(a, a, nl);
        }
    }
    law_joined_with_separators(a, seq![env], nl);
    law_joined_with_separators(seq![env], a, nl);
    assert(joined(c, nl) == top + nl + env);
    assert(joined(d, nl) == top + nl + env + below(skills)) by {
        if skills is Some {
            law_joined_with_separators(c, seq![skills->0], nl);
            law_joined_with_separators(seq![skills->0], c, nl);
            assert(joined(d, nl) =~= top + nl + env + below(skills));
        } else {
            assert(d =~= c);
            assert(top + nl + env + below(skills) =~= top + nl + env);
        }
    }
    let low = match memory {
        Some(t) => nl + (nl + t),
        None => Seq::empty(),
    };
    assert(joined(parts, nl) == top + nl + env + below(skills) + low) by {
        if memory is Some {
            assert(parts == d + seq![m]);
            law_joined_with_separators(d, seq![m], nl);
            law_joined_with_separators(seq![m], d, nl);
            assert(joined(parts, nl) =~= top + nl + env + below(skills) + low);
        } else {
            assert(parts =~= d);
            assert(top + nl + env + below(skills) + low =~= top + nl + env + below(skills));
        }
    }
    let r = shown_messages(b, env);
    let ms = b.history.deep_view().messages;
    assert forall|i: int| 0 <= i < ms.len() implies #[trigger] r[i + 1] == chat_message(ms[i]) by {}
}

// ---------------------------------------------------------------------------
// What is recorded
// ---------------------------------------------------------------------------

proof fn lemma_kept_all_push(ms: Seq<MessageView>, m: MessageView, now: i64)
    ensures
        kept_all(ms.push(m), now) == kept_all(ms, now) + kept(m, now),
{
    assert(ms.push(m).drop_last() =~= ms);
}

proof fn lemma_with_loop_push(h: HistoryView, ms: Seq<MessageView>, m: MessageView, now: i64)
    requires
        ms.len() > h.messages.len(),
    ensures
        with_loop(h, ms.push(m), now).messages == with_loop(h, ms, now).messages + kept(m, now),
{
    let start = h.messages.len() as int + 1;
    assert(added(ms.push(m), start) =~= added(ms, start).push(m));
    lemma_kept_all_push(added(ms, start), m, now);
    assert(with_loop(h, ms.push(m), now).messages =~= with_loop(h, ms, now).messages + kept(
        m,
        now,
    ));
}

/// Of what the loop said beyond the history, an assistant's message with a call
/// is recorded whole, one without a call by its text where it has any, and a
/// result of a tool under the id of its call; and the history stays before it.
pub proof fn law_each_message_is_recorded(
    h: HistoryView,
    ms: Seq<MessageView>,
    m: MessageView,
    now: i64,
)
    requires
        ms.len() > h.messages.len(),
    ensures
        ({
            let before = with_loop(h, ms, now).messages;
            let after = with_loop(h, ms.push(m), now).messages;
            let calls = exists|i: int| 0 <= i < m.content.len() && (#[trigger] m.content[i]) is ToolUse;
            &&& m.role == MessageRole::Assistant && calls ==> after == before.push(
                (ConversationMessageView {
                    role: SpeakerRole::Assistant,
                    content: m.content,
                    timestamp: now,
                }),
            )
            &&& m.role == MessageRole::Assistant && !calls && text_of_blocks(m.content).len() > 0
                ==> after == before.push(
                (ConversationMessageView {
                    role: SpeakerRole::Assistant,
                    content: seq![BlockView::Text { text: text_of_blocks(m.content) }],
                    timestamp: now,
                }),
            )
            &&& m.role == MessageRole::Assistant && !calls && text_of_blocks(m.content).len() == 0
                ==> after == before
            &&& m.role == MessageRole::System ==> after == before
            &&& m.role == MessageRole::User && m.content.len() == 0 ==> after == before
            &&& forall|id: Seq<char>, text: Seq<char>, is_error: bool|
                m.role == MessageRole::User && m.content == seq![
                    #[trigger] result_block(id, text, is_error),
                ] ==> after == before.push(
                    (ConversationMessageView {
                        role: SpeakerRole::Tool,
                        content: m.content,
                        timestamp: now,
                    }),
                )
            &&& ms.len() == h.messages.len() + 1 ==> before == h.messages
        }),
{
    lemma_with_loop_push(h, ms, m, now);
    let before = with_loop(h, ms, now).messages;
    let after = with_loop(h, ms.push(m), now).messages;
    if kept(m, now).len() == 0 {
        assert(before + kept(m, now) =~= before);
    } else if kept(m, now).len() == 1 {
        assert(before + kept(m, now) =~= before.push(kept(m, now)[0]));
    }
    assert forall|id: Seq<char>, text: Seq<char>, is_error: bool|
        m.role == MessageRole::User && m.content == seq![
            #[trigger] result_block(id, text, is_error),
        ] implies after == before.push(
        (ConversationMessageView { role: SpeakerRole::Tool, content: m.content, timestamp: now }),
    ) by {
        assert(m.content.drop_last() =~= Seq::<BlockView>::empty());
        assert(kept_results(m.content.drop_last(), now) =~= Seq::<ConversationMessageView>::empty());
        assert(kept(m, now) =~= seq![tool_message(id, text, is_error, now)]);
        assert(tool_message(id, text, is_error, now).content =~= m.content);
        assert(before + kept(m, now) =~= before.push(tool_message(id, text, is_error, now)));
    }
    if ms.len() == h.messages.len() + 1 {
        assert(before =~= h.messages);
    }
}

/// The block that hands a result back.
pub open spec fn result_block(id: Seq<char>, text: Seq<char>, is_error: bool) -> BlockView {
    BlockView::ToolResult { tool_use_id: id, content: text, is_error }
}

/// One block more of a user's message adds one message where it is a result of
/// a tool, and else none.
pub proof fn law_each_result_is_recorded(
    h: HistoryView,
    ms: Seq<MessageView>,
    blocks: Seq<BlockView>,
    b: BlockView,
    now: i64,
)
    requires
        ms.len() > h.messages.len(),
    ensures
        ({
            let before = with_loop(
                h,
                ms.push(MessageView { role: MessageRole::User, content: blocks }),
                now,
            ).messages;
            let after = with_loop(
                h,
                ms.push(MessageView { role: MessageRole::User, content: blocks.push(b) }),
                now,
            ).messages;
            &&& b is ToolResult ==> after == before.push(
                (ConversationMessageView {
                    role: SpeakerRole::Tool,
                    content: seq![b],
                    timestamp: now,
                }),
            )
            &&& b !is ToolResult ==> after == before
        }),
{
    let m = MessageView { role: MessageRole::User, content: blocks };
    let n = MessageView { role: MessageRole::User, content: blocks.push(b) };
    lemma_with_loop_push(h, ms, m, now);
    lemma_with_loop_push(h, ms, n, now);
    assert(blocks.push(b).drop_last() =~= blocks);
    let start = with_loop(h, ms, now).messages;
    let before = start + kept(m, now);
    if let BlockView::ToolResult { tool_use_id, content, is_error } = b {
        let t = tool_message(tool_use_id, content, is_error, now);
        assert(t.content =~= seq![b]);
        assert(start + kept(n, now) =~= before.push(t));
    }
}

/// After a turn that went well the answer stands among the last three messages
/// as the assistant's, once more only where it did not stand there already; the
/// tokens are those that were counted last, and the limit stays.
pub proof fn law_answer_closes_the_turn(
    h: HistoryView,
    ms: Seq<MessageView>,
    answer: Seq<char>,
    tokens: u64,
    now: i64,
)
    ensures
        ({
            let before = with_loop(h, ms, now).messages;
            let r = after_success(h, ms, answer, tokens, now);
            &&& r.tracked_prompt_tokens == tokens
            &&& r.max_context_tokens == h.max_context_tokens
            &&& r.messages == before || r.messages == before.push(
                (ConversationMessageView {
                    role: SpeakerRole::Assistant,
                    content: seq![BlockView::Text { text: answer }],
                    timestamp: now,
                }),
            )
            &&& r.messages == before <==> exists|i: int|
                0 <= i < before.len() && before.len() - 3 <= i && (#[trigger] before[i]).role
                    == SpeakerRole::Assistant && text_of_blocks(before[i].content) == answer
        }),
{
    let before = with_loop(h, ms, now).messages;
    let r = after_success(h, ms, answer, tokens, now);
    assert(r.messages.len() == before.len() || r.messages.len() == before.len() + 1);
    if ends_with_answer(before, answer) {
        let i = choose|i: int|
            before.len() - 3 <= i < before.len() && 0 <= i && (#[trigger] before[i]).role
                == SpeakerRole::Assistant && text_of_blocks(before[i].content) == answer;
        assert(before[i].role == SpeakerRole::Assistant);
    }
}

// ---------------------------------------------------------------------------
// How much there is
// ---------------------------------------------------------------------------

/// The tokens that were counted count; where none were, they are estimated from
/// each message, one by one.
pub proof fn law_context_is_counted(h: HistoryView, m: ConversationMessageView)
    ensures
        h.tracked_prompt_tokens > 0 ==> context_tokens_of(h) == h.tracked_prompt_tokens,
        h.tracked_prompt_tokens == 0 && h.messages.len() == 0 ==> context_tokens_of(h) == 0,
        h.tracked_prompt_tokens == 0 ==> context_tokens_of(
            (HistoryView { messages: h.messages.push(m), ..h }),
        ) == context_tokens_of(h) + estimate(text_of_blocks(m.content).len()),
        fills_up(h) <==> h.max_context_tokens > 0 && 100 * context_tokens_of(h) > 60
            * h.max_context_tokens,
{
    assert(h.messages.push(m).drop_last() =~= h.messages);
}

/// What a message says is its texts and its results, one after the other.
pub proof fn law_body_is_all_that_is_said(blocks: Seq<BlockView>, b: BlockView)
    ensures
        blocks.len() == 0 ==> body_of(blocks) == Seq::<char>::empty(),
        body_of(blocks.push(b)) == body_of(blocks) + match b {
            BlockView::Text { text } => text,
            BlockView::ToolResult { content, .. } => content,
            _ => Seq::empty(),
        },
{
    assert(blocks.push(b).drop_last() =~= blocks);
    assert(body_of(blocks) + Seq::<char>::empty() =~= body_of(blocks));
}

/// What the tools said in the last turn: nothing once the user has spoken, and
/// from there on the characters of each tool message.
pub proof fn law_last_turn_is_counted(ms: Seq<ConversationMessageView>, m: ConversationMessageView)
    ensures
        ms.len() == 0 ==> last_turn_chars(ms) == 0,
        last_turn_chars(ms.push(m)) == match m.role {
            SpeakerRole::User => 0nat,
            SpeakerRole::Tool => last_turn_chars(ms) + body_of(m.content).len(),
            _ => last_turn_chars(ms),
        },
{
    let all = ms.push(m);
    assert(all.drop_last() =~= ms);
    lemma_last_user_within(ms);
    if ms.len() == 0 {
        assert(ms.skip(0) =~= ms);
    }
    if m.role == SpeakerRole::User {
        assert(all.skip(ms.len() as int) =~= seq![m]);
        assert(seq![m].drop_last() =~= Seq::<ConversationMessageView>::empty());
        assert(tool_body_chars(seq![m].drop_last()) == 0);
    } else {
        let n = last_user(ms);
        assert(all.skip(n).drop_last() =~= ms.skip(n));
    }
}

proof fn lemma_last_user_within(ms: Seq<ConversationMessageView>)
    ensures
        0 <= last_user(ms) <= ms.len(),
        ms.len() > 0 ==> last_user(ms) < ms.len(),
    decreases ms.len(),
{
    if ms.len() > 0 {
        lemma_last_user_within(ms.drop_last());
    }
}

/// The last so many messages are the end of the history.
pub proof fn law_last_ones_are_the_end(ms: Seq<ConversationMessageView>, n: nat)
    ensures
        last_ones(ms, n).is_suffix_of(ms),
        last_ones(ms, n).len() == if ms.len() < n {
            ms.len()
        } else {
            n
        },
{
}

// ---------------------------------------------------------------------------
// What is shortened
// ---------------------------------------------------------------------------

/// Shortening changes what some tool messages say, and only where that gets
/// shorter; each message keeps its place, its role, its time and the call that
/// it answers.
pub proof fn law_only_tool_messages_are_shortened(
    ms: Seq<ConversationMessageView>,
    pending: Map<usize, String>,
    i: int,
)
    requires
        0 <= i < ms.len() <= usize::MAX,
    ensures
        ({
            let r = pending_applied(ms, pending);
            let due = ms[i].role == SpeakerRole::Tool && pending.dom().contains(i as usize)
                && pending[i as usize]@.len() < body_of(ms[i].content).len();
            &&& r.len() == ms.len()
            &&& r[i].role == ms[i].role
            &&& r[i].timestamp == ms[i].timestamp
            &&& !due ==> r[i] == ms[i]
            &&& due ==> body_of(r[i].content) == pending[i as usize]@
            &&& due && ms[i].content.len() > 0 && ms[i].content[0] is ToolResult ==> {
                &&& r[i].content.len() == 1
                &&& r[i].content[0] is ToolResult
                &&& r[i].content[0]->ToolResult_tool_use_id
                    == ms[i].content[0]->ToolResult_tool_use_id
                &&& r[i].content[0]->ToolResult_is_error == ms[i].content[0]->ToolResult_is_error
            }
        }),
{
    let r = pending_applied(ms, pending);
    if is_shortened(ms, i, pending) {
        let c = r[i].content;
        assert(c == replaced(ms[i].content, pending[i as usize]@));
        assert(c.drop_last() =~= Seq::<BlockView>::empty());
        assert(body_of(c.drop_last()) =~= Seq::<char>::empty());
        assert(body_of(c) =~= pending[i as usize]@);
    }
}

/// What is saved is what the messages said before and do not say any more.
pub proof fn law_saved_is_the_difference(
    ms: Seq<ConversationMessageView>,
    pending: Map<usize, String>,
)
    requires
        ms.len() <= usize::MAX,
    ensures
        body_chars(ms) - body_chars(pending_applied(ms, pending)) == saved_chars(
            ms,
            pending,
            ms.len() as int,
        ),
{
    lemma_saved(ms, pending, ms.len() as int);
    assert(ms.take(ms.len() as int) =~= ms);
    let r = pending_applied(ms, pending);
    assert(r.take(ms.len() as int) =~= r);
}

proof fn lemma_saved(ms: Seq<ConversationMessageView>, pending: Map<usize, String>, n: int)
    requires
        0 <= n <= ms.len() <= usize::MAX,
    ensures
        body_chars(ms.take(n)) - body_chars(pending_applied(ms, pending).take(n)) == saved_chars(
            ms,
            pending,
            n,
        ),
    decreases n,
{
    if n > 0 {
        let r = pending_applied(ms, pending);
        lemma_saved(ms, pending, n - 1);
        assert(ms.take(n).drop_last() =~= ms.take(n - 1));
        assert(r.take(n).drop_last() =~= r.take(n - 1));
        law_only_tool_messages_are_shortened(ms, pending, n - 1);
    }
}

spec fn users(ms: Seq<ConversationMessageView>) -> nat
    decreases ms.len(),
{
    if ms.len() == 0 {
        0
    } else {
        users(ms.drop_last()) + if ms.last().role == SpeakerRole::User {
            1nat
        } else {
            0
        }
    }
}

spec fn tools_from(ms: Seq<ConversationMessageView>, low: int, tools: Seq<usize>, end: int) -> bool {
    forall|k: usize| #[trigger]
        tools.contains(k) <==> low <= k < end && ms[k as int].role == SpeakerRole::Tool
}

spec fn low_of(b: int, start: int) -> int {
    if b == 0 {
        0
    } else {
        start
    }
}

spec fn turns_right(ms: Seq<ConversationMessageView>, t: Turns) -> bool {
    &&& users(ms) == t.ended.len() + if t.start is Some {
        1int
    } else {
        0
    }
    &&& t.start is None ==> t.ended.len() == 0
    &&& t.start is Some ==> 0 <= t.start->0 < ms.len()
    &&& tools_from(
        ms,
        if t.start is Some {
            low_of(t.ended.len() as int, t.start->0)
        } else {
            0
        },
        t.tools,
        ms.len() as int,
    )
    &&& forall|b: int|
        0 <= b < t.ended.len() ==> {
            let x = #[trigger] t.ended[b];
            &&& 0 <= x.start < x.end <= ms.len()
            &&& users(ms.take(x.end)) == b + 1
            &&& tools_from(ms, low_of(b, x.start), x.tool_indices, x.end)
        }
}

proof fn lemma_turns_right(ms: Seq<ConversationMessageView>)
    requires
        ms.len() <= usize::MAX,
    ensures
        turns_right(ms, turns_of(ms)),
    decreases ms.len(),
{
    if ms.len() > 0 {
        let before = ms.drop_last();
        lemma_turns_right(before);
        let t = turns_of(before);
        let r = turns_of(ms);
        let i = ms.len() - 1;
        assert(ms.take(i) =~= before);
        assert forall|b: int| 0 <= b < r.ended.len() implies {
            let x = #[trigger] r.ended[b];
            &&& 0 <= x.start < x.end <= ms.len()
            &&& users(ms.take(x.end)) == b + 1
            &&& tools_from(ms, low_of(b, x.start), x.tool_indices, x.end)
        } by {
            let x = r.ended[b];
            if b < t.ended.len() {
                assert(x == t.ended[b]);
                assert(ms.take(x.end) =~= before.take(x.end));
                assert forall|k: usize| #[trigger] x.tool_indices.contains(k) <==> low_of(
                    b,
                    x.start,
                ) <= k < x.end && ms[k as int].role == SpeakerRole::Tool by {
                    assert(k < before.len() ==> before[k as int] == ms[k as int]);
                }
            } else {
                assert(x.tool_indices == t.tools);
                assert forall|k: usize| #[trigger] x.tool_indices.contains(k) <==> low_of(
                    b,
                    x.start,
                ) <= k < x.end && ms[k as int].role == SpeakerRole::Tool by {
                    assert(k < before.len() ==> before[k as int] == ms[k as int]);
                }
            }
        }
        let low = if r.start is Some { low_of(r.ended.len() as int, r.start->0) } else { 0 };
        assert forall|k: usize| #[trigger] r.tools.contains(k) <==> low <= k < ms.len()
            && ms[k as int].role == SpeakerRole::Tool by {
            assert(k < before.len() ==> before[k as int] == ms[k as int]);
            lemma_push_has(t.tools, i as usize, k);
            assert(t.tools.contains(k) || !t.tools.contains(k));
        }
    }
}

proof fn lemma_users_parts(ms: Seq<ConversationMessageView>, n: int)
    requires
        0 <= n <= ms.len(),
    ensures
        users(ms) == users(ms.take(n)) + users(ms.skip(n)),
    decreases ms.len(),
{
    if n == ms.len() {
        assert(ms.take(n) =~= ms);
        assert(ms.skip(n) =~= Seq::<ConversationMessageView>::empty());
    } else {
        lemma_users_parts(ms.drop_last(), n);
        assert(ms.drop_last().take(n) =~= ms.take(n));
        assert(ms.drop_last().skip(n) =~= ms.skip(n).drop_last());
    }
}

proof fn lemma_users_counted(ms: Seq<ConversationMessageView>)
    ensures
        users(ms) == ms.filter(|m: ConversationMessageView| m.role == SpeakerRole::User).len(),
    decreases ms.len(),
{
    reveal(Seq::filter);
    if ms.len() > 0 {
        lemma_users_counted(ms.drop_last());
    }
}

proof fn lemma_first_to_shorten(blocks: Seq<TurnBlockView>, shortened: Set<usize>) -> (b: int)
    ensures
        first_to_shorten(blocks, shortened) is Some ==> 0 <= b < blocks.len()
            && first_to_shorten(blocks, shortened) == Some((blocks[b].start, blocks[b].end))
            && can_shorten(blocks[b], shortened),
        first_to_shorten(blocks, shortened) is None ==> b == blocks.len(),
        forall|c: int| 0 <= c < b ==> !can_shorten(#[trigger] blocks[c], shortened),
    decreases blocks.len(),
{
    if blocks.len() == 0 {
        0
    } else if can_shorten(blocks[0], shortened) {
        0
    } else {
        let rest = blocks.skip(1);
        let b = lemma_first_to_shorten(rest, shortened) + 1;
        assert forall|c: int| 0 <= c < b implies !can_shorten(#[trigger] blocks[c], shortened) by {
            if c > 0 {
                assert(rest[c - 1] == blocks[c]);
            }
        }
        if first_to_shorten(blocks, shortened) is Some {
            assert(rest[b - 1] == blocks[b]);
        }
        b
    }
}

/// The turn that is shortened next has a tool message and nothing that was
/// shortened before, and as many turns of the user as are to be kept begin
/// behind it.
pub proof fn law_old_turn_is_shortened(
    ms: Seq<ConversationMessageView>,
    shortened: Set<usize>,
    keep: int,
)
    requires
        0 <= keep,
        ms.len() <= usize::MAX,
    ensures
        slide_out(ms, shortened, keep) matches Some((start, end)) ==> {
            &&& 0 <= start < end <= ms.len()
            &&& forall|i: usize| start <= i < end ==> !#[trigger] shortened.contains(i)
            &&& exists|k: int|
                0 <= k < end && (#[trigger] ms[k]).role == SpeakerRole::Tool && (start < k || forall|
                    u: int,
                |
                    0 <= u < start ==> (#[trigger] ms[u]).role != SpeakerRole::User)
            &&& ms.skip(end).filter(
                |m: ConversationMessageView| m.role == SpeakerRole::User,
            ).len() >= keep
        },
{
    let t = turns_of(ms);
    let blocks = turn_blocks(ms);
    lemma_turns_right(ms);
    assert(ms.take(ms.len() as int) =~= ms);
    if let Some((start, end)) = slide_out(ms, shortened, keep) {
        let old = blocks.take(blocks.len() - keep);
        let b = lemma_first_to_shorten(old, shortened);
        let x = blocks[b];
        assert(old[b] == x);
        assert(b < t.ended.len() ==> x == t.ended[b]);
        assert(users(ms.take(x.end)) == b + 1);
        assert(tools_from(ms, low_of(b, x.start), x.tool_indices, x.end));
        lemma_users_parts(ms, x.end);
        lemma_users_counted(ms.skip(x.end));
        let k = x.tool_indices[0];
        assert(x.tool_indices.contains(k));
        assert(ms[k as int].role == SpeakerRole::Tool);
        law_turns_partition(ms);
        if k <= x.start {
            assert(b == 0);
            assert forall|u: int| 0 <= u < x.start implies (#[trigger] ms[u]).role
                != SpeakerRole::User by {
                lemma_users_none(ms, x.start, x.end, u);
            }
        }
        assert forall|i: usize| start <= i < end implies !#[trigger] shortened.contains(i) by {
            assert(!touched(x, shortened));
        }
    }
}

proof fn lemma_users_none(ms: Seq<ConversationMessageView>, start: int, end: int, u: int)
    requires
        0 <= u < start < end <= ms.len(),
        ms[start].role == SpeakerRole::User,
        users(ms.take(end)) == 1,
    ensures
        ms[u].role != SpeakerRole::User,
{
    let t = ms.take(end);
    lemma_users_parts(t, start);
    lemma_users_parts(t.take(start), u);
    let a = t.skip(start);
    lemma_users_parts(a, 1);
    assert(a.take(1) =~= seq![ms[start]]);
    assert(seq![ms[start]].drop_last() =~= Seq::<ConversationMessageView>::empty());
    let b = t.take(start).skip(u);
    lemma_users_parts(b, 1);
    assert(b.take(1) =~= seq![ms[u]]);
    assert(seq![ms[u]].drop_last() =~= Seq::<ConversationMessageView>::empty());
    reveal_with_fuel(users, 2);
}

// ---------------------------------------------------------------------------
// What is said, cut and begun anew
// ---------------------------------------------------------------------------

/// What is said comes last, under its role and with its time, and nothing else
/// changes.
pub proof fn law_what_is_said_comes_last(
    h: HistoryView,
    role: SpeakerRole,
    text: Seq<char>,
    now: i64,
)
    ensures
        ({
            let r = said(h, role, text, now);
            &&& r.messages.drop_last() == h.messages
            &&& r.messages.len() == h.messages.len() + 1
            &&& r.messages.last().role == role
            &&& r.messages.last().content == seq![BlockView::Text { text }]
            &&& r.messages.last().timestamp == now
            &&& r.max_context_tokens == h.max_context_tokens
            &&& r.tracked_prompt_tokens == h.tracked_prompt_tokens
        }),
{
    assert(said(h, role, text, now).messages.drop_last() =~= h.messages);
}

/// What the user says comes behind all that was said, where what waited to be
/// shortened is; the user's own words stay as they are.
pub proof fn law_input_is_taken_in(
    h: HistoryView,
    input: Seq<char>,
    pending: Map<usize, String>,
    now: i64,
)
    requires
        h.messages.len() < usize::MAX,
    ensures
        ({
            let r = with_input(h, input, pending, now);
            let n = h.messages.len() as int;
            &&& r.messages.len() == n + 1
            &&& r.messages[n].role == SpeakerRole::User
            &&& r.messages[n].content == seq![BlockView::Text { text: input }]
            &&& forall|i: int|
                0 <= i < n ==> {
                    &&& (#[trigger] r.messages[i]).role == h.messages[i].role
                    &&& h.messages[i].role != SpeakerRole::Tool ==> r.messages[i] == h.messages[i]
                    &&& !pending.dom().contains(i as usize) ==> r.messages[i] == h.messages[i]
                    &&& body_of(r.messages[i].content).len() <= body_of(
                        h.messages[i].content,
                    ).len()
                }
            &&& r.tracked_prompt_tokens == h.tracked_prompt_tokens
        }),
{
    let ms = said(h, SpeakerRole::User, input, now).messages;
    let r = with_input(h, input, pending, now);
    let n = h.messages.len() as int;
    law_only_tool_messages_are_shortened(ms, pending, n);
    assert forall|i: int| 0 <= i < n implies {
        &&& (#[trigger] r.messages[i]).role == h.messages[i].role
        &&& h.messages[i].role != SpeakerRole::Tool ==> r.messages[i] == h.messages[i]
        &&& !pending.dom().contains(i as usize) ==> r.messages[i] == h.messages[i]
        &&& body_of(r.messages[i].content).len() <= body_of(h.messages[i].content).len()
    } by {
        assert(ms[i] == h.messages[i]);
        law_only_tool_messages_are_shortened(ms, pending, i);
    }
}

/// A history that is cut keeps its end; where something is gone the tokens are
/// counted anew, and where nothing is it stays as it was.
pub proof fn law_history_is_cut(h: HistoryView, n: nat)
    ensures
        cut_to(h, n).messages.is_suffix_of(h.messages),
        cut_to(h, n).messages.len() <= n,
        h.messages.len() <= n ==> cut_to(h, n) == h,
        h.messages.len() > n ==> cut_to(h, n).messages.len() == n && cut_to(
            h,
            n,
        ).tracked_prompt_tokens == 0,
        cut_to(h, n).max_context_tokens == h.max_context_tokens,
{
}

/// A history that is begun anew has one message of what is known, and behind it
/// the end of the old one; one that is begun from a summary has the summary,
/// and behind it what is handed over.
pub proof fn law_history_is_begun_anew(
    h: HistoryView,
    s: BrainStateView,
    n: nat,
    summary: Seq<char>,
    recent: Seq<ConversationMessageView>,
    now: i64,
)
    ensures
        ({
            let r = rebuilt(h, s, n, now);
            &&& r.messages.len() == 1 + if h.messages.len() < n {
                h.messages.len()
            } else {
                n
            }
            &&& r.messages[0].role == SpeakerRole::User
            &&& r.messages[0].content == seq![BlockView::Text { text: rebuild_summary(s) }]
            &&& r.messages.skip(1).is_suffix_of(h.messages)
        }),
        ({
            let r = rebuilt_from(h, summary, recent, now);
            &&& r.messages.len() == 1 + recent.len()
            &&& r.messages[0].role == SpeakerRole::System
            &&& r.messages[0].content == seq![BlockView::Text { text: shortened_summary(summary) }]
            &&& r.messages.skip(1) == recent
            &&& r.tracked_prompt_tokens == 0
        }),
{
    law_last_ones_are_the_end(h.messages, n);
    assert(rebuilt(h, s, n, now).messages.skip(1) =~= last_ones(h.messages, n));
    assert(rebuilt_from(h, summary, recent, now).messages.skip(1) =~= recent);
}

/// A turn that failed leaves what the loop said, and tells the error last.
pub proof fn law_failure_is_told(h: HistoryView, ms: Seq<MessageView>, error: Seq<char>, now: i64)
    ensures
        ({
            let r = after_failure(h, ms, error, now).messages;
            &&& r.drop_last() == with_loop(h, ms, now).messages
            &&& r.last().role == SpeakerRole::Assistant
            &&& r.last().content == seq![BlockView::Text { text: "[系统错误] "@ + error }]
        }),
{
    let before = with_loop(h, ms, now);
    assert(after_failure(h, ms, error, now).messages.drop_last() =~= before.messages);
}

/// Turns are shortened once over three fifths of the context are taken or the
/// last turn's tools said too much, and from then on.
pub proof fn law_when_turns_are_shortened(h: HistoryView, threshold: nat)
    ensures
        is_to_shorten(h, true, threshold),
        h.max_context_tokens > 0 && 100 * context_tokens_of(h) > 60 * h.max_context_tokens
            ==> is_to_shorten(h, false, threshold),
        last_turn_chars(h.messages) > threshold ==> is_to_shorten(h, false, threshold),
        (h.max_context_tokens == 0 || 100 * context_tokens_of(h) <= 60 * h.max_context_tokens)
            && last_turn_chars(h.messages) <= threshold ==> !is_to_shorten(h, false, threshold),
{
}

/// What the last call took is what was recorded last, and nothing before any
/// call was made.
pub proof fn law_last_call_counts(records: Seq<TokenUsage>, u: TokenUsage)
    ensures
        last_usage(records.push(u)) == u,
        records.len() == 0 ==> ({
            let r = last_usage(records);
            r.prompt_tokens == 0 && r.completion_tokens == 0 && r.total_tokens == 0
                && r.cache_creation_input_tokens == 0 && r.cache_read_input_tokens == 0
        }),
{
}

/// A brain that differs from another in its history alone has the tools, the
/// settings, the context and the counts of the other.
pub proof fn law_history_is_set_apart(a: MainBrain, b: MainBrain)
    requires
        a.same_but_history(b),
    ensures
        a.tools == b.tools,
        a.llm_max_tokens == b.llm_max_tokens,
        a.llm_temperature == b.llm_temperature,
        a.memory_context == b.memory_context,
        a.skill_summary == b.skill_summary,
        a.bootstrap_content == b.bootstrap_content,
        a.session_prompt_tokens == b.session_prompt_tokens,
        a.session_completion_tokens == b.session_completion_tokens,
        a.session_cache_read_tokens == b.session_cache_read_tokens,
        a.pending_compressions == b.pending_compressions,
        a.compressed_indices == b.compressed_indices,
        a.compaction_triggered == b.compaction_triggered,
        a.compaction_config == b.compaction_config,
        a.compaction_count == b.compaction_count,
        a.chars_saved_by_compaction == b.chars_saved_by_compaction,
{
}

} // verus!
