//! What holds of the loop of the model and the tools.

use crate::json::{JsonView, text_of_json};
use crate::llm::provider::{MessageRole, MessageView, ResponseView, calls_tool, text_of_blocks};
use crate::llm::types::BlockView;
use crate::main_brain::tool_loop::{
    CallEventView, CallStageView, ContextHealth, HookOutputView, LoopStepView, LoopView,
    PendingCallView, WantedView, after_event, after_reply, begun, counts_fit, denied, estimate,
    event_fits, first_reason, first_step, head_of, health_of, input_tokens,
    lemma_input_chars_prefix, logged_output, message_chars, output_chars, output_for_model, pending,
    request_of, shown, shown_block, step_after_tools, step_on_reply, text_chars, text_tokens,
    wanted_of,
};
use crate::seqs::{
    lemma_filter_map_contains, lemma_filter_map_from, lemma_filter_map_len, lemma_filter_map_one,
    lemma_filter_map_parts, lemma_take_all,
};
use crate::shared::{ProgressView, ToolCallRecordView, TurnRecordView, TurnRole};
use crate::text::{decimal, lemma_decimal_digits};
use vstd::prelude::*;

verus! {

/// The tool result that answers a call with the id.
pub open spec fn is_answer_to(m: MessageView, id: Seq<char>, told: Seq<char>, is_error: bool) -> bool {
    &&& m.role == MessageRole::User
    &&& m.content.len() == 1
    &&& m.content[0] == BlockView::ToolResult { tool_use_id: id, content: told, is_error }
}

/// Nothing but the messages, the turns and the place in the calls differs.
pub open spec fn only_answers(s: LoopView, t: LoopView) -> bool {
    t == LoopView { messages: t.messages, turns: t.turns, settled: t.settled, stage: t.stage, ..s }
}

/// What a tool gives reaches the model whole, under the id of its call: only an
/// output of more than fifty thousand characters is cut, to just so many, and a
/// notice follows that tells how many there were. What is recorded and what is
/// shown is the whole output, with the name and the input of the call.
pub proof fn law_output_reaches_the_model(
    s: LoopView,
    output: Seq<char>,
    is_error: bool,
    duration_ms: u64,
    now: Seq<char>,
)
    requires
        event_fits(s, CallEventView::Executed { output, is_error, duration_ms }),
    ensures
        ({
            let e = CallEventView::Executed { output, is_error, duration_ms };
            let (t, seen) = after_event(s, e, now);
            let call = s.calls[s.settled];
            let m = t.messages.last();
            &&& t.messages.len() == s.messages.len() + 1
            &&& t.messages.drop_last() == s.messages
            &&& m.role == MessageRole::User
            &&& m.content.len() == 1
            &&& m.content[0] matches BlockView::ToolResult {
                tool_use_id,
                content,
                is_error: failed,
            } && {
                &&& tool_use_id == call.id
                &&& failed == is_error
                &&& output.len() <= 50000 ==> content == output
                &&& output.len() > 50000 ==> {
                    &&& content.len() > 50000
                    &&& content.take(50000) == output.take(50000)
                    &&& exists|a: Seq<char>, b: Seq<char>|
                        content == output.take(50000) + #[trigger] (a + decimal(output.len()) + b)
                }
            }
            &&& t.turns == s.turns.push(
                TurnRecordView {
                    role: TurnRole::ToolCall,
                    content: Seq::empty(),
                    tool_call: Some(
                        ToolCallRecordView {
                            tool_name: call.name,
                            input: call.input,
                            output,
                            duration_ms,
                            is_error,
                        },
                    ),
                    timestamp: now,
                },
            )
            &&& seen.len() == 1
            &&& seen[0] matches ProgressView::ToolDone {
                tool_name,
                duration_ms: took,
                output_preview,
                is_error: failed,
                ..
            } && tool_name == call.name && took == duration_ms && output_preview == output
                && failed == is_error
            &&& t.calls == s.calls
            &&& if s.has_hooks {
                t.settled == s.settled && (t.stage matches CallStageView::PostHook {
                    output_head,
                    is_error: failed,
                } && failed == is_error && (output.len() <= 200 ==> output_head == output) && (
                output.len() > 200 ==> output_head == output.take(200)))
            } else {
                t.settled == s.settled + 1 && t.stage is Guard
            }
            &&& only_answers(s, t)
        }),
{
    let e = CallEventView::Executed { output, is_error, duration_ms };
    let (t, seen) = after_event(s, e, now);
    assert(t.messages.drop_last() =~= s.messages);
    if output.len() > 50000 {
        let told = output_for_model(output);
        let a = "\n\n[⚠ 输出已截断：原始 "@;
        let b = " 字符，保留前 "@ + decimal(50000)
            + " 字符。请使用更精确的搜索条件或 head_limit 参数]"@;
        assert(told =~= output.take(50000) + (a + decimal(output.len()) + b));
        assert(told.take(50000) =~= output.take(50000));
        lemma_decimal_digits(output.len());
    }
}

/// A call that the guard refuses is settled at once: the model is told the
/// reason as an error, and no tool runs. A call that it lets pass is not
/// answered yet: a question goes to the user, else the hooks are asked where
/// there are some, and else the tool runs.
pub proof fn law_guard_decides(s: LoopView, refusal: Option<Seq<char>>, now: Seq<char>)
    requires
        event_fits(s, CallEventView::Guarded { refusal }),
    ensures
        ({
            let (t, seen) = after_event(s, CallEventView::Guarded { refusal }, now);
            let call = s.calls[s.settled];
            &&& t.calls == s.calls
            &&& only_answers(s, t)
            &&& match refusal {
                Some(reason) => {
                    &&& t.settled == s.settled + 1
                    &&& t.stage is Guard
                    &&& t.messages.drop_last() == s.messages
                    &&& is_answer_to(t.messages.last(), call.id, "安全拒绝: "@ + reason, true)
                    &&& t.turns.drop_last() == s.turns
                    &&& t.turns.last().tool_call matches Some(x) && x.tool_name == call.name
                        && x.input == call.input && x.output == "安全拒绝: "@ + reason && x.is_error
                    &&& seen.len() == 1
                },
                None => {
                    &&& t.settled == s.settled
                    &&& t.messages == s.messages
                    &&& t.turns == s.turns
                    &&& t.stage is User <==> call.name == "AskUserQuestion"@
                    &&& t.stage is PreHook <==> call.name != "AskUserQuestion"@ && s.has_hooks
                    &&& t.stage is Tool <==> call.name != "AskUserQuestion"@ && !s.has_hooks
                },
            }
        }),
{
    let (t, seen) = after_event(s, CallEventView::Guarded { refusal }, now);
    if refusal is Some {
        assert(t.messages.drop_last() =~= s.messages);
        assert(t.turns.drop_last() =~= s.turns);
    }
}

/// What the user answers is what the model is told, and is no error; where the
/// user went away, the model is told that.
pub proof fn law_answer_of_the_user_is_told(
    s: LoopView,
    answer: Option<Seq<char>>,
    now: Seq<char>,
)
    requires
        event_fits(s, CallEventView::Answered { answer }),
    ensures
        ({
            let (t, seen) = after_event(s, CallEventView::Answered { answer }, now);
            let told = if answer is Some {
                answer->0
            } else {
                "用户未响应"@
            };
            &&& t.settled == s.settled + 1
            &&& t.stage is Guard
            &&& t.messages.drop_last() == s.messages
            &&& is_answer_to(t.messages.last(), s.calls[s.settled].id, told, false)
            &&& only_answers(s, t)
        }),
{
    let (t, seen) = after_event(s, CallEventView::Answered { answer }, now);
    assert(t.messages.drop_last() =~= s.messages);
}

proof fn lemma_first_reason(outputs: Seq<HookOutputView>, i: int)
    requires
        0 <= i < outputs.len(),
        outputs[i].reason is Some,
        forall|k: int| 0 <= k < i ==> (#[trigger] outputs[k]).reason is None,
    ensures
        first_reason(outputs) == outputs[i].reason,
    decreases i,
{
    if i > 0 {
        assert(outputs[0].reason is None);
        let rest = outputs.skip(1);
        assert(rest[i - 1] == outputs[i]);
        assert forall|k: int| 0 <= k < i - 1 implies (#[trigger] rest[k]).reason is None by {
            assert(rest[k] == outputs[k + 1]);
        }
        lemma_first_reason(rest, i - 1);
    }
}

/// One hook that denies a call is enough: the call is settled, and the model is
/// told the first reason that a hook gives, as an error. Where none denies it,
/// the tool runs, and nothing is answered yet.
pub proof fn law_one_hook_denies(s: LoopView, outputs: Seq<HookOutputView>, now: Seq<char>, i: int)
    requires
        event_fits(s, CallEventView::Hooked { outputs }),
        0 <= i < outputs.len(),
    ensures
        ({
            let (t, seen) = after_event(s, CallEventView::Hooked { outputs }, now);
            let m = t.messages.last();
            &&& only_answers(s, t)
            &&& outputs[i].denies ==> {
                &&& t.settled == s.settled + 1
                &&& t.stage is Guard
                &&& t.messages.drop_last() == s.messages
                &&& m.role == MessageRole::User
                &&& m.content.len() == 1
                &&& m.content[0] matches BlockView::ToolResult {
                    tool_use_id,
                    content,
                    is_error,
                } && tool_use_id == s.calls[s.settled].id && is_error
            }
            &&& (exists|k: int| 0 <= k < outputs.len() && (#[trigger] outputs[k]).denies)
                && outputs[i].reason is Some && (forall|k: int|
                0 <= k < i ==> (#[trigger] outputs[k]).reason is None) ==> is_answer_to(
                m,
                s.calls[s.settled].id,
                "Hook 拒绝: "@ + outputs[i].reason->0,
                true,
            )
            &&& (forall|k: int| 0 <= k < outputs.len() ==> !(#[trigger] outputs[k]).denies) ==> {
                &&& t.stage is Tool
                &&& t.settled == s.settled
                &&& t.messages == s.messages
                &&& t.turns == s.turns
            }
        }),
{
    let (t, seen) = after_event(s, CallEventView::Hooked { outputs }, now);
    if denied(outputs) {
        assert(t.messages.drop_last() =~= s.messages);
    }
    if outputs[i].reason is Some && (forall|k: int|
        0 <= k < i ==> (#[trigger] outputs[k]).reason is None) {
        lemma_first_reason(outputs, i);
    }
}

/// Once the hooks were told of a result, the next call is looked at, and
/// nothing else changes.
pub proof fn law_post_hook_only_goes_on(s: LoopView, now: Seq<char>)
    requires
        event_fits(s, CallEventView::PostHooked),
    ensures
        ({
            let (t, seen) = after_event(s, CallEventView::PostHooked, now);
            &&& t.settled == s.settled + 1
            &&& t.stage is Guard
            &&& t.messages == s.messages
            &&& t.turns == s.turns
            &&& only_answers(s, t)
            &&& seen.len() == 0
        }),
{
}

/// The guard, the hooks and the tool are handed the name and the input of the
/// call that is next, and nothing is wanted once every call is settled.
pub proof fn law_the_call_at_hand_is_wanted(s: LoopView)
    requires
        0 <= s.settled,
    ensures
        wanted_of(s) is AllSettled <==> s.settled >= s.calls.len(),
        s.settled < s.calls.len() ==> {
            let call = s.calls[s.settled];
            &&& s.stage is Guard ==> (wanted_of(s) matches WantedView::CheckGuard { call: c }
                && c.tool_name == call.name && c.input == call.input && !c.validated)
            &&& s.stage is Tool ==> (wanted_of(s) matches WantedView::Execute { call: c }
                && c.tool_name == call.name && c.input == call.input && !c.validated)
            &&& s.stage is PreHook ==> (wanted_of(s) matches WantedView::RunPreHook {
                tool_name,
                tool_input,
            } && tool_name == call.name && tool_input == text_of_json(call.input))
            &&& s.stage matches CallStageView::PostHook { output_head, is_error } ==> (wanted_of(
                s,
            ) matches WantedView::RunPostHook {
                tool_name,
                tool_input,
                tool_output,
                is_error: failed,
            } && tool_name == call.name && tool_input == text_of_json(call.input) && tool_output
                == output_head && failed == is_error)
            &&& s.stage is User ==> (wanted_of(s) matches WantedView::AskUser {
                question,
                options,
                multi_select,
            } && {
                &&& (call.input.get("question"@) matches Some(JsonView::Str(q)) ==> question == q)
                &&& (call.input.get("options"@) matches Some(JsonView::Array(items)) ==> options
                    is Some && (forall|q: Seq<char>| #[trigger]
                    options->0.contains(q) <==> items.contains(JsonView::Str(q))))
                &&& (call.input.get("options"@) is None ==> options is None)
                &&& (call.input.get("multiSelect"@) matches Some(JsonView::Bool(b))
                    ==> multi_select == b)
                &&& (call.input.get("multiSelect"@) is None && call.input.get("multi_select"@)
                    is None ==> !multi_select)
            })
        },
{
    if s.settled < s.calls.len() && s.stage is User {
        let call = s.calls[s.settled];
        if let Some(JsonView::Array(items)) = call.input.get("options"@) {
            let f = |v: JsonView| v.as_str();
            let found = items.filter_map(f);
            assert forall|q: Seq<char>| #[trigger] found.contains(q) <==> items.contains(
                JsonView::Str(q),
            ) by {
                if found.contains(q) {
                    let i = choose|i: int| 0 <= i < found.len() && found[i] == q;
                    let k = lemma_filter_map_from(items, f, i);
                    assert(items[k] == JsonView::Str(q));
                }
                if items.contains(JsonView::Str(q)) {
                    let k = choose|k: int| 0 <= k < items.len() && items[k] == JsonView::Str(q);
                    lemma_filter_map_contains(items, f, k);
                }
            }
        }
    }
}

proof fn lemma_pending_order(content: Seq<BlockView>, n: int)
    requires
        0 <= n <= content.len(),
    ensures
        ({
            let f = |b: BlockView| pending(b);
            content.filter_map(f) == content.take(n).filter_map(f) + content.skip(n).filter_map(f)
        }),
{
    let f = |b: BlockView| pending(b);
    lemma_filter_map_parts(content.take(n), content.skip(n), f);
    assert(content =~= content.take(n) + content.skip(n));
}

/// What the model answers ends the loop or calls tools. A reply that calls tools
/// is added to the conversation as it came, as said by the assistant, and each
/// of its calls waits to be settled, with its id, name and input, and in the
/// order of the reply; a reply that calls none leaves the conversation and the
/// calls as they were.
pub proof fn law_calls_of_a_reply_wait(s: LoopView, response: ResponseView, now: Seq<char>, n: int)
    requires
        0 <= n < response.content.len(),
    ensures
        ({
            let t = after_reply(s, response, now);
            let calls = exists|i: int|
                0 <= i < response.content.len() && (#[trigger] response.content[i]) is ToolUse;
            &&& calls == calls_tool(response.content)
            &&& t.last_response == Some(response)
            &&& !calls ==> t.messages == s.messages && t.calls == s.calls && t.settled == s.settled
                && t.stage == s.stage
            &&& calls ==> {
                &&& t.messages.drop_last() == s.messages
                &&& t.messages.last().role == MessageRole::Assistant
                &&& t.messages.last().content == response.content
                &&& t.settled == 0
                &&& t.stage is Guard
                &&& forall|c: PendingCallView| #[trigger]
                    t.calls.contains(c) <==> response.content.contains(
                        BlockView::ToolUse { id: c.id, name: c.name, input: c.input },
                    )
                &&& response.content[n] matches BlockView::ToolUse { id, name, input }
                    ==> exists|k: int|
                    0 <= k < t.calls.len() && (#[trigger] t.calls[k]) == (PendingCallView {
                        id,
                        name,
                        input,
                    }) && k == response.content.take(n).filter(
                        |b: BlockView| b is ToolUse,
                    ).len()
            }
            &&& t.tools == s.tools && t.has_hooks == s.has_hooks && t.llm_calls == s.llm_calls
                && t.max_tokens == s.max_tokens && t.temperature == s.temperature
        }),
{
    let t = after_reply(s, response, now);
    let content = response.content;
    let f = |b: BlockView| pending(b);
    let found = content.filter_map(f);
    if calls_tool(content) {
        assert(t.messages.drop_last() =~= s.messages);
        assert forall|c: PendingCallView| #[trigger] found.contains(c) <==> content.contains(
            BlockView::ToolUse { id: c.id, name: c.name, input: c.input },
        ) by {
            let b = BlockView::ToolUse { id: c.id, name: c.name, input: c.input };
            if found.contains(c) {
                let i = choose|i: int| 0 <= i < found.len() && found[i] == c;
                let k = lemma_filter_map_from(content, f, i);
                assert(content[k] == b);
            }
            if content.contains(b) {
                let k = choose|k: int| 0 <= k < content.len() && content[k] == b;
                lemma_filter_map_contains(content, f, k);
            }
        }
        if let BlockView::ToolUse { id, name, input } = content[n] {
            let p = |b: BlockView| b is ToolUse;
            let c = PendingCallView { id, name, input };
            lemma_pending_order(content, n);
            lemma_pending_count(content.take(n));
            let rest = content.skip(n);
            lemma_filter_map_parts(seq![content[n]], rest.skip(1), f);
            assert(rest =~= seq![content[n]] + rest.skip(1));
            lemma_filter_map_one(content[n], f);
            let k = content.take(n).filter(p).len() as int;
            assert(found[k] == c);
            assert(t.calls[k] == c);
        }
    }
}

proof fn lemma_pending_count(content: Seq<BlockView>)
    ensures
        content.filter_map(|b: BlockView| pending(b)).len() == content.filter(
            |b: BlockView| b is ToolUse,
        ).len(),
    decreases content.len(),
{
    reveal(Seq::filter);
    reveal(Seq::filter_map);
    if content.len() > 0 {
        lemma_pending_count(content.drop_last());
    }
}

/// What the service says a call took is what is counted; where it says nothing,
/// it is three quarters of the characters. All prompts are added up, and each
/// call has a record of its own.
pub proof fn law_usage_is_counted(s: LoopView, response: ResponseView, now: Seq<char>)
    requires
        counts_fit(s, response),
    ensures
        ({
            let t = after_reply(s, response, now);
            let u = t.usage_records.last();
            &&& t.usage_records.drop_last() == s.usage_records
            &&& response.usage.prompt_tokens > 0 ==> u.prompt_tokens
                == response.usage.prompt_tokens
            &&& response.usage.completion_tokens > 0 ==> u.completion_tokens
                == response.usage.completion_tokens
            &&& u.total_tokens == u.prompt_tokens + u.completion_tokens
            &&& u.cache_read_input_tokens == response.usage.cache_read_input_tokens
            &&& u.cache_creation_input_tokens == response.usage.cache_creation_input_tokens
            &&& response.usage.prompt_tokens == 0 ==> u.prompt_tokens == input_tokens(s.messages)
            &&& response.usage.completion_tokens == 0 ==> 4 * u.completion_tokens <= 3
                * output_chars(response.content) < 4 * u.completion_tokens + 4
            &&& t.last_prompt_tokens == u.prompt_tokens
            &&& t.total_prompt_tokens == s.total_prompt_tokens + u.prompt_tokens
        }),
{
    lemma_input_chars_prefix(s.messages, s.messages.len() as int);
    lemma_take_all(s.messages);
    assert(after_reply(s, response, now).usage_records.drop_last() =~= s.usage_records);
}

/// The text of a reply is recorded as what the assistant said, where there is
/// some, and nothing is taken from the record.
pub proof fn law_text_of_a_reply_is_recorded(s: LoopView, response: ResponseView, now: Seq<char>)
    ensures
        ({
            let t = after_reply(s, response, now);
            let text = text_of_blocks(response.content);
            &&& text.len() == 0 ==> t.turns == s.turns
            &&& text.len() > 0 ==> t.turns.drop_last() == s.turns && t.turns.last()
                == (TurnRecordView {
                role: TurnRole::Assistant,
                content: text,
                tool_call: None,
                timestamp: now,
            })
        }),
{
    let t = after_reply(s, response, now);
    if text_of_blocks(response.content).len() > 0 {
        assert(t.turns.drop_last() =~= s.turns);
    }
}

/// What is told are just the texts and the thoughts that are not empty.
pub open spec fn tells_just(told: Seq<ProgressView>, content: Seq<BlockView>) -> bool {
    &&& told.len() <= content.len()
    &&& forall|text: Seq<char>| #[trigger]
        told.contains(ProgressView::TextDelta { text }) <==> text.len() > 0 && content.contains(
            BlockView::Text { text },
        )
    &&& forall|thought: Seq<char>| #[trigger]
        told.contains(ProgressView::ThinkingDelta { content: thought }) <==> thought.len() > 0
            && content.contains(BlockView::Thinking { content: thought })
}

/// What is shown of a reply are just its texts and its thoughts that are not
/// empty, and where it has neither text nor calls, a warning follows.
pub proof fn law_reply_is_shown(response: ResponseView)
    ensures
        ({
            let seen = shown(response);
            let silent = text_of_blocks(response.content).len() == 0 && !(exists|i: int|
                0 <= i < response.content.len() && (#[trigger] response.content[i]) is ToolUse);
            &&& silent ==> seen.len() > 0 && (seen.last() matches ProgressView::TextDelta { text }
                && text.len() > 0)
            &&& silent ==> tells_just(seen.drop_last(), response.content)
            &&& !silent ==> tells_just(seen, response.content)
        }),
{
    let f = |b: BlockView| shown_block(b);
    let blocks = response.content.filter_map(f);
    assert(shown(response) == blocks || shown(response).drop_last() =~= blocks);
    lemma_filter_map_len(response.content, f);
    reveal_strlit("\n⚠ ");
    assert forall|text: Seq<char>| #[trigger]
        blocks.contains(ProgressView::TextDelta { text }) <==> text.len() > 0
            && response.content.contains(BlockView::Text { text }) by {
        if blocks.contains(ProgressView::TextDelta { text }) {
            let i = choose|i: int|
                0 <= i < blocks.len() && blocks[i] == (ProgressView::TextDelta { text });
            let k = lemma_filter_map_from(response.content, f, i);
            assert(response.content[k] == BlockView::Text { text });
        }
        if text.len() > 0 && response.content.contains(BlockView::Text { text }) {
            let k = choose|k: int|
                0 <= k < response.content.len() && response.content[k] == (BlockView::Text {
                    text,
                });
            lemma_filter_map_contains(response.content, f, k);
        }
    }
    assert forall|content: Seq<char>| #[trigger]
        blocks.contains(ProgressView::ThinkingDelta { content }) <==> content.len() > 0
            && response.content.contains(BlockView::Thinking { content }) by {
        if blocks.contains(ProgressView::ThinkingDelta { content }) {
            let i = choose|i: int|
                0 <= i < blocks.len() && blocks[i] == (ProgressView::ThinkingDelta { content });
            let k = lemma_filter_map_from(response.content, f, i);
            assert(response.content[k] == BlockView::Thinking { content });
        }
        if content.len() > 0 && response.content.contains(BlockView::Thinking { content }) {
            let k = choose|k: int|
                0 <= k < response.content.len() && response.content[k] == (BlockView::Thinking {
                    content,
                });
            lemma_filter_map_contains(response.content, f, k);
        }
    }
    if text_of_blocks(response.content).len() == 0 && !calls_tool(response.content) {
        assert(shown(response).drop_last() =~= blocks);
    }
}

/// The model is asked with the whole conversation and with all the tools, and is
/// offered tools only where there are some.
pub proof fn law_request_has_the_conversation(s: LoopView)
    ensures
        ({
            let q = request_of(s.messages, s.tools, s.max_tokens, s.temperature);
            &&& q.messages == s.messages
            &&& q.max_tokens == Some(s.max_tokens)
            &&& q.temperature == Some(s.temperature)
            &&& q.tools is None <==> s.tools.len() == 0
            &&& q.tools is Some ==> q.tools->0 == s.tools
            &&& q.model is None && q.tool_choice is None
        }),
{
}

/// Four characters count as three tokens; what messages take adds up, and what
/// one takes depends on its texts, tool inputs and tool results.
pub proof fn law_estimates_add_up(messages: Seq<MessageView>, m: MessageView, chars: nat)
    ensures
        estimate(4 * chars) == 3 * chars,
        4 * estimate(chars) <= 3 * chars < 4 * estimate(chars) + 4,
        input_tokens(messages.push(m)) == input_tokens(messages) + estimate(
            message_chars(m),
        ),
        text_tokens(messages.push(m)) == text_tokens(messages) + estimate(
            text_of_blocks(m.content).len(),
        ),
        input_tokens(Seq::empty()) == 0,
        text_tokens(Seq::empty()) == 0,
{
    assert(messages.push(m).drop_last() =~= messages);
}

/// What the characters of blocks come to: those of texts, of the inputs of
/// calls and of results are sent, and those of texts, thoughts and inputs are
/// written.
pub proof fn law_characters_are_counted(role: MessageRole, blocks: Seq<BlockView>, b: BlockView)
    ensures
        message_chars(MessageView { role, content: blocks.push(b) }) == message_chars(
            MessageView { role, content: blocks },
        ) + match b {
            BlockView::Text { text } => text.len(),
            BlockView::ToolUse { input, .. } => text_of_json(input).len(),
            BlockView::ToolResult { content, .. } => content.len(),
            BlockView::Thinking { .. } => 0,
        },
        output_chars(blocks.push(b)) == output_chars(blocks) + match b {
            BlockView::Text { text } => text.len(),
            BlockView::ToolUse { input, .. } => text_of_json(input).len(),
            BlockView::ToolResult { .. } => 0,
            BlockView::Thinking { content } => content.len(),
        },
        text_of_blocks(blocks.push(b)) == text_of_blocks(blocks) + match b {
            BlockView::Text { text } => text,
            _ => Seq::empty(),
        },
        output_chars(Seq::empty()) == 0,
        text_of_blocks(Seq::empty()) == Seq::<char>::empty(),
{
    assert(blocks.push(b).drop_last() =~= blocks);
    assert(text_of_blocks(blocks) + Seq::<char>::empty() =~= text_of_blocks(blocks));
}

/// The context is in danger from eighty hundredths of its 131072 tokens on, and
/// a warning is due from sixty on.
pub proof fn law_health_by_hundredths(tokens: nat)
    ensures
        health_of(tokens) == ContextHealth::DangerFull <==> tokens * 100 >= 80 * 131072,
        health_of(tokens) == ContextHealth::Healthy <==> tokens * 100 < 60 * 131072,
{
}

/// What goes to the log of an output that is too long is its beginning, and says
/// how long it is.
pub proof fn law_log_has_the_beginning(s: Seq<char>, max: int)
    requires
        0 <= max,
    ensures
        s.len() <= max ==> logged_output(s, max) == s && head_of(s, max) == s,
        s.len() > max ==> {
            &&& head_of(s, max) == s.take(max)
            &&& logged_output(s, max).len() > max
            &&& logged_output(s, max).take(max) == s.take(max)
        },
{
    if s.len() > max {
        lemma_decimal_digits(s.len());
        assert(logged_output(s, max).take(max) =~= s.take(max));
    }
}

/// A round calls the model once, with the whole conversation, the tools and the
/// limits, and changes nothing else; where the user has cancelled, nothing
/// changes and the loop ends, with an error only where nothing was answered.
pub proof fn law_round_calls_the_model(l: LoopView)
    requires
        l.llm_calls < u32::MAX,
    ensures
        begun(l, false) == (LoopView { llm_calls: (l.llm_calls + 1) as u32, ..l }),
        begun(l, false).llm_calls == l.llm_calls + 1,
        first_step(l, false) is CallModel,
        first_step(l, false)->request.messages == l.messages,
        first_step(l, false)->request.max_tokens == Some(l.max_tokens),
        begun(l, true) == l,
        l.last_response is Some ==> first_step(l, true) == (LoopStepView::Finish {
            context_overflow: false,
        }),
        l.last_response is None ==> first_step(l, true) is Fail,
{
}

/// The tools run where the reply calls one, and only there; else the loop has
/// finished. After the tools it goes on, unless four fifths of the context are
/// taken.
pub proof fn law_reply_decides_what_follows(content: Seq<BlockView>, messages: Seq<MessageView>)
    ensures
        step_on_reply(content) is RunTools <==> exists|i: int|
            0 <= i < content.len() && (#[trigger] content[i]) is ToolUse,
        step_on_reply(content) !is RunTools ==> step_on_reply(content) == (LoopStepView::Finish {
            context_overflow: false,
        }),
        100 * text_tokens(messages) >= 80 * 131_072 ==> step_after_tools(messages) == (
        LoopStepView::Finish { context_overflow: true }),
        100 * text_tokens(messages) < 80 * 131_072 ==> step_after_tools(messages)
            == LoopStepView::Again,
{
}

/// The text of one message more takes what is estimated of it.
pub proof fn law_text_is_measured(messages: Seq<MessageView>, m: MessageView)
    ensures
        messages.len() == 0 ==> text_tokens(messages) == 0 && text_chars(messages) == 0,
        text_tokens(messages.push(m)) == text_tokens(messages) + estimate(
            text_of_blocks(m.content).len(),
        ),
        text_chars(messages.push(m)) == text_chars(messages) + text_of_blocks(m.content).len(),
{
    assert(messages.push(m).drop_last() =~= messages);
}

/// What is shown when a call is over.
pub open spec fn shown_done(
    call: PendingCallView,
    output: Seq<char>,
    duration_ms: u64,
    is_error: bool,
) -> Seq<ProgressView> {
    seq![
        ProgressView::ToolDone {
            brain: "main"@,
            tool_name: call.name,
            duration_ms,
            output_preview: output,
            is_error,
        },
    ]
}

/// `t` has recorded the call, after all that `s` had recorded.
pub open spec fn records_call(
    s: LoopView,
    t: LoopView,
    output: Seq<char>,
    duration_ms: u64,
    is_error: bool,
    now: Seq<char>,
) -> bool {
    &&& t.turns.len() == s.turns.len() + 1
    &&& t.turns.drop_last() == s.turns
    &&& t.turns.last().role == TurnRole::ToolCall
    &&& t.turns.last().timestamp == now
    &&& t.turns.last().tool_call == Some(
        ToolCallRecordView {
            tool_name: s.calls[s.settled].name,
            input: s.calls[s.settled].input,
            output,
            duration_ms,
            is_error,
        },
    )
}

/// A call that starts is shown with its input, one that is over with what came
/// of it and how long it took, which is no time where the tool did not run; and
/// what came of it is recorded as it was shown.
pub proof fn law_calls_are_shown(
    s: LoopView,
    reason: Seq<char>,
    answer: Option<Seq<char>>,
    outputs: Seq<HookOutputView>,
    output: Seq<char>,
    is_error: bool,
    duration_ms: u64,
    now: Seq<char>,
)
    requires
        0 <= s.settled < s.calls.len(),
    ensures
        ({
            let call = s.calls[s.settled];
            let start = seq![
                ProgressView::ToolStart {
                    brain: "main"@,
                    tool_name: call.name,
                    input: text_of_json(call.input),
                },
            ];
            let refused = after_event(s, CallEventView::Guarded { refusal: Some(reason) }, now);
            let passed = after_event(s, CallEventView::Guarded { refusal: None }, now);
            let told = after_event(s, CallEventView::Answered { answer }, now);
            let said = if answer is Some {
                answer->0
            } else {
                "用户未响应"@
            };
            let hooked = after_event(s, CallEventView::Hooked { outputs }, now);
            let ran = after_event(
                s,
                CallEventView::Executed { output, is_error, duration_ms },
                now,
            );
            &&& refused.1 == shown_done(call, "安全拒绝: "@ + reason, 0, true)
            &&& records_call(s, refused.0, "安全拒绝: "@ + reason, 0, true, now)
            &&& passed.1 == if passed.0.stage is Tool {
                start
            } else {
                Seq::empty()
            }
            &&& told.1 == shown_done(call, said, 0, false)
            &&& records_call(s, told.0, said, 0, false, now)
            &&& ran.1 == shown_done(call, output, duration_ms, is_error)
            &&& records_call(s, ran.0, output, duration_ms, is_error, now)
            &&& (forall|k: int| 0 <= k < outputs.len() ==> !(#[trigger] outputs[k]).denies)
                ==> hooked.1 == start
            &&& (exists|k: int| 0 <= k < outputs.len() && (#[trigger] outputs[k]).denies) && (
            forall|k: int| 0 <= k < outputs.len() ==> (#[trigger] outputs[k]).reason is None)
                ==> hooked.1 == shown_done(
                call,
                "Hook 拒绝: "@ + "PreToolUse hook denied"@,
                0,
                true,
            )
        }),
        s.stage is User ==> (s.calls[s.settled].input.get("multiSelect"@) is None
            && s.calls[s.settled].input.get("multi_select"@) == Some(JsonView::Bool(true)) ==> (
        wanted_of(s) matches WantedView::AskUser { multi_select, .. } && multi_select)),
        s.stage is User ==> (s.calls[s.settled].input.get("question"@) is None ==> (wanted_of(
            s,
        ) matches WantedView::AskUser { question, .. } && question.len() == 0)),
{
    let refused = after_event(s, CallEventView::Guarded { refusal: Some(reason) }, now).0;
    let told = after_event(s, CallEventView::Answered { answer }, now).0;
    let ran = after_event(
        s,
        CallEventView::Executed { output, is_error, duration_ms },
        now,
    ).0;
    assert(refused.turns.drop_last() =~= s.turns);
    assert(told.turns.drop_last() =~= s.turns);
    assert(ran.turns.drop_last() =~= s.turns);
    if forall|k: int| 0 <= k < outputs.len() ==> (#[trigger] outputs[k]).reason is None {
        lemma_no_reason(outputs);
    }
}

proof fn lemma_no_reason(outputs: Seq<HookOutputView>)
    requires
        forall|k: int| 0 <= k < outputs.len() ==> (#[trigger] outputs[k]).reason is None,
    ensures
        first_reason(outputs) is None,
    decreases outputs.len(),
{
    if outputs.len() > 0 {
        let rest = outputs.skip(1);
        assert(outputs[0].reason is None);
        assert forall|k: int| 0 <= k < rest.len() implies (#[trigger] rest[k]).reason is None by {
            assert(rest[k] == outputs[k + 1]);
        }
        lemma_no_reason(rest);
    }
}

} // verus!
