//! The loop in which the model and the tools take turns.
//!
//! A [`ToolLoop`] holds everything the loop knows. Whoever drives it asks the
//! model when told to, hands the reply in, and does for each tool call what
//! [`ToolLoop::wanted`] asks for, until the loop says that it has finished.

use crate::json::{text_of_json, Json, JsonView};
use crate::llm::provider::{
    calls_tool, text_of_blocks, text_of_content, tool_result_message, ChatMessage, ChatRequest,
    ChatResponse, MessageRole, MessageView, RequestView, ResponseView,
};
use crate::llm::types::{
    BlockView, ContentBlock, FinishReason, TokenUsage, ToolDefinition, ToolDefinitionView,
};
use crate::main_brain::error::{MainBrainError, MainBrainErrorView};
use crate::replicate::{copies, Replicate};
use crate::seqs::{
    lemma_deep_push, lemma_filter_map_none, lemma_filter_map_step, lemma_take_all, lemma_take_step,
};
use crate::shared::{
    ProgressEvent, ProgressView, ToolCall, ToolCallRecord, ToolCallRecordView, ToolCallView,
    TurnRecord, TurnRecordView, TurnRole,
};
use crate::text::{char_count, chars_of, decimal, number, same, text_of};
use vstd::prelude::*;

verus! {

// ---------------------------------------------------------------------------
// Estimates
// ---------------------------------------------------------------------------

/// The most tokens that the context may hold.
pub const CONTEXT_MAX_TOKENS: usize = 131072;

/// The most characters of a tool's output that the model sees.
pub const MAX_TOOL_OUTPUT_CHARS: usize = 50000;

/// About how many tokens so many characters take.
pub open spec fn estimate(chars: nat) -> nat {
    chars * 3 / 4
}

/// The characters of the tool inputs and tool results among the blocks.
pub open spec fn tool_chars(blocks: Seq<BlockView>) -> nat
    decreases blocks.len(),
{
    if blocks.len() == 0 {
        0
    } else {
        tool_chars(blocks.drop_last()) + match blocks.last() {
            BlockView::ToolUse { input, .. } => text_of_json(input).len(),
            BlockView::ToolResult { content, .. } => content.len(),
            _ => 0,
        }
    }
}

/// The characters of a message that go to the model.
pub open spec fn message_chars(m: MessageView) -> nat {
    text_of_blocks(m.content).len() + tool_chars(m.content)
}

/// The characters of the messages that go to the model.
pub open spec fn input_chars(messages: Seq<MessageView>) -> nat
    decreases messages.len(),
{
    if messages.len() == 0 {
        0
    } else {
        input_chars(messages.drop_last()) + message_chars(messages.last())
    }
}

/// About how many tokens the messages take.
pub open spec fn input_tokens(messages: Seq<MessageView>) -> nat
    decreases messages.len(),
{
    if messages.len() == 0 {
        0
    } else {
        input_tokens(messages.drop_last()) + estimate(message_chars(messages.last()))
    }
}

/// The characters of the text of the messages.
pub open spec fn text_chars(messages: Seq<MessageView>) -> nat
    decreases messages.len(),
{
    if messages.len() == 0 {
        0
    } else {
        text_chars(messages.drop_last()) + text_of_blocks(messages.last().content).len()
    }
}

/// About how many tokens the text of the messages takes.
pub open spec fn text_tokens(messages: Seq<MessageView>) -> nat
    decreases messages.len(),
{
    if messages.len() == 0 {
        0
    } else {
        text_tokens(messages.drop_last()) + estimate(
            text_of_blocks(messages.last().content).len(),
        )
    }
}

/// The characters that the model wrote.
pub open spec fn output_chars(blocks: Seq<BlockView>) -> nat
    decreases blocks.len(),
{
    if blocks.len() == 0 {
        0
    } else {
        output_chars(blocks.drop_last()) + match blocks.last() {
            BlockView::Text { text } => text.len(),
            BlockView::Thinking { content } => content.len(),
            BlockView::ToolUse { input, .. } => text_of_json(input).len(),
            _ => 0,
        }
    }
}

pub(crate) proof fn lemma_input_chars_prefix(messages: Seq<MessageView>, i: int)
    requires
        0 <= i <= messages.len(),
    ensures
        input_chars(messages.take(i)) <= input_chars(messages),
        input_tokens(messages.take(i)) <= input_chars(messages.take(i)),
    decreases messages.len() + i,
{
    if i == messages.len() {
        lemma_take_all(messages);
        if i > 0 {
            lemma_take_step(messages, i - 1);
            lemma_input_chars_prefix(messages, i - 1);
        }
    } else {
        let shorter = messages.drop_last();
        assert(shorter.take(i) =~= messages.take(i));
        lemma_input_chars_prefix(shorter, i);
    }
}

pub(crate) proof fn lemma_text_chars_prefix(messages: Seq<MessageView>, i: int)
    requires
        0 <= i <= messages.len(),
    ensures
        text_chars(messages.take(i)) <= text_chars(messages),
        text_tokens(messages.take(i)) <= text_chars(messages.take(i)),
    decreases messages.len() + i,
{
    if i == messages.len() {
        lemma_take_all(messages);
        if i > 0 {
            lemma_take_step(messages, i - 1);
            lemma_text_chars_prefix(messages, i - 1);
        }
    } else {
        let shorter = messages.drop_last();
        assert(shorter.take(i) =~= messages.take(i));
        lemma_text_chars_prefix(shorter, i);
    }
}

pub(crate) proof fn lemma_tool_chars_prefix(blocks: Seq<BlockView>, i: int)
    requires
        0 <= i <= blocks.len(),
    ensures
        tool_chars(blocks.take(i)) <= tool_chars(blocks),
        output_chars(blocks.take(i)) <= output_chars(blocks),
    decreases blocks.len() - i,
{
    if i == blocks.len() {
        lemma_take_all(blocks);
    } else {
        lemma_take_step(blocks, i);
        lemma_tool_chars_prefix(blocks, i + 1);
    }
}

fn message_char_count(m: &ChatMessage) -> (r: usize)
    requires
        message_chars(m.deep_view()) <= usize::MAX,
    ensures
        r == message_chars(m.deep_view()),
{
    let text = text_of_content(m.content.as_slice());
    let mut chars: usize = char_count(text.as_str());
    let ghost blocks = m.content.deep_view();
    let ghost text_len = text_of_blocks(blocks).len();
    let mut i: usize = 0;
    assert(blocks.take(0) =~= Seq::<BlockView>::empty());
    while i < m.content.len()
        invariant
            i <= m.content@.len(),
            blocks == m.content.deep_view(),
            text_len + tool_chars(blocks) <= usize::MAX,
            chars == text_len + tool_chars(blocks.take(i as int)),
        decreases m.content@.len() - i,
    {
        proof {
            lemma_take_step(blocks, i as int);
            lemma_tool_chars_prefix(blocks, i + 1);
            assert(blocks[i as int] == m.content@[i as int].deep_view());
        }
        match &m.content[i] {
            ContentBlock::ToolUse { input, .. } => {
                let written = input.to_text();
                chars = chars + char_count(written.as_str());
            },
            ContentBlock::ToolResult { content, .. } => {
                chars = chars + char_count(content.as_str());
            },
            _ => {},
        }
        i = i + 1;
    }
    proof {
        lemma_take_all(blocks);
    }
    chars
}

/// About how many tokens the messages take, for when the service does not say.
pub fn estimate_input_tokens(messages: &[ChatMessage]) -> (r: u64)
    requires
        input_chars(messages.deep_view()) * 3 <= usize::MAX,
    ensures
        r == input_tokens(messages.deep_view()),
{
    let ghost all = messages.deep_view();
    let mut sum: u64 = 0;
    let mut i: usize = 0;
    assert(all.take(0) =~= Seq::<MessageView>::empty());
    while i < messages.len()
        invariant
            i <= messages@.len(),
            all == messages.deep_view(),
            input_chars(all) * 3 <= usize::MAX,
            sum == input_tokens(all.take(i as int)),
        decreases messages@.len() - i,
    {
        proof {
            lemma_take_step(all, i as int);
            lemma_input_chars_prefix(all, i + 1);
            assert(all[i as int] == messages@[i as int].deep_view());
        }
        let chars: usize = message_char_count(&messages[i]);
        sum = sum + (chars * 3 / 4) as u64;
        i = i + 1;
    }
    proof {
        lemma_take_all(all);
    }
    sum
}

/// About how many tokens the model wrote, for when the service does not say.
pub fn estimate_output_tokens(response: &ChatResponse) -> (r: u64)
    requires
        output_chars(response.deep_view().content) * 3 <= usize::MAX,
    ensures
        r == estimate(output_chars(response.deep_view().content)),
{
    let ghost blocks = response.content.deep_view();
    let mut chars: usize = 0;
    let mut i: usize = 0;
    assert(blocks.take(0) =~= Seq::<BlockView>::empty());
    while i < response.content.len()
        invariant
            i <= response.content@.len(),
            blocks == response.content.deep_view(),
            output_chars(blocks) * 3 <= usize::MAX,
            chars == output_chars(blocks.take(i as int)),
        decreases response.content@.len() - i,
    {
        proof {
            lemma_take_step(blocks, i as int);
            lemma_tool_chars_prefix(blocks, i + 1);
            assert(blocks[i as int] == response.content@[i as int].deep_view());
        }
        match &response.content[i] {
            ContentBlock::Text { text } => {
                chars = chars + char_count(text.as_str());
            },
            ContentBlock::Thinking { content } => {
                chars = chars + char_count(content.as_str());
            },
            ContentBlock::ToolUse { input, .. } => {
                let written = input.to_text();
                chars = chars + char_count(written.as_str());
            },
            _ => {},
        }
        i = i + 1;
    }
    proof {
        lemma_take_all(blocks);
    }
    (chars * 3 / 4) as u64
}

// ---------------------------------------------------------------------------
// Health of the context
// ---------------------------------------------------------------------------

/// How full the context is.
#[derive(Debug, Clone, Copy, PartialEq, Eq, Structural)]
pub enum ContextHealth {
    /// Under three fifths.
    Healthy,
    /// At three fifths or more: the tool results should be made smaller.
    WarningToolResults,
    /// At four fifths or more: the whole conversation has to be made smaller.
    DangerFull,
}

/// How full a context of so many tokens is.
pub open spec fn health_of(tokens: nat) -> ContextHealth {
    if 5 * tokens >= 4 * CONTEXT_MAX_TOKENS {
        ContextHealth::DangerFull
    } else if 5 * tokens >= 3 * CONTEXT_MAX_TOKENS {
        ContextHealth::WarningToolResults
    } else {
        ContextHealth::Healthy
    }
}

/// How full the context is, by an estimate of what its text takes.
pub fn check_context_health(messages: &[ChatMessage]) -> (r: ContextHealth)
    requires
        text_chars(messages.deep_view()) * 3 <= usize::MAX,
    ensures
        r == health_of(text_tokens(messages.deep_view())),
{
    let ghost all = messages.deep_view();
    let mut tokens: usize = 0;
    let mut i: usize = 0;
    assert(all.take(0) =~= Seq::<MessageView>::empty());
    while i < messages.len()
        invariant
            i <= messages@.len(),
            all == messages.deep_view(),
            text_chars(all) * 3 <= usize::MAX,
            tokens == text_tokens(all.take(i as int)),
        decreases messages@.len() - i,
    {
        proof {
            lemma_take_step(all, i as int);
            lemma_text_chars_prefix(all, i + 1);
            assert(all[i as int] == messages@[i as int].deep_view());
        }
        let text = messages[i].text_content();
        let chars: usize = char_count(text.as_str());
        tokens = tokens + chars * 3 / 4;
        i = i + 1;
    }
    proof {
        lemma_take_all(all);
    }
    // Four fifths and three fifths of the limit, rounded up.
    if tokens >= 104858 {
        ContextHealth::DangerFull
    } else if tokens >= 78644 {
        ContextHealth::WarningToolResults
    } else {
        ContextHealth::Healthy
    }
}

// ---------------------------------------------------------------------------
// Outputs of tools
// ---------------------------------------------------------------------------

/// `s` cut to `max` characters.
pub open spec fn head_of(s: Seq<char>, max: int) -> Seq<char> {
    if s.len() <= max {
        s
    } else {
        s.take(max)
    }
}

/// The first `max` characters of `s`.
pub fn head(s: &str, max: usize) -> (r: String)
    ensures
        r@ == head_of(s@, max as int),
{
    let cs = chars_of(s);
    if cs.len() <= max {
        return s.to_owned();
    }
    let r = text_of(&cs, 0, max);
    assert(r@ =~= s@.take(max as int));
    r
}

/// How a tool's output is written to the log.
pub open spec fn logged_output(s: Seq<char>, max: int) -> Seq<char> {
    if s.len() <= max {
        s
    } else {
        s.take(max) + "... [共"@ + decimal(s.len()) + "字, 截断显示]"@
    }
}

/// How a tool's output is written to the log: at most `max` characters of it.
pub fn truncate_tool_output_for_log(s: &str, max: usize) -> (r: String)
    ensures
        r@ == logged_output(s@, max as int),
{
    let count: usize = char_count(s);
    if count <= max {
        return s.to_owned();
    }
    let mut r = head(s, max);
    let n = number(count as u64);
    r.append("... [共");
    r.append(n.as_str());
    r.append("字, 截断显示]");
    r
}

/// What the model sees of a tool's output.
pub open spec fn output_for_model(output: Seq<char>) -> Seq<char> {
    if output.len() > MAX_TOOL_OUTPUT_CHARS {
        output.take(MAX_TOOL_OUTPUT_CHARS as int) + "\n\n[⚠ 输出已截断：原始 "@ + decimal(
            output.len(),
        ) + " 字符，保留前 "@ + decimal(MAX_TOOL_OUTPUT_CHARS as nat)
            + " 字符。请使用更精确的搜索条件或 head_limit 参数]"@
    } else {
        output
    }
}

/// What the model sees of a tool's output: at most the first
/// [`MAX_TOOL_OUTPUT_CHARS`] characters, with a notice where more was cut.
pub fn limit_output(output: &str) -> (r: String)
    ensures
        r@ == output_for_model(output@),
{
    let count: usize = char_count(output);
    if count > MAX_TOOL_OUTPUT_CHARS {
        let mut r = head(output, MAX_TOOL_OUTPUT_CHARS);
        let all = number(count as u64);
        let kept = number(MAX_TOOL_OUTPUT_CHARS as u64);
        r.append("\n\n[⚠ 输出已截断：原始 ");
        r.append(all.as_str());
        r.append(" 字符，保留前 ");
        r.append(kept.as_str());
        r.append(" 字符。请使用更精确的搜索条件或 head_limit 参数]");
        r
    } else {
        output.to_owned()
    }
}

// ---------------------------------------------------------------------------
// The loop
// ---------------------------------------------------------------------------

/// A tool call that waits to be settled.
#[derive(Debug, PartialEq)]
pub struct PendingCall {
    pub id: String,
    pub name: String,
    pub input: Json,
}

/// What a waiting tool call is.
#[verifier::ext_equal]
pub struct PendingCallView {
    pub id: Seq<char>,
    pub name: Seq<char>,
    pub input: JsonView,
}

impl DeepView for PendingCall {
    type V = PendingCallView;

    open spec fn deep_view(&self) -> PendingCallView {
        PendingCallView { id: self.id@, name: self.name@, input: self.input.deep_view() }
    }
}

/// How far the current tool call has come.
#[derive(Debug, PartialEq)]
pub enum CallStage {
    /// The guard has to look at it.
    Guard,
    /// It is a question to the user, who has to answer it.
    User,
    /// The hooks that run before a tool have to look at it.
    PreHook,
    /// The tool has to run.
    Tool,
    /// The hooks that run after a tool have to be told.
    PostHook { output_head: String, is_error: bool },
}

/// What a stage is.
pub enum CallStageView {
    Guard,
    User,
    PreHook,
    Tool,
    PostHook { output_head: Seq<char>, is_error: bool },
}

impl DeepView for CallStage {
    type V = CallStageView;

    open spec fn deep_view(&self) -> CallStageView {
        match *self {
            CallStage::Guard => CallStageView::Guard,
            CallStage::User => CallStageView::User,
            CallStage::PreHook => CallStageView::PreHook,
            CallStage::Tool => CallStageView::Tool,
            CallStage::PostHook { output_head, is_error } => CallStageView::PostHook {
                output_head: output_head@,
                is_error,
            },
        }
    }
}

/// Everything that the loop knows.
#[derive(Debug)]
pub struct ToolLoop {
    pub messages: Vec<ChatMessage>,
    pub tools: Vec<ToolDefinition>,
    pub max_tokens: u32,
    /// The sampling temperature, as it is written in decimal.
    pub temperature: String,
    /// Whether there are hooks.
    pub has_hooks: bool,
    /// How often the model was asked.
    pub llm_calls: u32,
    pub turns: Vec<TurnRecord>,
    /// The prompt tokens of all calls.
    pub total_prompt_tokens: u64,
    /// The prompt tokens of the last call.
    pub last_prompt_tokens: u64,
    pub usage_records: Vec<TokenUsage>,
    pub last_response: Option<ChatResponse>,
    /// The tool calls of the last reply.
    pub calls: Vec<PendingCall>,
    /// How many of the tool calls are settled.
    pub settled: usize,
    /// How far the next one has come.
    pub stage: CallStage,
}

/// What the state of the loop is.
#[verifier::ext_equal]
pub struct LoopView {
    pub messages: Seq<MessageView>,
    pub tools: Seq<ToolDefinitionView>,
    pub max_tokens: u32,
    pub temperature: Seq<char>,
    pub has_hooks: bool,
    pub llm_calls: u32,
    pub turns: Seq<TurnRecordView>,
    pub total_prompt_tokens: u64,
    pub last_prompt_tokens: u64,
    pub usage_records: Seq<TokenUsage>,
    pub last_response: Option<ResponseView>,
    pub calls: Seq<PendingCallView>,
    pub settled: int,
    pub stage: CallStageView,
}

impl DeepView for ToolLoop {
    type V = LoopView;

    open spec fn deep_view(&self) -> LoopView {
        LoopView {
            messages: self.messages.deep_view(),
            tools: self.tools.deep_view(),
            max_tokens: self.max_tokens,
            temperature: self.temperature@,
            has_hooks: self.has_hooks,
            llm_calls: self.llm_calls,
            turns: self.turns.deep_view(),
            total_prompt_tokens: self.total_prompt_tokens,
            last_prompt_tokens: self.last_prompt_tokens,
            usage_records: self.usage_records.deep_view(),
            last_response: self.last_response.deep_view(),
            calls: self.calls.deep_view(),
            settled: self.settled as int,
            stage: self.stage.deep_view(),
        }
    }
}

/// What the loop comes to.
#[derive(Debug)]
pub struct ToolLoopResult {
    pub response: ChatResponse,
    pub llm_calls: u32,
    pub turns: Vec<TurnRecord>,
    pub total_prompt_tokens: u64,
    pub last_prompt_tokens: u64,
    pub usage_records: Vec<TokenUsage>,
    /// Whether the loop stopped because the context became too full.
    pub context_overflow: bool,
}

/// What has to be done next.
#[derive(Debug, PartialEq)]
pub enum LoopStep {
    /// Ask the model this.
    CallModel { request: ChatRequest },
    /// Settle the tool calls.
    RunTools,
    /// Go round once more.
    Again,
    /// The loop has finished.
    Finish { context_overflow: bool },
    /// The loop has failed.
    Fail { error: MainBrainError },
}

/// What a step is.
pub enum LoopStepView {
    CallModel { request: RequestView },
    RunTools,
    Again,
    Finish { context_overflow: bool },
    Fail { error: MainBrainErrorView },
}

impl DeepView for LoopStep {
    type V = LoopStepView;

    open spec fn deep_view(&self) -> LoopStepView {
        match *self {
            LoopStep::CallModel { request } => LoopStepView::CallModel {
                request: request.deep_view(),
            },
            LoopStep::RunTools => LoopStepView::RunTools,
            LoopStep::Again => LoopStepView::Again,
            LoopStep::Finish { context_overflow } => LoopStepView::Finish { context_overflow },
            LoopStep::Fail { error } => LoopStepView::Fail { error: error.deep_view() },
        }
    }
}

/// What became of a call of the model.
#[derive(Debug)]
pub enum ModelReply {
    Answer { response: ChatResponse },
    Failed { message: String },
    TimedOut,
}

/// The request for the model.
pub open spec fn request_of(
    messages: Seq<MessageView>,
    tools: Seq<ToolDefinitionView>,
    max_tokens: u32,
    temperature: Seq<char>,
) -> RequestView {
    RequestView {
        model: None,
        messages,
        max_tokens: Some(max_tokens),
        temperature: Some(temperature),
        tools: if tools.len() == 0 {
            None
        } else {
            Some(tools)
        },
        tool_choice: None,
    }
}

/// The request for the model; it offers tools only where there are some.
pub fn build_request(
    messages: &[ChatMessage],
    tools: &[ToolDefinition],
    max_tokens: u32,
    temperature: &str,
) -> (r: ChatRequest)
    ensures
        r.deep_view() == request_of(
            messages.deep_view(),
            tools.deep_view(),
            max_tokens,
            temperature@,
        ),
{
    let offered: Option<Vec<ToolDefinition>> = if tools.len() == 0 {
        None
    } else {
        Some(copies(tools))
    };
    let r = ChatRequest {
        model: None,
        messages: copies(messages),
        max_tokens: Some(max_tokens),
        temperature: Some(temperature.to_owned()),
        tools: offered,
        tool_choice: None,
    };
    assert(r.deep_view() =~= request_of(
        messages.deep_view(),
        tools.deep_view(),
        max_tokens,
        temperature@,
    ));
    r
}

/// What a call took: what the service says, and an estimate where it says
/// nothing.
pub open spec fn corrected_usage(response: ResponseView, messages: Seq<MessageView>) -> TokenUsage {
    let prompt: nat = if response.usage.prompt_tokens > 0 {
        response.usage.prompt_tokens as nat
    } else {
        input_tokens(messages)
    };
    let completion: nat = if response.usage.completion_tokens > 0 {
        response.usage.completion_tokens as nat
    } else {
        estimate(output_chars(response.content))
    };
    TokenUsage {
        prompt_tokens: prompt as u64,
        completion_tokens: completion as u64,
        total_tokens: (prompt + completion) as u64,
        cache_creation_input_tokens: response.usage.cache_creation_input_tokens,
        cache_read_input_tokens: response.usage.cache_read_input_tokens,
    }
}

/// The counts that a reply leads to fit their types.
pub open spec fn counts_fit(s: LoopView, response: ResponseView) -> bool {
    let u = corrected_usage(response, s.messages);
    &&& input_chars(s.messages) * 3 <= usize::MAX
    &&& output_chars(response.content) * 3 <= usize::MAX
    &&& u.prompt_tokens + u.completion_tokens <= u64::MAX
    &&& s.total_prompt_tokens + u.prompt_tokens <= u64::MAX
}

/// What a reply without text and without tool calls is taken to mean.
pub open spec fn empty_reason(finish: Option<FinishReason>) -> Seq<char> {
    match finish {
        Some(FinishReason::MaxTokens) =>
            "模型因上下文长度限制截断，返回了空响应。请尝试缩短对话或开启压缩。"@,
        Some(FinishReason::ToolUse) =>
            "模型返回了工具调用标记但无实际内容（API 响应格式异常）。"@,
        _ => "模型返回了空响应（无文本无工具调用），可能是上下文过长或模型服务异常。"@,
    }
}

/// What is shown of a block.
pub open spec fn shown_block(b: BlockView) -> Option<ProgressView> {
    match b {
        BlockView::Text { text } => if text.len() > 0 {
            Some(ProgressView::TextDelta { text })
        } else {
            None
        },
        BlockView::Thinking { content } => if content.len() > 0 {
            Some(ProgressView::ThinkingDelta { content })
        } else {
            None
        },
        _ => None,
    }
}

/// What is shown of a reply.
pub open spec fn shown(response: ResponseView) -> Seq<ProgressView> {
    let blocks = response.content.filter_map(|b: BlockView| shown_block(b));
    if text_of_blocks(response.content).len() == 0 && !calls_tool(response.content) {
        blocks.push(
            ProgressView::TextDelta {
                text: "\n⚠ "@ + empty_reason(response.finish_reason) + "\n"@,
            },
        )
    } else {
        blocks
    }
}

/// The turns after a reply: its text is recorded, where there is some.
pub open spec fn turns_after(
    turns: Seq<TurnRecordView>,
    response: ResponseView,
    now: Seq<char>,
) -> Seq<TurnRecordView> {
    let text = text_of_blocks(response.content);
    if text.len() > 0 {
        turns.push(
            TurnRecordView {
                role: TurnRole::Assistant,
                content: text,
                tool_call: None,
                timestamp: now,
            },
        )
    } else {
        turns
    }
}

/// A tool-use block as a call that waits.
pub open spec fn pending(b: BlockView) -> Option<PendingCallView> {
    match b {
        BlockView::ToolUse { id, name, input } => Some(PendingCallView { id, name, input }),
        _ => None,
    }
}

/// The state after a reply.
pub open spec fn after_reply(s: LoopView, response: ResponseView, now: Seq<char>) -> LoopView {
    let usage = corrected_usage(response, s.messages);
    let counted = LoopView {
        last_prompt_tokens: usage.prompt_tokens,
        total_prompt_tokens: (s.total_prompt_tokens + usage.prompt_tokens) as u64,
        usage_records: s.usage_records.push(usage),
        last_response: Some(response),
        turns: turns_after(s.turns, response, now),
        ..s
    };
    if calls_tool(response.content) {
        LoopView {
            messages: s.messages.push(
                MessageView { role: MessageRole::Assistant, content: response.content },
            ),
            calls: response.content.filter_map(|b: BlockView| pending(b)),
            settled: 0,
            stage: CallStageView::Guard,
            ..counted
        }
    } else {
        counted
    }
}

/// The question of a call that asks the user.
pub open spec fn question_of(input: JsonView) -> Seq<char> {
    match input.str_at("question"@) {
        Some(q) => q,
        None => Seq::empty(),
    }
}

/// The answers that a call that asks the user offers.
pub open spec fn options_of(input: JsonView) -> Option<Seq<Seq<char>>> {
    match input.array_at("options"@) {
        Some(items) => Some(items.filter_map(|v: JsonView| v.as_str())),
        None => None,
    }
}

/// Whether a call that asks the user takes several answers.
pub open spec fn multi_select_of(input: JsonView) -> bool {
    let given = match input.get("multiSelect"@) {
        Some(v) => Some(v),
        None => input.get("multi_select"@),
    };
    match given {
        Some(v) => match v.as_bool() {
            Some(b) => b,
            None => false,
        },
        None => false,
    }
}

fn pending_calls(content: &[ContentBlock]) -> (r: Vec<PendingCall>)
    ensures
        r.deep_view() == content.deep_view().filter_map(|b: BlockView| pending(b)),
{
    let ghost all = content.deep_view();
    let ghost f = |b: BlockView| pending(b);
    let mut r: Vec<PendingCall> = Vec::new();
    let mut i: usize = 0;
    proof {
        lemma_filter_map_none(all, f);
        assert(r.deep_view() =~= Seq::<PendingCallView>::empty());
    }
    while i < content.len()
        invariant
            i <= content@.len(),
            all == content.deep_view(),
            f == (|b: BlockView| pending(b)),
            r.deep_view() == all.take(i as int).filter_map(f),
        decreases content@.len() - i,
    {
        proof {
            lemma_filter_map_step(all, i as int, f);
            assert(all[i as int] == content@[i as int].deep_view());
        }
        if let ContentBlock::ToolUse { id, name, input } = &content[i] {
            let ghost before = r;
            let call = PendingCall {
                id: id.clone(),
                name: name.clone(),
                input: input.replicate(),
            };
            r.push(call);
            proof {
                lemma_deep_push(before, r, call);
            }
        }
        i = i + 1;
    }
    proof {
        lemma_take_all(all);
    }
    r
}

fn shown_blocks(content: &[ContentBlock]) -> (r: Vec<ProgressEvent>)
    ensures
        r.deep_view() == content.deep_view().filter_map(|b: BlockView| shown_block(b)),
{
    let ghost all = content.deep_view();
    let ghost f = |b: BlockView| shown_block(b);
    let mut r: Vec<ProgressEvent> = Vec::new();
    let mut i: usize = 0;
    proof {
        lemma_filter_map_none(all, f);
        assert(r.deep_view() =~= Seq::<ProgressView>::empty());
    }
    while i < content.len()
        invariant
            i <= content@.len(),
            all == content.deep_view(),
            f == (|b: BlockView| shown_block(b)),
            r.deep_view() == all.take(i as int).filter_map(f),
        decreases content@.len() - i,
    {
        proof {
            lemma_filter_map_step(all, i as int, f);
            assert(all[i as int] == content@[i as int].deep_view());
        }
        let ghost before = r;
        match &content[i] {
            ContentBlock::Text { text } => {
                if !text.as_str().is_empty() {
                    let e = ProgressEvent::TextDelta { text: text.clone() };
                    r.push(e);
                    proof {
                        lemma_deep_push(before, r, e);
                    }
                }
            },
            ContentBlock::Thinking { content } => {
                if !content.as_str().is_empty() {
                    let e = ProgressEvent::ThinkingDelta { content: content.clone() };
                    r.push(e);
                    proof {
                        lemma_deep_push(before, r, e);
                    }
                }
            },
            _ => {},
        }
        i = i + 1;
    }
    proof {
        lemma_take_all(all);
    }
    r
}

/// What is shown of a reply: its texts and its reasoning, and a warning where
/// it holds neither text nor tool calls.
pub fn show_reply(response: &ChatResponse) -> (r: Vec<ProgressEvent>)
    ensures
        r.deep_view() == shown(response.deep_view()),
{
    let mut events = shown_blocks(response.content.as_slice());
    let text = response.text();
    if text.as_str().is_empty() && !response.has_tool_calls() {
        let reason = match response.finish_reason {
            Some(FinishReason::MaxTokens) =>
                "模型因上下文长度限制截断，返回了空响应。请尝试缩短对话或开启压缩。",
            Some(FinishReason::ToolUse) =>
                "模型返回了工具调用标记但无实际内容（API 响应格式异常）。",
            _ => "模型返回了空响应（无文本无工具调用），可能是上下文过长或模型服务异常。",
        };
        let mut warning = "\n⚠ ".to_owned();
        warning.append(reason);
        warning.append("\n");
        let ghost before = events;
        let e = ProgressEvent::TextDelta { text: warning };
        events.push(e);
        proof {
            lemma_deep_push(before, events, e);
        }
    }
    events
}

/// The loop once a round has begun: the call of the model is counted, unless the
/// user has cancelled.
pub open spec fn begun(l: LoopView, cancelled: bool) -> LoopView {
    if cancelled {
        l
    } else {
        LoopView { llm_calls: (l.llm_calls + 1) as u32, ..l }
    }
}

/// What a round begins with: a call of the model; or, where the user has
/// cancelled, the end with what was answered last, or with an error.
pub open spec fn first_step(l: LoopView, cancelled: bool) -> LoopStepView {
    if !cancelled {
        LoopStepView::CallModel {
            request: request_of(l.messages, l.tools, l.max_tokens, l.temperature),
        }
    } else if l.last_response is Some {
        LoopStepView::Finish { context_overflow: false }
    } else {
        LoopStepView::Fail { error: MainBrainErrorView::LlmError("查询被用户取消"@) }
    }
}

/// What follows a reply: its calls, or else the end.
pub open spec fn step_on_reply(content: Seq<BlockView>) -> LoopStepView {
    if calls_tool(content) {
        LoopStepView::RunTools
    } else {
        LoopStepView::Finish { context_overflow: false }
    }
}

/// What follows the calls: the next round, or the end where the context is full.
pub open spec fn step_after_tools(messages: Seq<MessageView>) -> LoopStepView {
    if health_of(text_tokens(messages)) == ContextHealth::DangerFull {
        LoopStepView::Finish { context_overflow: true }
    } else {
        LoopStepView::Again
    }
}

impl ToolLoop {
    /// A loop that starts with `messages`.
    pub fn new(
        messages: Vec<ChatMessage>,
        tools: Vec<ToolDefinition>,
        max_tokens: u32,
        temperature: &str,
        has_hooks: bool,
    ) -> (r: Self)
        ensures
            r.deep_view() == (LoopView {
                messages: messages.deep_view(),
                tools: tools.deep_view(),
                max_tokens,
                temperature: temperature@,
                has_hooks,
                llm_calls: 0,
                turns: Seq::empty(),
                total_prompt_tokens: 0,
                last_prompt_tokens: 0,
                usage_records: Seq::empty(),
                last_response: None,
                calls: Seq::empty(),
                settled: 0,
                stage: CallStageView::Guard,
            }),
    {
        let r = ToolLoop {
            messages,
            tools,
            max_tokens,
            temperature: temperature.to_owned(),
            has_hooks,
            llm_calls: 0,
            turns: Vec::new(),
            total_prompt_tokens: 0,
            last_prompt_tokens: 0,
            usage_records: Vec::new(),
            last_response: None,
            calls: Vec::new(),
            settled: 0,
            stage: CallStage::Guard,
        };
        assert(r.turns.deep_view() =~= Seq::<TurnRecordView>::empty());
        assert(r.usage_records.deep_view() =~= Seq::<TokenUsage>::empty());
        assert(r.calls.deep_view() =~= Seq::<PendingCallView>::empty());
        r
    }

    /// The start of a round. Where the user has cancelled, the loop finishes
    /// with what it has, and fails where it has nothing; else the model is
    /// asked.
    pub fn begin(&mut self, cancelled: bool) -> (r: LoopStep)
        requires
            old(self).llm_calls < u32::MAX,
        ensures
            cancelled ==> *final(self) == *old(self),
            final(self).deep_view() == begun(old(self).deep_view(), cancelled),
            r.deep_view() == first_step(old(self).deep_view(), cancelled),
    {
        if cancelled {
            if self.last_response.is_some() {
                return LoopStep::Finish { context_overflow: false };
            }
            return LoopStep::Fail {
                error: MainBrainError::LlmError("查询被用户取消".to_owned()),
            };
        }
        self.llm_calls = self.llm_calls + 1;
        let request = build_request(
            self.messages.as_slice(),
            self.tools.as_slice(),
            self.max_tokens,
            self.temperature.as_str(),
        );
        LoopStep::CallModel { request }
    }

    /// What became of the call of the model. A reply is counted, recorded and
    /// shown; where it calls tools they are to be settled, else the loop has
    /// finished.
    pub fn receive(&mut self, reply: ModelReply, now: &str) -> (r: (LoopStep, Vec<ProgressEvent>))
        requires
            reply matches ModelReply::Answer { response } ==> counts_fit(
                old(self).deep_view(),
                response.deep_view(),
            ),
        ensures
            match reply {
                ModelReply::Answer { response } => {
                    &&& final(self).deep_view() == after_reply(
                        old(self).deep_view(),
                        response.deep_view(),
                        now@,
                    )
                    &&& r.0.deep_view() == step_on_reply(response.deep_view().content)
                    &&& r.1.deep_view() == shown(response.deep_view())
                },
                ModelReply::Failed { message } => {
                    &&& *final(self) == *old(self)
                    &&& r.0.deep_view() == (LoopStepView::Fail {
                        error: MainBrainErrorView::LlmError(message@),
                    })
                    &&& r.1.deep_view() == Seq::<ProgressView>::empty()
                },
                ModelReply::TimedOut => {
                    &&& *final(self) == *old(self)
                    &&& r.0.deep_view() == (LoopStepView::Fail {
                        error: MainBrainErrorView::LlmError(
                            "LLM 请求超时（360秒，含重试），请检查网络连接或模型服务状态"@,
                        ),
                    })
                    &&& r.1.deep_view() == Seq::<ProgressView>::empty()
                },
            },
    {
        let nothing: Vec<ProgressEvent> = Vec::new();
        assert(nothing.deep_view() =~= Seq::<ProgressView>::empty());
        match reply {
            ModelReply::Failed { message } => (
                LoopStep::Fail { error: MainBrainError::LlmError(message) },
                nothing,
            ),
            ModelReply::TimedOut => (
                LoopStep::Fail {
                    error: MainBrainError::LlmError(
                        "LLM 请求超时（360秒，含重试），请检查网络连接或模型服务状态".to_owned(),
                    ),
                },
                nothing,
            ),
            ModelReply::Answer { response } => self.receive_answer(response, now),
        }
    }

    fn receive_answer(&mut self, response: ChatResponse, now: &str) -> (r: (
        LoopStep,
        Vec<ProgressEvent>,
    ))
        requires
            counts_fit(old(self).deep_view(), response.deep_view()),
        ensures
            final(self).deep_view() == after_reply(
                old(self).deep_view(),
                response.deep_view(),
                now@,
            ),
            r.0.deep_view() == step_on_reply(response.deep_view().content),
            r.1.deep_view() == shown(response.deep_view()),
    {
        let ghost s = self.deep_view();
        let ghost v = response.deep_view();
        let ghost usage_view = corrected_usage(v, s.messages);
        let estimated_input: u64 = estimate_input_tokens(self.messages.as_slice());
        let estimated_output: u64 = estimate_output_tokens(&response);
        let prompt_tokens: u64 = if response.usage.prompt_tokens > 0 {
            response.usage.prompt_tokens
        } else {
            estimated_input
        };
        let completion_tokens: u64 = if response.usage.completion_tokens > 0 {
            response.usage.completion_tokens
        } else {
            estimated_output
        };
        let usage = TokenUsage {
            prompt_tokens,
            completion_tokens,
            total_tokens: prompt_tokens + completion_tokens,
            cache_creation_input_tokens: response.usage.cache_creation_input_tokens,
            cache_read_input_tokens: response.usage.cache_read_input_tokens,
        };
        assert(usage == usage_view);
        self.last_prompt_tokens = prompt_tokens;
        self.total_prompt_tokens = self.total_prompt_tokens + prompt_tokens;
        let ghost before = self.usage_records;
        self.usage_records.push(usage);
        proof {
            lemma_deep_push(before, self.usage_records, usage);
        }
        let events = show_reply(&response);
        let text = response.text();
        if !text.as_str().is_empty() {
            let ghost before = self.turns;
            let turn = TurnRecord {
                role: TurnRole::Assistant,
                content: text,
                tool_call: None,
                timestamp: now.to_owned(),
            };
            self.turns.push(turn);
            proof {
                lemma_deep_push(before, self.turns, turn);
            }
        }
        let has_calls = response.has_tool_calls();
        if has_calls {
            let ghost before = self.messages;
            let message = ChatMessage::assistant_blocks(copies(response.content.as_slice()));
            self.messages.push(message);
            proof {
                lemma_deep_push(before, self.messages, message);
            }
            self.calls = pending_calls(response.content.as_slice());
            self.settled = 0;
            self.stage = CallStage::Guard;
        }
        self.last_response = Some(response);
        proof {
            assert(self.deep_view() =~= after_reply(s, v, now@));
        }
        if has_calls {
            (LoopStep::RunTools, events)
        } else {
            (LoopStep::Finish { context_overflow: false }, events)
        }
    }

    /// The end of a round in which tools ran: the loop stops where the context
    /// is too full, and else goes on.
    pub fn after_tools(&self) -> (r: LoopStep)
        requires
            text_chars(self.messages.deep_view()) * 3 <= usize::MAX,
        ensures
            r.deep_view() == step_after_tools(self.messages.deep_view()),
    {
        match check_context_health(self.messages.as_slice()) {
            ContextHealth::DangerFull => LoopStep::Finish { context_overflow: true },
            _ => LoopStep::Again,
        }
    }

    /// What the loop comes to, where the model has answered.
    pub fn into_result(self, context_overflow: bool) -> (r: Option<ToolLoopResult>)
        ensures
            r is Some == self.last_response is Some,
            r matches Some(res) ==> {
                &&& self.last_response == Some(res.response)
                &&& res.llm_calls == self.llm_calls
                &&& res.turns == self.turns
                &&& res.total_prompt_tokens == self.total_prompt_tokens
                &&& res.last_prompt_tokens == self.last_prompt_tokens
                &&& res.usage_records == self.usage_records
                &&& res.context_overflow == context_overflow
            },
    {
        match self.last_response {
            Some(response) => Some(
                ToolLoopResult {
                    response,
                    llm_calls: self.llm_calls,
                    turns: self.turns,
                    total_prompt_tokens: self.total_prompt_tokens,
                    last_prompt_tokens: self.last_prompt_tokens,
                    usage_records: self.usage_records,
                    context_overflow,
                },
            ),
            None => None,
        }
    }
}

// ---------------------------------------------------------------------------
// Settling the tool calls
// ---------------------------------------------------------------------------

/// What one hook says of a call.
#[derive(Debug, PartialEq)]
pub struct HookOutput {
    /// Whether it denies the call.
    pub denies: bool,
    pub reason: Option<String>,
}

/// What a hook's word is.
pub struct HookOutputView {
    pub denies: bool,
    pub reason: Option<Seq<char>>,
}

impl DeepView for HookOutput {
    type V = HookOutputView;

    open spec fn deep_view(&self) -> HookOutputView {
        HookOutputView { denies: self.denies, reason: self.reason.deep_view() }
    }
}

/// What happened to the current tool call.
#[derive(Debug, PartialEq)]
pub enum CallEvent {
    /// The guard looked at it, and says why it refuses where it does.
    Guarded { refusal: Option<String> },
    /// The user answered, or went away.
    Answered { answer: Option<String> },
    /// The hooks looked at it.
    Hooked { outputs: Vec<HookOutput> },
    /// The tool ran.
    Executed { output: String, is_error: bool, duration_ms: u64 },
    /// The hooks were told of the result.
    PostHooked,
}

/// What an event is.
pub enum CallEventView {
    Guarded { refusal: Option<Seq<char>> },
    Answered { answer: Option<Seq<char>> },
    Hooked { outputs: Seq<HookOutputView> },
    Executed { output: Seq<char>, is_error: bool, duration_ms: u64 },
    PostHooked,
}

impl DeepView for CallEvent {
    type V = CallEventView;

    open spec fn deep_view(&self) -> CallEventView {
        match *self {
            CallEvent::Guarded { refusal } => CallEventView::Guarded {
                refusal: refusal.deep_view(),
            },
            CallEvent::Answered { answer } => CallEventView::Answered {
                answer: answer.deep_view(),
            },
            CallEvent::Hooked { outputs } => CallEventView::Hooked {
                outputs: outputs.deep_view(),
            },
            CallEvent::Executed { output, is_error, duration_ms } => CallEventView::Executed {
                output: output@,
                is_error,
                duration_ms,
            },
            CallEvent::PostHooked => CallEventView::PostHooked,
        }
    }
}

/// What the loop wants done for the current tool call.
#[derive(Debug, PartialEq)]
pub enum Wanted {
    /// Nothing: all calls are settled.
    AllSettled,
    /// Let the guard look at the call.
    CheckGuard { call: ToolCall },
    /// Ask the user.
    AskUser { question: String, options: Option<Vec<String>>, multi_select: bool },
    /// Run the hooks that come before the tool.
    RunPreHook { tool_name: String, tool_input: String },
    /// Run the tool.
    Execute { call: ToolCall },
    /// Run the hooks that come after the tool.
    RunPostHook { tool_name: String, tool_input: String, tool_output: String, is_error: bool },
}

/// What a wish is.
pub enum WantedView {
    AllSettled,
    CheckGuard { call: ToolCallView },
    AskUser { question: Seq<char>, options: Option<Seq<Seq<char>>>, multi_select: bool },
    RunPreHook { tool_name: Seq<char>, tool_input: Seq<char> },
    Execute { call: ToolCallView },
    RunPostHook {
        tool_name: Seq<char>,
        tool_input: Seq<char>,
        tool_output: Seq<char>,
        is_error: bool,
    },
}

impl DeepView for Wanted {
    type V = WantedView;

    open spec fn deep_view(&self) -> WantedView {
        match *self {
            Wanted::AllSettled => WantedView::AllSettled,
            Wanted::CheckGuard { call } => WantedView::CheckGuard { call: call.deep_view() },
            Wanted::AskUser { question, options, multi_select } => WantedView::AskUser {
                question: question@,
                options: options.deep_view(),
                multi_select,
            },
            Wanted::RunPreHook { tool_name, tool_input } => WantedView::RunPreHook {
                tool_name: tool_name@,
                tool_input: tool_input@,
            },
            Wanted::Execute { call } => WantedView::Execute { call: call.deep_view() },
            Wanted::RunPostHook { tool_name, tool_input, tool_output, is_error } =>
                WantedView::RunPostHook {
                tool_name: tool_name@,
                tool_input: tool_input@,
                tool_output: tool_output@,
                is_error,
            },
        }
    }
}

/// A waiting call as the call to make.
pub open spec fn tool_call_of(c: PendingCallView) -> ToolCallView {
    ToolCallView { tool_name: c.name, input: c.input, validated: false, validation_id: None }
}

/// What the loop wants done in state `s`.
pub open spec fn wanted_of(s: LoopView) -> WantedView {
    if s.settled >= s.calls.len() {
        WantedView::AllSettled
    } else {
        let c = s.calls[s.settled];
        match s.stage {
            CallStageView::Guard => WantedView::CheckGuard { call: tool_call_of(c) },
            CallStageView::User => WantedView::AskUser {
                question: question_of(c.input),
                options: options_of(c.input),
                multi_select: multi_select_of(c.input),
            },
            CallStageView::PreHook => WantedView::RunPreHook {
                tool_name: c.name,
                tool_input: text_of_json(c.input),
            },
            CallStageView::Tool => WantedView::Execute { call: tool_call_of(c) },
            CallStageView::PostHook { output_head, is_error } => WantedView::RunPostHook {
                tool_name: c.name,
                tool_input: text_of_json(c.input),
                tool_output: output_head,
                is_error,
            },
        }
    }
}

/// An event that fits the stage of the current call.
pub open spec fn event_fits(s: LoopView, e: CallEventView) -> bool {
    &&& 0 <= s.settled < s.calls.len()
    &&& match s.stage {
        CallStageView::Guard => e is Guarded,
        CallStageView::User => e is Answered,
        CallStageView::PreHook => e is Hooked,
        CallStageView::Tool => e is Executed,
        CallStageView::PostHook { .. } => e is PostHooked,
    }
}

/// Some hook denies the call.
pub open spec fn denied(outputs: Seq<HookOutputView>) -> bool {
    exists|i: int| 0 <= i < outputs.len() && (#[trigger] outputs[i]).denies
}

/// The first reason that a hook gives.
pub open spec fn first_reason(outputs: Seq<HookOutputView>) -> Option<Seq<char>>
    decreases outputs.len(),
{
    if outputs.len() == 0 {
        None
    } else if outputs[0].reason is Some {
        outputs[0].reason
    } else {
        first_reason(outputs.skip(1))
    }
}

/// What the model is told where hooks deny a call.
pub open spec fn hook_refusal(outputs: Seq<HookOutputView>) -> Seq<char> {
    "Hook 拒绝: "@ + match first_reason(outputs) {
        Some(r) => r,
        None => "PreToolUse hook denied"@,
    }
}

/// The record of a settled call.
pub open spec fn call_turn(
    c: PendingCallView,
    output: Seq<char>,
    duration_ms: u64,
    is_error: bool,
    now: Seq<char>,
) -> TurnRecordView {
    TurnRecordView {
        role: TurnRole::ToolCall,
        content: Seq::empty(),
        tool_call: Some(
            ToolCallRecordView { tool_name: c.name, input: c.input, output, duration_ms, is_error },
        ),
        timestamp: now,
    }
}

/// What is shown of a settled call.
pub open spec fn call_done(
    c: PendingCallView,
    output: Seq<char>,
    duration_ms: u64,
    is_error: bool,
) -> ProgressView {
    ProgressView::ToolDone {
        brain: "main"@,
        tool_name: c.name,
        duration_ms,
        output_preview: output,
        is_error,
    }
}

/// What is shown of a call whose tool is about to run.
pub open spec fn call_start(c: PendingCallView) -> ProgressView {
    ProgressView::ToolStart {
        brain: "main"@,
        tool_name: c.name,
        input: text_of_json(c.input),
    }
}

/// The current call answered: the model is told `told`, and `output` is
/// recorded.
pub open spec fn answered(
    s: LoopView,
    told: Seq<char>,
    output: Seq<char>,
    duration_ms: u64,
    is_error: bool,
    now: Seq<char>,
) -> LoopView {
    let c = s.calls[s.settled];
    LoopView {
        messages: s.messages.push(tool_result_message(c.id, told, is_error)),
        turns: s.turns.push(call_turn(c, output, duration_ms, is_error, now)),
        ..s
    }
}

/// On to the next call.
pub open spec fn next_call(s: LoopView) -> LoopView {
    LoopView { settled: s.settled + 1, stage: CallStageView::Guard, ..s }
}

/// The current call refused or answered without a tool.
pub open spec fn closed(
    s: LoopView,
    output: Seq<char>,
    is_error: bool,
    now: Seq<char>,
) -> (LoopView, Seq<ProgressView>) {
    (
        next_call(answered(s, output, output, 0, is_error, now)),
        seq![call_done(s.calls[s.settled], output, 0, is_error)],
    )
}

/// The tool of the current call is about to run.
pub open spec fn started(s: LoopView) -> (LoopView, Seq<ProgressView>) {
    (
        LoopView { stage: CallStageView::Tool, ..s },
        seq![call_start(s.calls[s.settled])],
    )
}

/// What an event makes of the state, and what is shown of it.
pub open spec fn after_event(
    s: LoopView,
    e: CallEventView,
    now: Seq<char>,
) -> (LoopView, Seq<ProgressView>) {
    let c = s.calls[s.settled];
    match e {
        CallEventView::Guarded { refusal } => match refusal {
            Some(reason) => closed(s, "安全拒绝: "@ + reason, true, now),
            None => if c.name == "AskUserQuestion"@ {
                (LoopView { stage: CallStageView::User, ..s }, Seq::empty())
            } else if s.has_hooks {
                (LoopView { stage: CallStageView::PreHook, ..s }, Seq::empty())
            } else {
                started(s)
            },
        },
        CallEventView::Answered { answer } => closed(
            s,
            match answer {
                Some(a) => a,
                None => "用户未响应"@,
            },
            false,
            now,
        ),
        CallEventView::Hooked { outputs } => if denied(outputs) {
            closed(s, hook_refusal(outputs), true, now)
        } else {
            started(s)
        },
        CallEventView::Executed { output, is_error, duration_ms } => {
            let t = answered(s, output_for_model(output), output, duration_ms, is_error, now);
            (
                if s.has_hooks {
                    LoopView {
                        stage: CallStageView::PostHook {
                            output_head: head_of(output, 200),
                            is_error,
                        },
                        ..t
                    }
                } else {
                    next_call(t)
                },
                seq![call_done(c, output, duration_ms, is_error)],
            )
        },
        CallEventView::PostHooked => (next_call(s), Seq::empty()),
    }
}

fn strings_among(items: &Vec<Json>) -> (r: Vec<String>)
    ensures
        r.deep_view() == items.deep_view().filter_map(|v: JsonView| v.as_str()),
{
    let ghost all = items.deep_view();
    let ghost f = |v: JsonView| v.as_str();
    let mut r: Vec<String> = Vec::new();
    let mut i: usize = 0;
    proof {
        lemma_filter_map_none(all, f);
        assert(r.deep_view() =~= Seq::<Seq<char>>::empty());
    }
    while i < items.len()
        invariant
            i <= items@.len(),
            all == items.deep_view(),
            f == (|v: JsonView| v.as_str()),
            r.deep_view() == all.take(i as int).filter_map(f),
        decreases items@.len() - i,
    {
        proof {
            lemma_filter_map_step(all, i as int, f);
            assert(all[i as int] == items@[i as int].deep_view());
        }
        if let Some(text) = items[i].as_str() {
            let ghost before = r;
            let s = text.to_owned();
            r.push(s);
            proof {
                lemma_deep_push(before, r, s);
            }
        }
        i = i + 1;
    }
    proof {
        lemma_take_all(all);
    }
    r
}

fn is_multi_select(input: &Json) -> (r: bool)
    ensures
        r == multi_select_of(input.deep_view()),
{
    let given = match input.get("multiSelect") {
        Some(v) => Some(v),
        None => input.get("multi_select"),
    };
    match given {
        Some(v) => match v.as_bool() {
            Some(b) => b,
            None => false,
        },
        None => false,
    }
}

fn any_denies(outputs: &Vec<HookOutput>) -> (r: bool)
    ensures
        r == denied(outputs.deep_view()),
{
    let ghost all = outputs.deep_view();
    let mut i: usize = 0;
    while i < outputs.len()
        invariant
            i <= outputs@.len(),
            all == outputs.deep_view(),
            forall|k: int| 0 <= k < i ==> !(#[trigger] all[k]).denies,
        decreases outputs@.len() - i,
    {
        assert(all[i as int] == outputs@[i as int].deep_view());
        if outputs[i].denies {
            return true;
        }
        i = i + 1;
    }
    false
}

/// What the model is told where hooks deny a call.
fn hook_refusal_text(outputs: &Vec<HookOutput>) -> (r: String)
    ensures
        r@ == hook_refusal(outputs.deep_view()),
{
    let ghost all = outputs.deep_view();
    let mut text = "Hook 拒绝: ".to_owned();
    let mut i: usize = 0;
    assert(all.skip(0) =~= all);
    while i < outputs.len()
        invariant
            i <= outputs@.len(),
            all == outputs.deep_view(),
            text@ == "Hook 拒绝: "@,
            first_reason(all) == first_reason(all.skip(i as int)),
        decreases outputs@.len() - i,
    {
        assert(all[i as int] == outputs@[i as int].deep_view());
        assert(all.skip(i as int)[0] == all[i as int]);
        assert(all.skip(i as int).skip(1) =~= all.skip(i + 1));
        if let Some(reason) = &outputs[i].reason {
            text.append(reason.as_str());
            return text;
        }
        i = i + 1;
    }
    text.append("PreToolUse hook denied");
    text
}

impl ToolLoop {
    /// What has to be done for the current tool call.
    pub fn wanted(&self) -> (r: Wanted)
        ensures
            r.deep_view() == wanted_of(self.deep_view()),
    {
        if self.settled >= self.calls.len() {
            return Wanted::AllSettled;
        }
        let c = &self.calls[self.settled];
        assert(self.deep_view().calls[self.settled as int] == c.deep_view());
        match &self.stage {
            CallStage::Guard => Wanted::CheckGuard { call: call_to_make(c) },
            CallStage::User => {
                let question = match c.input.str_at("question") {
                    Some(q) => q,
                    None => String::new(),
                };
                let options = match c.input.array_at("options") {
                    Some(items) => Some(strings_among(items)),
                    None => None,
                };
                let multi_select = is_multi_select(&c.input);
                Wanted::AskUser { question, options, multi_select }
            },
            CallStage::PreHook => Wanted::RunPreHook {
                tool_name: c.name.clone(),
                tool_input: c.input.to_text(),
            },
            CallStage::Tool => Wanted::Execute { call: call_to_make(c) },
            CallStage::PostHook { output_head, is_error } => Wanted::RunPostHook {
                tool_name: c.name.clone(),
                tool_input: c.input.to_text(),
                tool_output: output_head.clone(),
                is_error: *is_error,
            },
        }
    }

    /// Answers the current call: tells the model and records the output.
    fn answer(
        &mut self,
        told: &str,
        output: &str,
        duration_ms: u64,
        is_error: bool,
        now: &str,
    ) -> (r: Vec<ProgressEvent>)
        requires
            old(self).settled < old(self).calls@.len(),
        ensures
            final(self).deep_view() == answered(
                old(self).deep_view(),
                told@,
                output@,
                duration_ms,
                is_error,
                now@,
            ),
            r.deep_view() == seq![
                call_done(
                    old(self).deep_view().calls[old(self).settled as int],
                    output@,
                    duration_ms,
                    is_error,
                ),
            ],
    {
        let ghost s = self.deep_view();
        let c = &self.calls[self.settled];
        assert(s.calls[self.settled as int] == c.deep_view());
        let message = ChatMessage::tool_result(c.id.as_str(), told, is_error);
        let turn = TurnRecord {
            role: TurnRole::ToolCall,
            content: String::new(),
            tool_call: Some(
                ToolCallRecord {
                    tool_name: c.name.clone(),
                    input: c.input.replicate(),
                    output: output.to_owned(),
                    duration_ms,
                    is_error,
                },
            ),
            timestamp: now.to_owned(),
        };
        let done = ProgressEvent::ToolDone {
            brain: "main".to_owned(),
            tool_name: c.name.clone(),
            duration_ms,
            output_preview: output.to_owned(),
            is_error,
        };
        let ghost before = self.messages;
        self.messages.push(message);
        proof {
            lemma_deep_push(before, self.messages, message);
        }
        let ghost before = self.turns;
        self.turns.push(turn);
        proof {
            lemma_deep_push(before, self.turns, turn);
            assert(turn.deep_view() =~= call_turn(
                s.calls[s.settled],
                output@,
                duration_ms,
                is_error,
                now@,
            ));
            assert(self.deep_view() =~= answered(
                s,
                told@,
                output@,
                duration_ms,
                is_error,
                now@,
            ));
        }
        let events: Vec<ProgressEvent> = vec![done];
        assert(events.deep_view() =~= seq![
            call_done(s.calls[s.settled], output@, duration_ms, is_error),
        ]);
        events
    }

    /// Answers the current call without a tool and goes on to the next.
    fn close(&mut self, output: &str, is_error: bool, now: &str) -> (r: Vec<ProgressEvent>)
        requires
            old(self).settled < old(self).calls@.len(),
        ensures
            (final(self).deep_view(), r.deep_view()) == closed(
                old(self).deep_view(),
                output@,
                is_error,
                now@,
            ),
    {
        let ghost s = self.deep_view();
        let count: usize = self.calls.len();
        let events = self.answer(output, output, 0, is_error, now);
        let ghost t = self.deep_view();
        assert(t.settled < count);
        self.settled = self.settled + 1;
        self.stage = CallStage::Guard;
        assert(self.deep_view() =~= next_call(t));
        events
    }

    /// The tool of the current call is about to run.
    fn start(&mut self) -> (r: Vec<ProgressEvent>)
        requires
            old(self).settled < old(self).calls@.len(),
        ensures
            (final(self).deep_view(), r.deep_view()) == started(old(self).deep_view()),
    {
        let ghost s = self.deep_view();
        let c = &self.calls[self.settled];
        assert(s.calls[self.settled as int] == c.deep_view());
        let start = ProgressEvent::ToolStart {
            brain: "main".to_owned(),
            tool_name: c.name.clone(),
            input: c.input.to_text(),
        };
        self.stage = CallStage::Tool;
        let events: Vec<ProgressEvent> = vec![start];
        assert(events.deep_view() =~= started(s).1);
        assert(self.deep_view() =~= started(s).0);
        events
    }

    /// What happened to the current call. A refusal or an answer settles it;
    /// a tool runs only after the guard and the hooks have let it pass.
    pub fn on_event(&mut self, event: CallEvent, now: &str) -> (r: Vec<ProgressEvent>)
        requires
            event_fits(old(self).deep_view(), event.deep_view()),
        ensures
            (final(self).deep_view(), r.deep_view()) == after_event(
                old(self).deep_view(),
                event.deep_view(),
                now@,
            ),
    {
        let ghost s = self.deep_view();
        assert(s.calls[self.settled as int] == self.calls@[self.settled as int].deep_view());
        let count: usize = self.calls.len();
        assert(s.settled < count);
        let nothing: Vec<ProgressEvent> = Vec::new();
        assert(nothing.deep_view() =~= Seq::<ProgressView>::empty());
        match event {
            CallEvent::Guarded { refusal } => match refusal {
                Some(reason) => {
                    let mut text = "安全拒绝: ".to_owned();
                    text.append(reason.as_str());
                    self.close(text.as_str(), true, now)
                },
                None => {
                    if same(self.calls[self.settled].name.as_str(), "AskUserQuestion") {
                        self.stage = CallStage::User;
                        assert(self.deep_view() =~= (LoopView { stage: CallStageView::User, ..s }));
                        nothing
                    } else if self.has_hooks {
                        self.stage = CallStage::PreHook;
                        assert(self.deep_view() =~= (LoopView {
                            stage: CallStageView::PreHook,
                            ..s
                        }));
                        nothing
                    } else {
                        self.start()
                    }
                },
            },
            CallEvent::Answered { answer } => match answer {
                Some(a) => self.close(a.as_str(), false, now),
                None => self.close("用户未响应", false, now),
            },
            CallEvent::Hooked { outputs } => {
                if any_denies(&outputs) {
                    let text = hook_refusal_text(&outputs);
                    self.close(text.as_str(), true, now)
                } else {
                    self.start()
                }
            },
            CallEvent::Executed { output, is_error, duration_ms } => {
                let told = limit_output(output.as_str());
                let events = self.answer(
                    told.as_str(),
                    output.as_str(),
                    duration_ms,
                    is_error,
                    now,
                );
                let ghost t = self.deep_view();
                if self.has_hooks {
                    let output_head = head(output.as_str(), 200);
                    self.stage = CallStage::PostHook { output_head, is_error };
                    assert(self.deep_view() =~= (LoopView {
                        stage: CallStageView::PostHook {
                            output_head: head_of(output@, 200),
                            is_error,
                        },
                        ..t
                    }));
                } else {
                    assert(t.settled < count);
                    self.settled = self.settled + 1;
                    self.stage = CallStage::Guard;
                    assert(self.deep_view() =~= next_call(t));
                }
                events
            },
            CallEvent::PostHooked => {
                self.settled = self.settled + 1;
                self.stage = CallStage::Guard;
                assert(self.deep_view() =~= next_call(s));
                nothing
            },
        }
    }
}

fn call_to_make(c: &PendingCall) -> (r: ToolCall)
    ensures
        r.deep_view() == tool_call_of(c.deep_view()),
{
    ToolCall {
        tool_name: c.name.clone(),
        input: c.input.replicate(),
        validated: false,
        validation_id: None,
    }
}

// ---------------------------------------------------------------------------
// Laws
// ---------------------------------------------------------------------------

/// How many of the calls the model has been answered.
pub open spec fn answers(s: LoopView) -> int {
    if s.stage is PostHook {
        s.settled + 1
    } else {
        s.settled
    }
}

/// After the first `base` messages stand the answers to the calls settled so
/// far: one tool result for each call, under the call's id, in the order of
/// the calls.
pub open spec fn answered_in_order(s: LoopView, base: int) -> bool {
    &&& 0 <= base
    &&& 0 <= s.settled <= s.calls.len()
    &&& answers(s) <= s.calls.len()
    &&& s.messages.len() == base + answers(s)
    &&& forall|k: int|
        0 <= k < answers(s) ==> {
            let m = #[trigger] s.messages[base + k];
            &&& m.role == MessageRole::User
            &&& m.content.len() == 1
            &&& m.content[0] matches BlockView::ToolResult { tool_use_id, .. } && tool_use_id
                == s.calls[k].id
        }
}

/// Whatever happens to the calls, the answers stay one for each call, in their
/// order, and what was said before stays as it was.
pub proof fn law_calls_are_answered_in_order(
    s: LoopView,
    e: CallEventView,
    now: Seq<char>,
    base: int,
)
    requires
        answered_in_order(s, base),
        event_fits(s, e),
    ensures
        answered_in_order(after_event(s, e, now).0, base),
        after_event(s, e, now).0.messages.take(base) == s.messages.take(base),
        after_event(s, e, now).0.calls == s.calls,
{
    let t = after_event(s, e, now).0;
    assert(t.messages.take(base) =~= s.messages.take(base));
    assert forall|k: int| 0 <= k < answers(t) implies {
        let m = #[trigger] t.messages[base + k];
        &&& m.role == MessageRole::User
        &&& m.content.len() == 1
        &&& m.content[0] matches BlockView::ToolResult { tool_use_id, .. } && tool_use_id
            == t.calls[k].id
    } by {
        if k < answers(s) {
            assert(t.messages[base + k] == s.messages[base + k]);
        }
    }
}

/// A tool runs only for a call that the guard let pass and that no hook denied.
pub proof fn law_tool_runs_only_when_let_pass(s: LoopView, e: CallEventView, now: Seq<char>)
    requires
        event_fits(s, e),
        after_event(s, e, now).0.stage is Tool,
    ensures
        after_event(s, e, now).0.settled == s.settled,
        match e {
            CallEventView::Guarded { refusal } => refusal is None && !s.has_hooks
                && s.calls[s.settled].name != "AskUserQuestion"@,
            CallEventView::Hooked { outputs } => !denied(outputs),
            _ => false,
        },
{
}

} // verus!
