//! Content blocks, tool definitions and streaming events.

use crate::json::{Json, JsonView};
use crate::replicate::Replicate;
use crate::text::same;
use vstd::prelude::*;

verus! {

/// One piece of a message.
#[derive(Debug, PartialEq)]
pub enum ContentBlock {
    /// Text for the reader.
    Text { text: String },
    /// Reasoning that is not part of the answer.
    Thinking { content: String },
    /// A call of a tool.
    ToolUse { id: String, name: String, input: Json },
    /// What a tool gave back.
    ToolResult { tool_use_id: String, content: String, is_error: bool },
}

/// What a content block is.
pub enum BlockView {
    Text { text: Seq<char> },
    Thinking { content: Seq<char> },
    ToolUse { id: Seq<char>, name: Seq<char>, input: JsonView },
    ToolResult { tool_use_id: Seq<char>, content: Seq<char>, is_error: bool },
}

impl DeepView for ContentBlock {
    type V = BlockView;

    open spec fn deep_view(&self) -> BlockView {
        match *self {
            ContentBlock::Text { text } => BlockView::Text { text: text@ },
            ContentBlock::Thinking { content } => BlockView::Thinking { content: content@ },
            ContentBlock::ToolUse { id, name, input } => BlockView::ToolUse {
                id: id@,
                name: name@,
                input: input.deep_view(),
            },
            ContentBlock::ToolResult { tool_use_id, content, is_error } => BlockView::ToolResult {
                tool_use_id: tool_use_id@,
                content: content@,
                is_error,
            },
        }
    }
}

impl Replicate for ContentBlock {
    fn replicate(&self) -> (r: Self) {
        match self {
            ContentBlock::Text { text } => ContentBlock::Text { text: text.clone() },
            ContentBlock::Thinking { content } => ContentBlock::Thinking {
                content: content.clone(),
            },
            ContentBlock::ToolUse { id, name, input } => ContentBlock::ToolUse {
                id: id.clone(),
                name: name.clone(),
                input: input.replicate(),
            },
            ContentBlock::ToolResult { tool_use_id, content, is_error } =>
                ContentBlock::ToolResult {
                tool_use_id: tool_use_id.clone(),
                content: content.clone(),
                is_error: *is_error,
            },
        }
    }
}

impl ContentBlock {
    /// A text block.
    pub fn text(text: &str) -> (r: Self)
        ensures
            r.deep_view() == (BlockView::Text { text: text@ }),
    {
        ContentBlock::Text { text: text.to_owned() }
    }

    /// A reasoning block.
    pub fn thinking(content: &str) -> (r: Self)
        ensures
            r.deep_view() == (BlockView::Thinking { content: content@ }),
    {
        ContentBlock::Thinking { content: content.to_owned() }
    }

    /// Whether this is a call of a tool.
    pub fn is_tool_use(&self) -> (r: bool)
        ensures
            r == (self.deep_view() is ToolUse),
    {
        matches!(self, ContentBlock::ToolUse { .. })
    }

    /// Whether this is what a tool gave back.
    pub fn is_tool_result(&self) -> (r: bool)
        ensures
            r == (self.deep_view() is ToolResult),
    {
        matches!(self, ContentBlock::ToolResult { .. })
    }

    /// Whether this is reasoning.
    pub fn is_thinking(&self) -> (r: bool)
        ensures
            r == (self.deep_view() is Thinking),
    {
        matches!(self, ContentBlock::Thinking { .. })
    }
}

/// A tool that the model may call.
#[derive(Debug, PartialEq)]
pub struct ToolDefinition {
    pub name: String,
    pub description: String,
    /// The JSON schema of the input.
    pub input_schema: Json,
}

/// What a tool definition is.
pub struct ToolDefinitionView {
    pub name: Seq<char>,
    pub description: Seq<char>,
    pub input_schema: JsonView,
}

impl DeepView for ToolDefinition {
    type V = ToolDefinitionView;

    open spec fn deep_view(&self) -> ToolDefinitionView {
        ToolDefinitionView {
            name: self.name@,
            description: self.description@,
            input_schema: self.input_schema.deep_view(),
        }
    }
}

impl Replicate for ToolDefinition {
    fn replicate(&self) -> (r: Self) {
        ToolDefinition {
            name: self.name.clone(),
            description: self.description.clone(),
            input_schema: self.input_schema.replicate(),
        }
    }
}

/// Which tool the model is to call.
#[derive(Debug, PartialEq)]
pub enum ToolChoice {
    /// The model decides.
    Auto,
    /// No tool.
    NoTool,
    /// This tool.
    Tool { name: String },
}

/// What a tool choice is.
pub enum ToolChoiceView {
    Auto,
    NoTool,
    Tool { name: Seq<char> },
}

impl DeepView for ToolChoice {
    type V = ToolChoiceView;

    open spec fn deep_view(&self) -> ToolChoiceView {
        match *self {
            ToolChoice::Auto => ToolChoiceView::Auto,
            ToolChoice::NoTool => ToolChoiceView::NoTool,
            ToolChoice::Tool { name } => ToolChoiceView::Tool { name: name@ },
        }
    }
}

/// Why the model stopped.
#[derive(Debug, Clone, Copy, PartialEq, Eq, Structural)]
pub enum FinishReason {
    /// The answer is complete.
    EndTurn,
    /// The model waits for the results of its tool calls.
    ToolUse,
    /// The answer was cut off.
    MaxTokens,
}

impl DeepView for FinishReason {
    type V = FinishReason;

    open spec fn deep_view(&self) -> FinishReason {
        *self
    }
}

/// The finish reason that `s` stands for in a reply.
pub open spec fn finish_reason_of(s: Seq<char>) -> FinishReason {
    if s == "tool_calls"@ {
        FinishReason::ToolUse
    } else if s == "length"@ {
        FinishReason::MaxTokens
    } else {
        FinishReason::EndTurn
    }
}

impl FinishReason {
    /// The finish reason that `s` stands for in a reply.
    pub fn from_api_str(s: &str) -> (r: Self)
        ensures
            r == finish_reason_of(s@),
    {
        if same(s, "tool_calls") {
            FinishReason::ToolUse
        } else if same(s, "length") {
            FinishReason::MaxTokens
        } else {
            FinishReason::EndTurn
        }
    }
}

/// How many tokens a call took.
#[derive(Debug, Clone, Copy, PartialEq, Eq, Structural)]
pub struct TokenUsage {
    pub prompt_tokens: u64,
    pub completion_tokens: u64,
    pub total_tokens: u64,
    pub cache_creation_input_tokens: u64,
    pub cache_read_input_tokens: u64,
}

impl DeepView for TokenUsage {
    type V = TokenUsage;

    open spec fn deep_view(&self) -> TokenUsage {
        *self
    }
}

/// No tokens at all.
pub open spec fn no_usage() -> TokenUsage {
    TokenUsage {
        prompt_tokens: 0,
        completion_tokens: 0,
        total_tokens: 0,
        cache_creation_input_tokens: 0,
        cache_read_input_tokens: 0,
    }
}

impl Default for TokenUsage {
    fn default() -> (r: Self)
        ensures
            r == no_usage(),
    {
        TokenUsage {
            prompt_tokens: 0,
            completion_tokens: 0,
            total_tokens: 0,
            cache_creation_input_tokens: 0,
            cache_read_input_tokens: 0,
        }
    }
}

impl TokenUsage {
    /// All tokens that went in, those of the cache too.
    pub fn total_input_tokens(&self) -> (r: u64)
        requires
            self.prompt_tokens + self.cache_creation_input_tokens + self.cache_read_input_tokens
                <= u64::MAX,
        ensures
            r == self.prompt_tokens + self.cache_creation_input_tokens
                + self.cache_read_input_tokens,
    {
        self.prompt_tokens + self.cache_creation_input_tokens + self.cache_read_input_tokens
    }
}

/// One event of a streamed reply.
#[derive(Debug, PartialEq)]
pub enum StreamEvent {
    TextDelta { text: String },
    ThinkingDelta { content: String },
    ToolCallStart { id: String, name: String },
    ToolCallDelta { tool_use_id: String, delta: String },
    Done { finish_reason: Option<FinishReason>, usage: Option<TokenUsage> },
}

/// What a stream event is.
pub enum StreamEventView {
    TextDelta { text: Seq<char> },
    ThinkingDelta { content: Seq<char> },
    ToolCallStart { id: Seq<char>, name: Seq<char> },
    ToolCallDelta { tool_use_id: Seq<char>, delta: Seq<char> },
    Done { finish_reason: Option<FinishReason>, usage: Option<TokenUsage> },
}

impl DeepView for StreamEvent {
    type V = StreamEventView;

    open spec fn deep_view(&self) -> StreamEventView {
        match *self {
            StreamEvent::TextDelta { text } => StreamEventView::TextDelta { text: text@ },
            StreamEvent::ThinkingDelta { content } => StreamEventView::ThinkingDelta {
                content: content@,
            },
            StreamEvent::ToolCallStart { id, name } => StreamEventView::ToolCallStart {
                id: id@,
                name: name@,
            },
            StreamEvent::ToolCallDelta { tool_use_id, delta } => StreamEventView::ToolCallDelta {
                tool_use_id: tool_use_id@,
                delta: delta@,
            },
            StreamEvent::Done { finish_reason, usage } => StreamEventView::Done {
                finish_reason,
                usage,
            },
        }
    }
}

} // verus!
