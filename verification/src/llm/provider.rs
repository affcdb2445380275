//! Messages, requests and replies.

use crate::llm::types::{
    BlockView, ContentBlock, FinishReason, TokenUsage, ToolChoice, ToolChoiceView, ToolDefinition,
    ToolDefinitionView,
};
use crate::replicate::{copies, Replicate};
use crate::seqs::{
    lemma_deep_push, lemma_filter_none, lemma_filter_step, lemma_take_all, lemma_take_step,
};
use vstd::prelude::*;

verus! {

/// Who speaks.
#[derive(Debug, Clone, Copy, PartialEq, Eq, Structural)]
pub enum MessageRole {
    System,
    User,
    Assistant,
    Tool,
}

impl DeepView for MessageRole {
    type V = MessageRole;

    open spec fn deep_view(&self) -> MessageRole {
        *self
    }
}

/// One message of a conversation.
#[derive(Debug, PartialEq)]
pub struct ChatMessage {
    pub role: MessageRole,
    pub content: Vec<ContentBlock>,
}

/// What a message is.
#[verifier::ext_equal]
pub struct MessageView {
    pub role: MessageRole,
    pub content: Seq<BlockView>,
}

impl DeepView for ChatMessage {
    type V = MessageView;

    open spec fn deep_view(&self) -> MessageView {
        MessageView { role: self.role, content: self.content.deep_view() }
    }
}

impl Replicate for ChatMessage {
    fn replicate(&self) -> (r: Self) {
        ChatMessage { role: self.role, content: self.content.replicate() }
    }
}

/// A message of `role` that says `text`.
pub open spec fn saying(role: MessageRole, text: Seq<char>) -> MessageView {
    MessageView { role, content: seq![BlockView::Text { text }] }
}

/// The message that hands a tool's result back.
pub open spec fn tool_result_message(
    tool_use_id: Seq<char>,
    output: Seq<char>,
    is_error: bool,
) -> MessageView {
    MessageView {
        role: MessageRole::User,
        content: seq![BlockView::ToolResult { tool_use_id, content: output, is_error }],
    }
}

/// The text of the text blocks, one after the other.
pub open spec fn text_of_blocks(blocks: Seq<BlockView>) -> Seq<char>
    decreases blocks.len(),
{
    if blocks.len() == 0 {
        Seq::empty()
    } else {
        let before = text_of_blocks(blocks.drop_last());
        match blocks.last() {
            BlockView::Text { text } => before + text,
            _ => before,
        }
    }
}

/// The tool calls among the blocks.
pub open spec fn tool_calls_of(blocks: Seq<BlockView>) -> Seq<BlockView> {
    blocks.filter(|b: BlockView| b is ToolUse)
}

/// Whether there is a tool call among the blocks.
pub open spec fn calls_tool(blocks: Seq<BlockView>) -> bool {
    exists|i: int| 0 <= i < blocks.len() && blocks[i] is ToolUse
}

/// The text of the text blocks, one after the other.
pub fn text_of_content(content: &[ContentBlock]) -> (r: String)
    ensures
        r@ == text_of_blocks(content.deep_view()),
{
    let mut r = String::new();
    let mut i: usize = 0;
    let ghost all = content.deep_view();
    while i < content.len()
        invariant
            i <= content@.len(),
            all == content.deep_view(),
            r@ == text_of_blocks(all.take(i as int)),
        decreases content@.len() - i,
    {
        proof {
            lemma_take_step(all, i as int);
            assert(all[i as int] == content@[i as int].deep_view());
        }
        if let ContentBlock::Text { text } = &content[i] {
            r.append(text.as_str());
        }
        i = i + 1;
    }
    proof {
        lemma_take_all(all);
    }
    r
}

fn tool_calls_among(content: &[ContentBlock]) -> (r: Vec<&ContentBlock>)
    ensures
        r.deep_view() == tool_calls_of(content.deep_view()),
{
    let mut r: Vec<&ContentBlock> = Vec::new();
    let mut i: usize = 0;
    let ghost all = content.deep_view();
    let ghost p = |b: BlockView| b is ToolUse;
    proof {
        lemma_filter_none(all, p);
        assert(r.deep_view() =~= Seq::<BlockView>::empty());
    }
    while i < content.len()
        invariant
            i <= content@.len(),
            all == content.deep_view(),
            p == (|b: BlockView| b is ToolUse),
            r.deep_view() == all.take(i as int).filter(p),
        decreases content@.len() - i,
    {
        let b = &content[i];
        proof {
            lemma_filter_step(all, i as int, p);
            assert(all[i as int] == b.deep_view());
        }
        if b.is_tool_use() {
            let ghost before = r;
            r.push(b);
            proof {
                lemma_deep_push(before, r, b);
            }
        }
        i = i + 1;
    }
    proof {
        lemma_take_all(all);
    }
    r
}

impl ChatMessage {
    /// An instruction for the model.
    pub fn system(content: &str) -> (r: Self)
        ensures
            r.deep_view() == saying(MessageRole::System, content@),
    {
        let m = ChatMessage { role: MessageRole::System, content: vec![ContentBlock::text(content)] };
        assert(m.deep_view() =~= saying(MessageRole::System, content@));
        m
    }

    /// What the user says.
    pub fn user(content: &str) -> (r: Self)
        ensures
            r.deep_view() == saying(MessageRole::User, content@),
    {
        let m = ChatMessage { role: MessageRole::User, content: vec![ContentBlock::text(content)] };
        assert(m.deep_view() =~= saying(MessageRole::User, content@));
        m
    }

    /// What the model says.
    pub fn assistant(content: &str) -> (r: Self)
        ensures
            r.deep_view() == saying(MessageRole::Assistant, content@),
    {
        let m = ChatMessage {
            role: MessageRole::Assistant,
            content: vec![ContentBlock::text(content)],
        };
        assert(m.deep_view() =~= saying(MessageRole::Assistant, content@));
        m
    }

    /// What a tool gave back; it goes to the model as the user's word.
    pub fn tool_result(tool_use_id: &str, output: &str, is_error: bool) -> (r: Self)
        ensures
            r.deep_view() == tool_result_message(tool_use_id@, output@, is_error),
    {
        let m = ChatMessage {
            role: MessageRole::User,
            content: vec![
                ContentBlock::ToolResult {
                    tool_use_id: tool_use_id.to_owned(),
                    content: output.to_owned(),
                    is_error,
                },
            ],
        };
        assert(m.deep_view() =~= tool_result_message(tool_use_id@, output@, is_error));
        m
    }

    /// What the model says, block by block.
    pub fn assistant_blocks(blocks: Vec<ContentBlock>) -> (r: Self)
        ensures
            r.deep_view() == (MessageView {
                role: MessageRole::Assistant,
                content: blocks.deep_view(),
            }),
    {
        ChatMessage { role: MessageRole::Assistant, content: blocks }
    }

    /// The text of the text blocks, one after the other.
    pub fn text_content(&self) -> (r: String)
        ensures
            r@ == text_of_blocks(self.content.deep_view()),
    {
        text_of_content(self.content.as_slice())
    }

    /// The tool calls, in their order.
    pub fn tool_calls(&self) -> (r: Vec<&ContentBlock>)
        ensures
            r.deep_view() == tool_calls_of(self.content.deep_view()),
    {
        tool_calls_among(self.content.as_slice())
    }
}

/// A request to the model.
#[derive(Debug, PartialEq)]
pub struct ChatRequest {
    pub model: Option<String>,
    pub messages: Vec<ChatMessage>,
    pub max_tokens: Option<u32>,
    /// The sampling temperature, as it is written in decimal.
    pub temperature: Option<String>,
    pub tools: Option<Vec<ToolDefinition>>,
    pub tool_choice: Option<ToolChoice>,
}

/// What a request is.
#[verifier::ext_equal]
pub struct RequestView {
    pub model: Option<Seq<char>>,
    pub messages: Seq<MessageView>,
    pub max_tokens: Option<u32>,
    pub temperature: Option<Seq<char>>,
    pub tools: Option<Seq<ToolDefinitionView>>,
    pub tool_choice: Option<ToolChoiceView>,
}

impl DeepView for ChatRequest {
    type V = RequestView;

    open spec fn deep_view(&self) -> RequestView {
        RequestView {
            model: self.model.deep_view(),
            messages: self.messages.deep_view(),
            max_tokens: self.max_tokens,
            temperature: self.temperature.deep_view(),
            tools: self.tools.deep_view(),
            tool_choice: self.tool_choice.deep_view(),
        }
    }
}

/// A reply of the model.
#[derive(Debug, PartialEq)]
pub struct ChatResponse {
    pub content: Vec<ContentBlock>,
    pub model: String,
    pub usage: TokenUsage,
    pub finish_reason: Option<FinishReason>,
}

/// What a reply is.
#[verifier::ext_equal]
pub struct ResponseView {
    pub content: Seq<BlockView>,
    pub model: Seq<char>,
    pub usage: TokenUsage,
    pub finish_reason: Option<FinishReason>,
}

impl DeepView for ChatResponse {
    type V = ResponseView;

    open spec fn deep_view(&self) -> ResponseView {
        ResponseView {
            content: self.content.deep_view(),
            model: self.model@,
            usage: self.usage,
            finish_reason: self.finish_reason,
        }
    }
}

impl Replicate for ChatResponse {
    fn replicate(&self) -> (r: Self) {
        ChatResponse {
            content: copies(self.content.as_slice()),
            model: self.model.clone(),
            usage: self.usage,
            finish_reason: self.finish_reason,
        }
    }
}

impl ChatResponse {
    /// The text of the text blocks, one after the other.
    pub fn text(&self) -> (r: String)
        ensures
            r@ == text_of_blocks(self.content.deep_view()),
    {
        text_of_content(self.content.as_slice())
    }

    /// The tool calls, in their order.
    pub fn tool_calls(&self) -> (r: Vec<&ContentBlock>)
        ensures
            r.deep_view() == tool_calls_of(self.content.deep_view()),
    {
        tool_calls_among(self.content.as_slice())
    }

    /// Whether the model calls a tool.
    pub fn has_tool_calls(&self) -> (r: bool)
        ensures
            r == calls_tool(self.content.deep_view()),
    {
        let ghost all = self.content.deep_view();
        let mut i: usize = 0;
        while i < self.content.len()
            invariant
                i <= self.content@.len(),
                all == self.content.deep_view(),
                forall|k: int| 0 <= k < i ==> !(#[trigger] all[k] is ToolUse),
            decreases self.content@.len() - i,
        {
            assert(all[i as int] == self.content@[i as int].deep_view());
            if self.content[i].is_tool_use() {
                return true;
            }
            i = i + 1;
        }
        false
    }
}

} // verus!
