//! Whether what is counted fits the types of the counts.

use crate::llm::provider::{
    text_of_blocks, text_of_content, ChatMessage, ChatResponse, MessageView,
};
use crate::llm::types::{BlockView, ContentBlock};
use crate::main_brain::brain::{last_usage, MainBrain};
use crate::main_brain::compact::{body, body_chars, lemma_body_chars_prefix};
use crate::main_brain::conversation::{
    context_tokens_of, history_chars, lemma_history_chars_prefix, uttered, ConversationHistory,
    ConversationMessage, ConversationMessageView, SpeakerRole,
};
use crate::main_brain::error::MainBrainErrorView;
use crate::main_brain::tool_loop::{
    after_reply, counts_fit, estimate_input_tokens, estimate_output_tokens, input_chars,
    lemma_input_chars_prefix, lemma_text_chars_prefix, lemma_tool_chars_prefix, message_chars,
    output_chars, shown, step_after_tools, step_on_reply, text_chars, tool_chars, LoopStep,
    LoopStepView, ModelReply, ToolLoop, ToolLoopResult,
};
use crate::seqs::{lemma_take_all, lemma_take_step};
use crate::shared::{ProgressEvent, ProgressView};
use crate::text::char_count;
use vstd::prelude::*;

verus! {

/// The characters of a message that go to the model, where a count can hold
/// their number.
pub fn count_message_chars(m: &ChatMessage) -> (r: Option<usize>)
    ensures
        match r {
            Some(n) => n == message_chars(m.deep_view()),
            None => message_chars(m.deep_view()) > usize::MAX,
        },
{
    let text = text_of_content(m.content.as_slice());
    let mut chars: usize = char_count(text.as_str());
    let ghost blocks = m.content.deep_view();
    let ghost text_len = text_of_blocks(blocks).len();
    let mut i: usize = 0;
    assert(blocks.take(0) =~= Seq::<BlockView>::empty());
    while i < m.content.len()
        invariant
            i <= m.content@.len(),
            blocks == m.content.deep_view(),
            text_len == text_of_blocks(blocks).len(),
            m.deep_view().content == blocks,
            chars == text_len + tool_chars(blocks.take(i as int)),
        decreases m.content@.len() - i,
    {
        proof {
            lemma_take_step(blocks, i as int);
            lemma_tool_chars_prefix(blocks, i + 1);
            assert(blocks[i as int] == m.content@[i as int].deep_view());
        }
        let more: usize = match &m.content[i] {
            ContentBlock::ToolUse { input, .. } => {
                let written = input.to_text();
                char_count(written.as_str())
            },
            ContentBlock::ToolResult { content, .. } => char_count(content.as_str()),
            _ => 0,
        };
        match chars.checked_add(more) {
            Some(n) => {
                chars = n;
            },
            None => {
                return None;
            },
        }
        i = i + 1;
    }
    proof {
        lemma_take_all(blocks);
    }
    Some(chars)
}

/// Whether the tokens of the messages can be estimated.
pub fn input_fits(messages: &[ChatMessage]) -> (r: bool)
    ensures
        r == (input_chars(messages.deep_view()) * 3 <= usize::MAX),
{
    let ghost all = messages.deep_view();
    let mut sum: usize = 0;
    let mut i: usize = 0;
    assert(all.take(0) =~= Seq::<MessageView>::empty());
    while i < messages.len()
        invariant
            i <= messages@.len(),
            all == messages.deep_view(),
            sum == input_chars(all.take(i as int)),
        decreases messages@.len() - i,
    {
        proof {
            lemma_take_step(all, i as int);
            lemma_input_chars_prefix(all, i + 1);
            assert(all[i as int] == messages@[i as int].deep_view());
        }
        match count_message_chars(&messages[i]) {
            Some(more) => match sum.checked_add(more) {
                Some(n) => {
                    sum = n;
                },
                None => {
                    return false;
                },
            },
            None => {
                return false;
            },
        }
        i = i + 1;
    }
    proof {
        lemma_take_all(all);
    }
    sum <= usize::MAX / 3
}

/// Whether the tokens of a reply can be estimated.
pub fn output_fits(response: &ChatResponse) -> (r: bool)
    ensures
        r == (output_chars(response.deep_view().content) * 3 <= usize::MAX),
{
    let ghost blocks = response.content.deep_view();
    let mut chars: usize = 0;
    let mut i: usize = 0;
    assert(blocks.take(0) =~= Seq::<BlockView>::empty());
    while i < response.content.len()
        invariant
            i <= response.content@.len(),
            blocks == response.content.deep_view(),
            response.deep_view().content == blocks,
            chars == output_chars(blocks.take(i as int)),
        decreases response.content@.len() - i,
    {
        proof {
            lemma_take_step(blocks, i as int);
            lemma_tool_chars_prefix(blocks, i + 1);
            assert(blocks[i as int] == response.content@[i as int].deep_view());
        }
        let more: usize = match &response.content[i] {
            ContentBlock::Text { text } => char_count(text.as_str()),
            ContentBlock::Thinking { content } => char_count(content.as_str()),
            ContentBlock::ToolUse { input, .. } => {
                let written = input.to_text();
                char_count(written.as_str())
            },
            _ => 0,
        };
        match chars.checked_add(more) {
            Some(n) => {
                chars = n;
            },
            None => {
                return false;
            },
        }
        i = i + 1;
    }
    proof {
        lemma_take_all(blocks);
    }
    chars <= usize::MAX / 3
}

/// Whether the tokens of the text of the messages can be estimated.
pub fn text_fits(messages: &[ChatMessage]) -> (r: bool)
    ensures
        r == (text_chars(messages.deep_view()) * 3 <= usize::MAX),
{
    let ghost all = messages.deep_view();
    let mut sum: usize = 0;
    let mut i: usize = 0;
    assert(all.take(0) =~= Seq::<MessageView>::empty());
    while i < messages.len()
        invariant
            i <= messages@.len(),
            all == messages.deep_view(),
            sum == text_chars(all.take(i as int)),
        decreases messages@.len() - i,
    {
        proof {
            lemma_take_step(all, i as int);
            lemma_text_chars_prefix(all, i + 1);
            assert(all[i as int] == messages@[i as int].deep_view());
        }
        let text = messages[i].text_content();
        match sum.checked_add(char_count(text.as_str())) {
            Some(n) => {
                sum = n;
            },
            None => {
                return false;
            },
        }
        i = i + 1;
    }
    proof {
        lemma_take_all(all);
    }
    sum <= usize::MAX / 3
}

/// The characters of what is said, where a count can hold their number.
pub fn count_body_chars(messages: &[ConversationMessage]) -> (r: Option<usize>)
    ensures
        match r {
            Some(n) => n == body_chars(messages.deep_view()),
            None => body_chars(messages.deep_view()) > usize::MAX,
        },
{
    let ghost all = messages.deep_view();
    let mut sum: usize = 0;
    let mut i: usize = 0;
    assert(all.take(0) =~= Seq::<ConversationMessageView>::empty());
    while i < messages.len()
        invariant
            i <= messages@.len(),
            all == messages.deep_view(),
            sum == body_chars(all.take(i as int)),
        decreases messages@.len() - i,
    {
        proof {
            lemma_take_step(all, i as int);
            lemma_body_chars_prefix(all, i + 1);
            assert(all[i as int] == messages@[i as int].deep_view());
        }
        let text = body(messages[i].content.as_slice());
        match sum.checked_add(char_count(text.as_str())) {
            Some(n) => {
                sum = n;
            },
            None => {
                return None;
            },
        }
        i = i + 1;
    }
    proof {
        lemma_take_all(all);
    }
    Some(sum)
}

/// Whether the tokens of a conversation can be estimated.
pub fn history_fits(messages: &[ConversationMessage]) -> (r: bool)
    ensures
        r == (history_chars(messages.deep_view()) * 3 <= usize::MAX),
{
    let ghost all = messages.deep_view();
    let mut sum: usize = 0;
    let mut i: usize = 0;
    assert(all.take(0) =~= Seq::<ConversationMessageView>::empty());
    while i < messages.len()
        invariant
            i <= messages@.len(),
            all == messages.deep_view(),
            sum == history_chars(all.take(i as int)),
        decreases messages@.len() - i,
    {
        proof {
            lemma_take_step(all, i as int);
            lemma_history_chars_prefix(all, i + 1);
            assert(all[i as int] == messages@[i as int].deep_view());
        }
        let text = messages[i].text_content();
        match sum.checked_add(char_count(text.as_str())) {
            Some(n) => {
                sum = n;
            },
            None => {
                return false;
            },
        }
        i = i + 1;
    }
    proof {
        lemma_take_all(all);
    }
    sum <= usize::MAX / 3
}

impl ConversationHistory {
    /// How many tokens the context takes, where that can be told.
    pub fn try_context_tokens(&self) -> (r: Option<usize>)
        ensures
            match r {
                Some(n) => history_chars(self.deep_view().messages) * 3 <= usize::MAX
                    && self.tracked_prompt_tokens <= usize::MAX && n == context_tokens_of(
                    self.deep_view(),
                ),
                None => history_chars(self.deep_view().messages) * 3 > usize::MAX
                    || self.tracked_prompt_tokens > usize::MAX,
            },
    {
        if history_fits(self.messages.as_slice()) && self.tracked_prompt_tokens
            <= usize::MAX as u64 {
            Some(self.context_tokens())
        } else {
            None
        }
    }
}

impl ToolLoop {
    /// Whether the counts that a reply leads to fit their types.
    pub fn reply_fits(&self, response: &ChatResponse) -> (r: bool)
        ensures
            r == counts_fit(self.deep_view(), response.deep_view()),
    {
        if !input_fits(self.messages.as_slice()) || !output_fits(response) {
            return false;
        }
        let prompt: u64 = if response.usage.prompt_tokens > 0 {
            response.usage.prompt_tokens
        } else {
            estimate_input_tokens(self.messages.as_slice())
        };
        let completion: u64 = if response.usage.completion_tokens > 0 {
            response.usage.completion_tokens
        } else {
            estimate_output_tokens(response)
        };
        prompt.checked_add(completion).is_some() && self.total_prompt_tokens.checked_add(
            prompt,
        ).is_some()
    }

    /// What became of the call of the model, as [`ToolLoop::receive`] takes it;
    /// where the counts would not fit their types the loop stays as it is.
    pub fn try_receive(&mut self, reply: ModelReply, now: &str) -> (r: Option<
        (LoopStep, Vec<ProgressEvent>),
    >)
        ensures
            match reply {
                ModelReply::Answer { response } => if counts_fit(
                    old(self).deep_view(),
                    response.deep_view(),
                ) {
                    &&& r is Some
                    &&& final(self).deep_view() == after_reply(
                        old(self).deep_view(),
                        response.deep_view(),
                        now@,
                    )
                    &&& (r->0).0.deep_view() == step_on_reply(response.deep_view().content)
                    &&& (r->0).1.deep_view() == shown(response.deep_view())
                } else {
                    r is None && *final(self) == *old(self)
                },
                ModelReply::Failed { message } => {
                    &&& *final(self) == *old(self)
                    &&& r is Some
                    &&& (r->0).0.deep_view() == (LoopStepView::Fail {
                        error: MainBrainErrorView::LlmError(message@),
                    })
                    &&& (r->0).1.deep_view() == Seq::<ProgressView>::empty()
                },
                ModelReply::TimedOut => {
                    &&& *final(self) == *old(self)
                    &&& r is Some
                    &&& (r->0).0.deep_view() == (LoopStepView::Fail {
                        error: MainBrainErrorView::LlmError(
                            "LLM 请求超时（360秒，含重试），请检查网络连接或模型服务状态"@,
                        ),
                    })
                    &&& (r->0).1.deep_view() == Seq::<ProgressView>::empty()
                },
            },
    {
        if let ModelReply::Answer { response } = &reply {
            if !self.reply_fits(response) {
                return None;
            }
        }
        Some(self.receive(reply, now))
    }

    /// The end of a round in which tools ran, as [`ToolLoop::after_tools`] has
    /// it; nothing where the context cannot be measured.
    pub fn try_after_tools(&self) -> (r: Option<LoopStep>)
        ensures
            match r {
                Some(step) => text_chars(self.messages.deep_view()) * 3 <= usize::MAX
                    && step.deep_view() == step_after_tools(self.messages.deep_view()),
                None => text_chars(self.messages.deep_view()) * 3 > usize::MAX,
            },
    {
        if text_fits(self.messages.as_slice()) {
            Some(self.after_tools())
        } else {
            None
        }
    }
}

impl MainBrain {
    /// Whether what the user says can be taken in.
    pub fn can_accept(&self, input: &str, now: i64) -> (r: bool)
        ensures
            r == ({
                let ms = self.history.deep_view().messages.push(
                    uttered(SpeakerRole::User, input@, now),
                );
                &&& body_chars(ms) <= usize::MAX
                &&& self.compaction_count + self.history.messages@.len() + 1 <= u32::MAX
                &&& self.chars_saved_by_compaction + body_chars(ms) <= usize::MAX
            }),
    {
        let ghost before = self.history.deep_view().messages;
        let message = ConversationMessage::user(input, now);
        let ghost ms = before.push(uttered(SpeakerRole::User, input@, now));
        let text = body(message.content.as_slice());
        let more: usize = char_count(text.as_str());
        proof {
            assert(ms.drop_last() =~= before);
            assert(ms.last() == message.deep_view());
            assert(before.len() == self.history.messages@.len());
        }
        match count_body_chars(self.history.messages.as_slice()) {
            None => false,
            Some(chars) => match chars.checked_add(more) {
                None => false,
                Some(chars) => {
                    let count: usize = self.history.messages.len();
                    count < u32::MAX as usize && self.compaction_count as u64 + count as u64 + 1
                        <= u32::MAX as u64 && self.chars_saved_by_compaction.checked_add(
                        chars,
                    ).is_some()
                },
            },
        }
    }

    /// Whether what a turn took can be added up.
    pub fn can_record(&self, result: &ToolLoopResult) -> (r: bool)
        ensures
            r == ({
                &&& self.history.messages@.len() < usize::MAX
                &&& self.session_prompt_tokens + result.total_prompt_tokens <= u64::MAX
                &&& self.session_completion_tokens + last_usage(
                    result.usage_records@,
                ).completion_tokens <= u64::MAX
                &&& self.session_cache_read_tokens + last_usage(
                    result.usage_records@,
                ).cache_read_input_tokens <= u64::MAX
            }),
    {
        let total: usize = result.usage_records.len();
        let (completion, cached): (u64, u64) = if total == 0 {
            (0, 0)
        } else {
            (
                result.usage_records[total - 1].completion_tokens,
                result.usage_records[total - 1].cache_read_input_tokens,
            )
        };
        self.history.messages.len() < usize::MAX && self.session_prompt_tokens.checked_add(
            result.total_prompt_tokens,
        ).is_some() && self.session_completion_tokens.checked_add(completion).is_some()
            && self.session_cache_read_tokens.checked_add(cached).is_some()
    }
}

} // verus!
