//! A stand-in for a language model that gives back what it was told.

use crate::llm::provider::{
    text_of_blocks, ChatMessage, ChatRequest, ChatResponse, MessageRole, MessageView, ResponseView,
};
use crate::llm::types::{
    no_usage, BlockView, ContentBlock, FinishReason, StreamEvent, StreamEventView, TokenUsage,
};
use crate::seqs::{lemma_take_all, lemma_take_step};
use crate::walk::{no_items, push_one};
use vstd::prelude::*;

verus! {

/// What the user said last.
pub open spec fn last_said(messages: Seq<MessageView>) -> Seq<char>
    decreases messages.len(),
{
    if messages.len() == 0 {
        ""@
    } else if messages.last().role == MessageRole::User {
        text_of_blocks(messages.last().content)
    } else {
        last_said(messages.drop_last())
    }
}

/// The answer to what the user said.
pub open spec fn echo_of(said: Seq<char>) -> Seq<char> {
    if said.len() == 0 {
        "（回声模式：没有检测到用户输入）"@
    } else {
        "[回声模式] 收到你的消息: "@ + said
            + "\n\n提示: 配置 ZHIPU_API_KEY 环境变量以启用真实 AI 响应。"@
    }
}

fn find_last_said(messages: &Vec<ChatMessage>) -> (r: String)
    ensures
        r@ == last_said(messages.deep_view()),
{
    let ghost all = messages.deep_view();
    let mut i: usize = messages.len();
    proof {
        lemma_take_all(all);
    }
    while i > 0
        invariant
            i <= messages@.len(),
            all == messages.deep_view(),
            last_said(all) == last_said(all.take(i as int)),
        decreases i,
    {
        i = i - 1;
        proof {
            lemma_take_step(all, i as int);
            assert(all[i as int] == messages@[i as int].deep_view());
        }
        if messages[i].role == MessageRole::User {
            return messages[i].text_content();
        }
    }
    assert(all.take(0) =~= Seq::<MessageView>::empty());
    "".to_owned()
}

/// A stand-in for a language model.
#[derive(Debug)]
pub struct EchoLlmProvider {
    pub model_name: String,
}

impl EchoLlmProvider {
    /// A stand-in under a name.
    pub fn new(model_name: &str) -> (r: Self)
        ensures
            r.model_name@ == model_name@,
    {
        EchoLlmProvider { model_name: model_name.to_owned() }
    }

    /// The name it goes by.
    pub fn model(&self) -> (r: &str)
        ensures
            r@ == self.model_name@,
    {
        self.model_name.as_str()
    }

    /// The answer to a request.
    pub fn complete(&self, request: &ChatRequest) -> (r: ChatResponse)
        ensures
            r.deep_view() == (ResponseView {
                content: seq![
                    BlockView::Text { text: echo_of(last_said(request.deep_view().messages)) },
                ],
                model: self.model_name@,
                usage: no_usage(),
                finish_reason: Some(FinishReason::EndTurn),
            }),
    {
        let said = find_last_said(&request.messages);
        let text = if said.as_str().is_empty() {
            "（回声模式：没有检测到用户输入）".to_owned()
        } else {
            let mut t = "[回声模式] 收到你的消息: ".to_owned();
            t.append(said.as_str());
            t.append("\n\n提示: 配置 ZHIPU_API_KEY 环境变量以启用真实 AI 响应。");
            t
        };
        let mut content: Vec<ContentBlock> = no_items();
        push_one(&mut content, ContentBlock::Text { text });
        assert(content.deep_view() =~= seq![
            BlockView::Text { text: echo_of(last_said(request.deep_view().messages)) },
        ]);
        ChatResponse {
            content,
            model: self.model_name.clone(),
            usage: TokenUsage::default(),
            finish_reason: Some(FinishReason::EndTurn),
        }
    }

    /// The answer to a request, piece by piece.
    pub fn stream_complete(&self, request: &ChatRequest) -> (r: Vec<StreamEvent>)
        ensures
            r.deep_view() == seq![
                StreamEventView::TextDelta {
                    text: "[回声模式] "@ + last_said(request.deep_view().messages),
                },
                StreamEventView::Done {
                    finish_reason: Some(FinishReason::EndTurn),
                    usage: Some(no_usage()),
                },
            ],
    {
        let said = find_last_said(&request.messages);
        let mut text = "[回声模式] ".to_owned();
        text.append(said.as_str());
        let mut r: Vec<StreamEvent> = no_items();
        push_one(&mut r, StreamEvent::TextDelta { text });
        push_one(
            &mut r,
            StreamEvent::Done {
                finish_reason: Some(FinishReason::EndTurn),
                usage: Some(TokenUsage::default()),
            },
        );
        r
    }
}

} // verus!
