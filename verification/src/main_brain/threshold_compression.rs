//! Making a conversation shorter once it fills most of the room there is.

use crate::main_brain::conversation::{ConversationMessage, ConversationMessageView};
use crate::text::{decimal, number};
use crate::weights::FOUR_FIFTHS;
use vstd::prelude::*;

verus! {

/// How a conversation is made shorter.
#[derive(Debug, Clone, Copy, PartialEq, Eq, Structural)]
pub struct ThresholdCompactionConfig {
    /// How many of the last turns are kept as they are.
    pub preserve_recent_turns: usize,
    pub max_summary_tokens: u32,
    /// The bits of how much the way to a decision counts, from 0 to 1.
    pub decision_chain_weight: u64,
    /// How long it may take, in milliseconds.
    pub timeout_ms: u64,
}

impl Default for ThresholdCompactionConfig {
    fn default() -> (r: Self)
        ensures
            r == (ThresholdCompactionConfig {
                preserve_recent_turns: 4,
                max_summary_tokens: 2048,
                decision_chain_weight: FOUR_FIFTHS,
                timeout_ms: 30_000,
            }),
    {
        ThresholdCompactionConfig {
            preserve_recent_turns: 4,
            max_summary_tokens: 2048,
            decision_chain_weight: FOUR_FIFTHS,
            timeout_ms: 30_000,
        }
    }
}

/// How much shorter a conversation was made.
#[derive(Debug, Clone, Copy, PartialEq, Eq, Structural)]
pub struct CompressionMetadata {
    pub original_count: usize,
    pub compressed_count: usize,
    pub preserved_count: usize,
    pub duration_ms: u64,
}

impl DeepView for CompressionMetadata {
    type V = CompressionMetadata;

    open spec fn deep_view(&self) -> CompressionMetadata {
        *self
    }
}

/// A conversation that was made shorter.
#[derive(Debug, PartialEq)]
pub struct CompressedContext {
    pub decision_summary: String,
    pub recent_messages: Vec<ConversationMessage>,
    pub metadata: CompressionMetadata,
}

/// What such a conversation is.
#[verifier::ext_equal]
pub struct CompressedContextView {
    pub decision_summary: Seq<char>,
    pub recent_messages: Seq<ConversationMessageView>,
    pub metadata: CompressionMetadata,
}

impl DeepView for CompressedContext {
    type V = CompressedContextView;

    open spec fn deep_view(&self) -> CompressedContextView {
        CompressedContextView {
            decision_summary: self.decision_summary@,
            recent_messages: self.recent_messages.deep_view(),
            metadata: self.metadata,
        }
    }
}

/// Why a conversation could not be made shorter.
#[derive(Debug, PartialEq, Eq)]
pub enum CompactionError {
    LlmError(String),
    InsufficientMessages,
    /// It took more than so many milliseconds.
    Timeout(u64),
}

/// What a failure is.
pub enum CompactionErrorView {
    LlmError(Seq<char>),
    InsufficientMessages,
    Timeout(u64),
}

impl DeepView for CompactionError {
    type V = CompactionErrorView;

    open spec fn deep_view(&self) -> CompactionErrorView {
        match *self {
            CompactionError::LlmError(s) => CompactionErrorView::LlmError(s@),
            CompactionError::InsufficientMessages => CompactionErrorView::InsufficientMessages,
            CompactionError::Timeout(ms) => CompactionErrorView::Timeout(ms),
        }
    }
}

/// How a failure is put to the user.
pub open spec fn compaction_error_message(e: CompactionErrorView) -> Seq<char> {
    match e {
        CompactionErrorView::LlmError(s) => "LLM 调用失败: "@ + s,
        CompactionErrorView::InsufficientMessages => "消息分割失败: 消息数不足"@,
        CompactionErrorView::Timeout(ms) => "压缩超时（超过 "@ + decimal(ms as nat) + "ms）"@,
    }
}

impl CompactionError {
    /// How the failure is put to the user.
    pub fn message(&self) -> (r: String)
        ensures
            r@ == compaction_error_message(self.deep_view()),
    {
        match self {
            CompactionError::LlmError(s) => {
                let mut r = "LLM 调用失败: ".to_owned();
                r.append(s.as_str());
                r
            },
            CompactionError::InsufficientMessages => "消息分割失败: 消息数不足".to_owned(),
            CompactionError::Timeout(ms) => {
                let mut r = "压缩超时（超过 ".to_owned();
                let n = number(*ms);
                r.append(n.as_str());
                r.append("ms）");
                r
            },
        }
    }
}

/// What makes a conversation shorter.
#[derive(Debug, Clone, Copy, PartialEq, Eq, Structural)]
pub struct ThresholdCompressor {
    pub config: ThresholdCompactionConfig,
}

impl ThresholdCompressor {
    /// One that works by these settings.
    pub fn new(config: ThresholdCompactionConfig) -> (r: Self)
        ensures
            r.config == config,
    {
        ThresholdCompressor { config }
    }
}

} // verus!
