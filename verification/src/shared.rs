//! What the brains tell each other about a turn: the record of it, the tool
//! calls in it and the progress that is shown while it runs.

use crate::json::{Json, JsonView};
use vstd::prelude::*;

verus! {

/// What an entry of a turn's record is about.
#[derive(Debug, Clone, Copy, PartialEq, Eq, Structural)]
pub enum TurnRole {
    User,
    Assistant,
    ToolCall,
}

/// A tool call that was settled.
#[derive(Debug, PartialEq)]
pub struct ToolCallRecord {
    pub tool_name: String,
    pub input: Json,
    pub output: String,
    pub duration_ms: u64,
    pub is_error: bool,
}

/// What a settled tool call is.
#[verifier::ext_equal]
pub struct ToolCallRecordView {
    pub tool_name: Seq<char>,
    pub input: JsonView,
    pub output: Seq<char>,
    pub duration_ms: u64,
    pub is_error: bool,
}

impl DeepView for ToolCallRecord {
    type V = ToolCallRecordView;

    open spec fn deep_view(&self) -> ToolCallRecordView {
        ToolCallRecordView {
            tool_name: self.tool_name@,
            input: self.input.deep_view(),
            output: self.output@,
            duration_ms: self.duration_ms,
            is_error: self.is_error,
        }
    }
}

/// One entry of a turn's record.
#[derive(Debug, PartialEq)]
pub struct TurnRecord {
    pub role: TurnRole,
    pub content: String,
    pub tool_call: Option<ToolCallRecord>,
    pub timestamp: String,
}

/// What an entry of a turn's record is.
#[verifier::ext_equal]
pub struct TurnRecordView {
    pub role: TurnRole,
    pub content: Seq<char>,
    pub tool_call: Option<ToolCallRecordView>,
    pub timestamp: Seq<char>,
}

impl DeepView for TurnRecord {
    type V = TurnRecordView;

    open spec fn deep_view(&self) -> TurnRecordView {
        TurnRecordView {
            role: self.role,
            content: self.content@,
            tool_call: self.tool_call.deep_view(),
            timestamp: self.timestamp@,
        }
    }
}

/// A tool call that is about to be made.
#[derive(Debug, PartialEq)]
pub struct ToolCall {
    pub tool_name: String,
    pub input: Json,
    pub validated: bool,
    pub validation_id: Option<String>,
}

/// What a tool call is.
#[verifier::ext_equal]
pub struct ToolCallView {
    pub tool_name: Seq<char>,
    pub input: JsonView,
    pub validated: bool,
    pub validation_id: Option<Seq<char>>,
}

impl DeepView for ToolCall {
    type V = ToolCallView;

    open spec fn deep_view(&self) -> ToolCallView {
        ToolCallView {
            tool_name: self.tool_name@,
            input: self.input.deep_view(),
            validated: self.validated,
            validation_id: self.validation_id.deep_view(),
        }
    }
}

/// What is shown while a turn runs.
#[derive(Debug, PartialEq)]
pub enum ProgressEvent {
    Connecting { brain: String, model: String },
    TextDelta { text: String },
    ThinkingDelta { content: String },
    ToolStart { brain: String, tool_name: String, input: String },
    ToolDone {
        brain: String,
        tool_name: String,
        duration_ms: u64,
        output_preview: String,
        is_error: bool,
    },
    Done,
}

/// What a progress event is.
pub enum ProgressView {
    Connecting { brain: Seq<char>, model: Seq<char> },
    TextDelta { text: Seq<char> },
    ThinkingDelta { content: Seq<char> },
    ToolStart { brain: Seq<char>, tool_name: Seq<char>, input: Seq<char> },
    ToolDone {
        brain: Seq<char>,
        tool_name: Seq<char>,
        duration_ms: u64,
        output_preview: Seq<char>,
        is_error: bool,
    },
    Done,
}

impl DeepView for ProgressEvent {
    type V = ProgressView;

    open spec fn deep_view(&self) -> ProgressView {
        match *self {
            ProgressEvent::Connecting { brain, model } => ProgressView::Connecting {
                brain: brain@,
                model: model@,
            },
            ProgressEvent::Done => ProgressView::Done,
            ProgressEvent::TextDelta { text } => ProgressView::TextDelta { text: text@ },
            ProgressEvent::ThinkingDelta { content } => ProgressView::ThinkingDelta {
                content: content@,
            },
            ProgressEvent::ToolStart { brain, tool_name, input } => ProgressView::ToolStart {
                brain: brain@,
                tool_name: tool_name@,
                input: input@,
            },
            ProgressEvent::ToolDone { brain, tool_name, duration_ms, output_preview, is_error } =>
                ProgressView::ToolDone {
                brain: brain@,
                tool_name: tool_name@,
                duration_ms,
                output_preview: output_preview@,
                is_error,
            },
        }
    }
}

} // verus!
