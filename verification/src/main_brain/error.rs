//! What can go wrong in the main brain.

use vstd::prelude::*;

verus! {

/// Why a turn failed.
#[derive(Debug, PartialEq, Eq)]
pub enum MainBrainError {
    /// The model did not answer.
    LlmError(String),
    /// A value could not be written down.
    SerializationError(String),
    /// The context could not be made smaller.
    ContextCompactionFailed(String),
}

/// What a failure is.
pub enum MainBrainErrorView {
    LlmError(Seq<char>),
    SerializationError(Seq<char>),
    ContextCompactionFailed(Seq<char>),
}

impl DeepView for MainBrainError {
    type V = MainBrainErrorView;

    open spec fn deep_view(&self) -> MainBrainErrorView {
        match *self {
            MainBrainError::LlmError(s) => MainBrainErrorView::LlmError(s@),
            MainBrainError::SerializationError(s) => MainBrainErrorView::SerializationError(s@),
            MainBrainError::ContextCompactionFailed(s) =>
                MainBrainErrorView::ContextCompactionFailed(s@),
        }
    }
}

/// How a failure is put to the user.
pub open spec fn error_message(e: MainBrainErrorView) -> Seq<char> {
    match e {
        MainBrainErrorView::LlmError(s) => "LLM 调用失败: "@ + s,
        MainBrainErrorView::SerializationError(s) => "序列化错误: "@ + s,
        MainBrainErrorView::ContextCompactionFailed(s) => "上下文压缩失败: "@ + s,
    }
}

impl MainBrainError {
    /// How this is put to the user.
    pub fn message(&self) -> (r: String)
        ensures
            r@ == error_message(self.deep_view()),
    {
        let (head, text) = match self {
            MainBrainError::LlmError(s) => ("LLM 调用失败: ", s),
            MainBrainError::SerializationError(s) => ("序列化错误: ", s),
            MainBrainError::ContextCompactionFailed(s) => ("上下文压缩失败: ", s),
        };
        let mut r = head.to_owned();
        r.append(text.as_str());
        r
    }
}

} // verus!
