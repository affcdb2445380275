//! What can go wrong in the memory brain.

use vstd::prelude::*;

verus! {

/// Why an operation on the memory failed.
#[derive(Debug, PartialEq, Eq)]
pub enum MemoryError {
    Io(String),
    Serde(String),
    PathNotFound(String),
    EntryNotFound(String),
    Bus(String),
    ConsolidationFailed(String),
    /// What was asked does not fit what is there.
    Conflict(String),
    /// What was asked for is not there.
    NotFound(String),
}

/// What a failure is.
pub enum MemoryErrorView {
    Io(Seq<char>),
    Serde(Seq<char>),
    PathNotFound(Seq<char>),
    EntryNotFound(Seq<char>),
    Bus(Seq<char>),
    ConsolidationFailed(Seq<char>),
    Conflict(Seq<char>),
    NotFound(Seq<char>),
}

impl DeepView for MemoryError {
    type V = MemoryErrorView;

    open spec fn deep_view(&self) -> MemoryErrorView {
        match *self {
            MemoryError::Io(s) => MemoryErrorView::Io(s@),
            MemoryError::Serde(s) => MemoryErrorView::Serde(s@),
            MemoryError::PathNotFound(s) => MemoryErrorView::PathNotFound(s@),
            MemoryError::EntryNotFound(s) => MemoryErrorView::EntryNotFound(s@),
            MemoryError::Bus(s) => MemoryErrorView::Bus(s@),
            MemoryError::ConsolidationFailed(s) => MemoryErrorView::ConsolidationFailed(s@),
            MemoryError::Conflict(s) => MemoryErrorView::Conflict(s@),
            MemoryError::NotFound(s) => MemoryErrorView::NotFound(s@),
        }
    }
}

/// How a failure is put to the user.
pub open spec fn memory_error_message(e: MemoryErrorView) -> Seq<char> {
    match e {
        MemoryErrorView::Io(s) => "IO 错误: "@ + s,
        MemoryErrorView::Serde(s) => "序列化错误: "@ + s,
        MemoryErrorView::PathNotFound(s) => "存储路径不存在: "@ + s,
        MemoryErrorView::EntryNotFound(s) => "记忆条目不存在: "@ + s,
        MemoryErrorView::Bus(s) => "总线错误: "@ + s,
        MemoryErrorView::ConsolidationFailed(s) => "巩固失败: "@ + s,
        MemoryErrorView::Conflict(s) => "冲突: "@ + s,
        MemoryErrorView::NotFound(s) => "未找到: "@ + s,
    }
}

impl MemoryError {
    /// How this is put to the user.
    pub fn message(&self) -> (r: String)
        ensures
            r@ == memory_error_message(self.deep_view()),
    {
        let (head, text) = match self {
            MemoryError::Io(s) => ("IO 错误: ", s),
            MemoryError::Serde(s) => ("序列化错误: ", s),
            MemoryError::PathNotFound(s) => ("存储路径不存在: ", s),
            MemoryError::EntryNotFound(s) => ("记忆条目不存在: ", s),
            MemoryError::Bus(s) => ("总线错误: ", s),
            MemoryError::ConsolidationFailed(s) => ("巩固失败: ", s),
            MemoryError::Conflict(s) => ("冲突: ", s),
            MemoryError::NotFound(s) => ("未找到: ", s),
        };
        let mut r = head.to_owned();
        r.append(text.as_str());
        r
    }
}

} // verus!
