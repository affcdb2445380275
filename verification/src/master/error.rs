//! What can go wrong in the judging brain.

use vstd::prelude::*;

verus! {

/// Why a task could not be done.
#[derive(Debug, PartialEq, Eq)]
pub enum MasterError {
    BusError(String),
    NoTaskContext,
    /// No first thought came in within the time given, as it is written.
    FastThinkTimeout(String),
    NoRelevantResponses,
}

/// What a failure is.
pub enum MasterErrorView {
    BusError(Seq<char>),
    NoTaskContext,
    FastThinkTimeout(Seq<char>),
    NoRelevantResponses,
}

impl DeepView for MasterError {
    type V = MasterErrorView;

    open spec fn deep_view(&self) -> MasterErrorView {
        match *self {
            MasterError::BusError(s) => MasterErrorView::BusError(s@),
            MasterError::NoTaskContext => MasterErrorView::NoTaskContext,
            MasterError::FastThinkTimeout(t) => MasterErrorView::FastThinkTimeout(t@),
            MasterError::NoRelevantResponses => MasterErrorView::NoRelevantResponses,
        }
    }
}

/// How a failure is put to the user.
pub open spec fn master_error_message(e: MasterErrorView) -> Seq<char> {
    match e {
        MasterErrorView::BusError(s) => "bus error: "@ + s,
        MasterErrorView::NoTaskContext =>
            "no task context — run_loop called without broadcast"@,
        MasterErrorView::FastThinkTimeout(t) => "fast think timeout — no responses within "@ + t,
        MasterErrorView::NoRelevantResponses => "no relevant brain responses"@,
    }
}

impl MasterError {
    /// How the failure is put to the user.
    pub fn message(&self) -> (r: String)
        ensures
            r@ == master_error_message(self.deep_view()),
    {
        match self {
            MasterError::BusError(s) => {
                let mut r = "bus error: ".to_owned();
                r.append(s.as_str());
                r
            },
            MasterError::NoTaskContext =>
                "no task context — run_loop called without broadcast".to_owned(),
            MasterError::FastThinkTimeout(t) => {
                let mut r = "fast think timeout — no responses within ".to_owned();
                r.append(t.as_str());
                r
            },
            MasterError::NoRelevantResponses => "no relevant brain responses".to_owned(),
        }
    }
}

} // verus!
