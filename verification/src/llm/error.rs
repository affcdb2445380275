//! What can go wrong with a language model.

use crate::llm::retry::{is_retryable_http_status, is_route_error, is_transient_status};
use crate::text::{decimal, number};
use vstd::prelude::*;

verus! {

/// Why a request to a language model failed.
#[derive(Debug, PartialEq, Eq)]
pub enum LlmError {
    Config(String),
    RequestFailed(String),
    /// The model answered with an error.
    ApiError { status: u16, message: String },
    StreamError(String),
    ApiKeyNotFound(String),
    ProviderNotFound(String),
    BrainNotConfigured(String),
    RetriesExhausted { attempts: u32, last_error: String },
    JsonError(String),
    IoError(String),
}

/// What a failure is.
pub enum LlmErrorView {
    Config(Seq<char>),
    RequestFailed(Seq<char>),
    ApiError { status: u16, message: Seq<char> },
    StreamError(Seq<char>),
    ApiKeyNotFound(Seq<char>),
    ProviderNotFound(Seq<char>),
    BrainNotConfigured(Seq<char>),
    RetriesExhausted { attempts: u32, last_error: Seq<char> },
    JsonError(Seq<char>),
    IoError(Seq<char>),
}

impl DeepView for LlmError {
    type V = LlmErrorView;

    open spec fn deep_view(&self) -> LlmErrorView {
        match *self {
            LlmError::Config(s) => LlmErrorView::Config(s@),
            LlmError::RequestFailed(s) => LlmErrorView::RequestFailed(s@),
            LlmError::ApiError { status, message } => LlmErrorView::ApiError {
                status,
                message: message@,
            },
            LlmError::StreamError(s) => LlmErrorView::StreamError(s@),
            LlmError::ApiKeyNotFound(s) => LlmErrorView::ApiKeyNotFound(s@),
            LlmError::ProviderNotFound(s) => LlmErrorView::ProviderNotFound(s@),
            LlmError::BrainNotConfigured(s) => LlmErrorView::BrainNotConfigured(s@),
            LlmError::RetriesExhausted { attempts, last_error } => LlmErrorView::RetriesExhausted {
                attempts,
                last_error: last_error@,
            },
            LlmError::JsonError(s) => LlmErrorView::JsonError(s@),
            LlmError::IoError(s) => LlmErrorView::IoError(s@),
        }
    }
}

/// How a failure is put to the user.
pub open spec fn llm_error_message(e: LlmErrorView) -> Seq<char> {
    match e {
        LlmErrorView::Config(s) => "configuration error: "@ + s,
        LlmErrorView::RequestFailed(s) => "API request failed: "@ + s,
        LlmErrorView::ApiError { status, message } => "API returned error: status="@ + decimal(
            status as nat,
        ) + ", message="@ + message,
        LlmErrorView::StreamError(s) => "stream error: "@ + s,
        LlmErrorView::ApiKeyNotFound(s) => "API key not found: "@ + s,
        LlmErrorView::ProviderNotFound(s) => "provider not found: "@ + s,
        LlmErrorView::BrainNotConfigured(s) => "brain not configured for LLM: "@ + s,
        LlmErrorView::RetriesExhausted { attempts, last_error } => "retries exhausted after "@
            + decimal(attempts as nat) + " attempts: "@ + last_error,
        LlmErrorView::JsonError(s) => "JSON parse error: "@ + s,
        LlmErrorView::IoError(s) => "IO error: "@ + s,
    }
}

fn said_of(what: &str, s: &str) -> (r: String)
    ensures
        r@ == what@ + s@,
{
    let mut r = what.to_owned();
    r.append(s);
    r
}

impl LlmError {
    /// Whether the failure is worth another try: only a reply whose status may
    /// pass is. A failure on the way is judged where it is still known in full.
    pub fn is_retryable(&self) -> (r: bool)
        ensures
            r == match self.deep_view() {
                LlmErrorView::ApiError { status, message } => !is_route_error(message)
                    && is_transient_status(status),
                _ => false,
            },
    {
        match self {
            LlmError::ApiError { status, message } => is_retryable_http_status(
                *status,
                message.as_str(),
            ),
            _ => false,
        }
    }

    /// How the failure is put to the user.
    pub fn message(&self) -> (r: String)
        ensures
            r@ == llm_error_message(self.deep_view()),
    {
        match self {
            LlmError::Config(s) => said_of("configuration error: ", s.as_str()),
            LlmError::RequestFailed(s) => said_of("API request failed: ", s.as_str()),
            LlmError::ApiError { status, message } => {
                let mut r = "API returned error: status=".to_owned();
                let n = number(*status as u64);
                r.append(n.as_str());
                r.append(", message=");
                r.append(message.as_str());
                r
            },
            LlmError::StreamError(s) => said_of("stream error: ", s.as_str()),
            LlmError::ApiKeyNotFound(s) => said_of("API key not found: ", s.as_str()),
            LlmError::ProviderNotFound(s) => said_of("provider not found: ", s.as_str()),
            LlmError::BrainNotConfigured(s) => said_of(
                "brain not configured for LLM: ",
                s.as_str(),
            ),
            LlmError::RetriesExhausted { attempts, last_error } => {
                let mut r = "retries exhausted after ".to_owned();
                let n = number(*attempts as u64);
                r.append(n.as_str());
                r.append(" attempts: ");
                r.append(last_error.as_str());
                r
            },
            LlmError::JsonError(s) => said_of("JSON parse error: ", s.as_str()),
            LlmError::IoError(s) => said_of("IO error: ", s.as_str()),
        }
    }
}

} // verus!
