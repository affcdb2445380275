use ai_brain::llm::error::LlmError;
use ai_brain::llm::http_client::{check_proxy, judge_proxy};
use ai_brain::llm::retry::{
    is_retryable_http_status, is_retryable_reqwest_error, Attempts, IoFailure, RetryConfig,
    RetryStep, TransportFailure,
};

#[test]
fn retries_only_transient_http_statuses() {
    for status in [408, 429, 500, 502, 503, 504] {
        assert!(is_retryable_http_status(status, "temporary"));
    }
    for status in [400, 401, 403, 404, 409, 422] {
        assert!(!is_retryable_http_status(status, "temporary"));
    }
}

#[test]
fn deterministic_model_route_503_is_not_retryable() {
    for message in [
        "model_not_found",
        "Model not found in the default group",
        "No available channel",
        "模型没有可用渠道",
    ] {
        assert!(!is_retryable_http_status(503, message));
    }
}

fn failure() -> TransportFailure {
    TransportFailure {
        is_builder: false,
        is_redirect: false,
        is_status: false,
        is_timeout: false,
        is_connect: false,
        is_request: false,
        is_body: false,
        causes: vec![],
    }
}

#[test]
fn failures_on_the_way_are_judged() {
    assert!(!is_retryable_reqwest_error(&failure()));
    assert!(is_retryable_reqwest_error(&TransportFailure { is_timeout: true, ..failure() }));
    assert!(!is_retryable_reqwest_error(&TransportFailure {
        is_timeout: true,
        is_builder: true,
        ..failure()
    }));
    assert!(is_retryable_reqwest_error(&TransportFailure {
        causes: vec![IoFailure::Other, IoFailure::BrokenPipe],
        ..failure()
    }));
    assert!(!is_retryable_reqwest_error(&TransportFailure {
        causes: vec![IoFailure::Other],
        ..failure()
    }));
}

#[test]
fn waits_double_up_to_the_longest() {
    let config = RetryConfig::default();
    let waits: Vec<u64> = (0..8).map(|n| config.backoff_for_attempt(n)).collect();
    assert_eq!(waits, vec![1000, 1000, 2000, 4000, 8000, 16000, 16000, 16000]);
    assert_eq!(config.backoff_for_attempt(40), 16000);
    let long = RetryConfig { max_retries: 1, initial_backoff: 1, max_backoff: u64::MAX };
    assert_eq!(long.backoff_for_attempt(32), 2147483648);
    assert_eq!(long.backoff_for_attempt(33), 4294967295);
}

#[test]
fn a_request_is_given_up_after_its_retries() {
    let mut attempts = Attempts::new(RetryConfig { max_retries: 2, ..RetryConfig::default() });
    attempts.begin();
    assert_eq!(attempts.after_failure(false), RetryStep::GiveUp);
    assert_eq!(attempts.after_failure(true), RetryStep::Retry { backoff: 1000 });
    attempts.begin();
    assert_eq!(attempts.after_failure(true), RetryStep::Retry { backoff: 2000 });
    attempts.begin();
    assert_eq!(attempts.after_failure(true), RetryStep::GiveUp);
}

#[test]
fn model_route_503_is_not_retryable() {
    for message in [
        "model_not_found: No available channel for gemini-3.5-flash",
        "Model not found in the default group",
        "模型没有可用渠道",
    ] {
        let error = LlmError::ApiError { status: 503, message: message.to_string() };
        assert!(!error.is_retryable(), "unexpected retry for {message}");
    }
}

#[test]
fn ordinary_503_remains_retryable() {
    let error = LlmError::ApiError {
        status: 503,
        message: "temporary upstream overload".to_string(),
    };
    assert!(error.is_retryable());
}

#[test]
fn request_failed_display_text_never_drives_retry_classification() {
    for message in [
        "timeout",
        "connection reset",
        "error sending request for url",
        "hyper tcp socket failure",
    ] {
        let error = LlmError::RequestFailed(message.to_string());
        assert!(!error.is_retryable(), "展示字符串不应触发重试: {message}");
    }
}

#[test]
fn build_without_proxy_succeeds() {
    assert!(check_proxy(None).is_ok());
}

#[test]
fn build_with_http_proxy_succeeds() {
    assert!(check_proxy(Some("http://127.0.0.1:7890")).is_ok());
}

#[test]
fn build_with_invalid_proxy_fails() {
    assert!(check_proxy(Some("not-a-url")).is_err());
}

#[test]
fn build_with_unsupported_proxy_scheme_fails() {
    let error = check_proxy(Some("socks5://127.0.0.1:1080")).unwrap_err();
    assert_eq!(
        error.message(),
        "configuration error: 不支持的代理协议 'socks5': 仅支持 http://"
    );
}

#[test]
fn addresses_that_are_none_are_told() {
    let error = judge_proxy("x", Err("empty".to_string())).unwrap_err();
    assert_eq!(error, LlmError::Config("无效的代理地址 'x': empty".to_string()));
    assert!(judge_proxy("x", Ok("http".to_string())).is_ok());
}

#[test]
fn failures_are_put_in_words() {
    let s = || "x".to_string();
    let cases = vec![
        (LlmError::Config(s()), "configuration error: x"),
        (LlmError::RequestFailed(s()), "API request failed: x"),
        (
            LlmError::ApiError { status: 404, message: s() },
            "API returned error: status=404, message=x",
        ),
        (LlmError::StreamError(s()), "stream error: x"),
        (LlmError::ApiKeyNotFound(s()), "API key not found: x"),
        (LlmError::ProviderNotFound(s()), "provider not found: x"),
        (LlmError::BrainNotConfigured(s()), "brain not configured for LLM: x"),
        (
            LlmError::RetriesExhausted { attempts: 3, last_error: s() },
            "retries exhausted after 3 attempts: x",
        ),
        (LlmError::JsonError(s()), "JSON parse error: x"),
        (LlmError::IoError(s()), "IO error: x"),
    ];
    for (error, message) in cases {
        assert_eq!(error.message(), message);
    }
}
