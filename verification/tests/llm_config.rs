use ai_brain::llm::config::{LlmConfig, NamedText, ProviderConfig, ProviderKind};
use ai_brain::llm::echo::EchoLlmProvider;
use ai_brain::llm::error::LlmError;
use ai_brain::llm::provider::{ChatMessage, ChatRequest};
use ai_brain::llm::types::{FinishReason, StreamEvent, TokenUsage};

fn provider<'a>(config: &'a mut LlmConfig, name: &str) -> &'a mut ProviderConfig {
    &mut config.llm.providers.iter_mut().find(|p| p.name == name).unwrap().config
}

fn has(items: &[NamedText], name: &str) -> bool {
    items.iter().any(|x| x.name == name)
}

fn route(config: &mut LlmConfig, brain: &str, provider: &str) {
    config.llm.brain_providers.retain(|x| x.name != brain);
    config.llm.brain_providers.push(NamedText {
        name: brain.to_string(),
        value: provider.to_string(),
    });
}

#[test]
fn default_config_loads() {
    let mut config = LlmConfig::default_config();
    assert_eq!(config.llm.default_provider, "xiaomi");
    assert_eq!(config.llm.default_model, "mimo-7b");
    assert!(has(&config.llm.brain_providers, "main"));
    assert!(!has(&config.llm.brain_providers, "novel"));
    assert!(!has(&config.llm.brain_models, "novel"));
    assert_eq!(config.provider_for_brain("eval"), "deepseek");
    assert_eq!(config.model_for_brain("main"), "mimo-7b");
    assert_eq!(config.model_for_brain("eval"), "deepseek-chat");
    let main_policy = config.resolve_model_policy("main");
    assert_eq!(main_policy.policy_id, "main");
    assert_eq!(main_policy.provider, "xiaomi");
    assert_eq!(main_policy.model, "mimo-7b");
    assert_eq!(main_policy.max_output_tokens, config.params_for_brain("main").0);
    assert_eq!(config.params_for_brain("main"), (32768, "0.7".to_string()));
    assert_eq!(config.params_for_brain("unknown"), (4096, "0.7".to_string()));

    let kimi = provider(&mut config, "kimi");
    assert_eq!(kimi.api_base, "https://api.moonshot.ai/v1");
    assert_eq!(kimi.api_key_env, "MOONSHOT_API_KEY");
    assert_eq!(kimi.kind, ProviderKind::OpenAi);
}

#[test]
fn resolve_api_key_from_env() {
    let config = LlmConfig::default_config();
    assert_eq!(config.api_key_variable("xiaomi").as_deref(), Some("XIAOMI_API_KEY"));
    let key = config.resolve_api_key("xiaomi", Some("test-key-123")).unwrap();
    assert_eq!(key, "test-key-123");
}

#[test]
fn resolve_api_key_direct_config() {
    let mut config = LlmConfig::default_config();
    let p = provider(&mut config, "xiaomi");
    p.api_key = Some("direct-key".to_string());
    p.api_key_env = "NONEXISTENT_VAR".to_string();
    let key = config.resolve_api_key("xiaomi", None).unwrap();
    assert_eq!(key, "direct-key");
}

#[test]
fn resolve_api_key_env_priority_over_direct() {
    let mut config = LlmConfig::default_config();
    let p = provider(&mut config, "xiaomi");
    p.api_key = Some("direct-key".to_string());
    p.api_key_env = "TEST_PRIORITY_KEY".to_string();
    let key = config.resolve_api_key("xiaomi", Some("env-key")).unwrap();
    assert_eq!(key, "env-key");
}

#[test]
fn keys_that_are_not_there_are_told() {
    let config = LlmConfig::default_config();
    assert_eq!(
        config.resolve_api_key("xiaomi", None),
        Err(LlmError::ApiKeyNotFound("XIAOMI_API_KEY".to_string()))
    );
    assert_eq!(
        config.resolve_api_key("nobody", Some("k")),
        Err(LlmError::ProviderNotFound("nobody".to_string()))
    );
    assert_eq!(config.api_key_variable("nobody"), None);
}

#[test]
fn brain_providers_fallback_to_default() {
    let config = LlmConfig::default_config();
    assert_eq!(config.provider_for_brain("main"), config.llm.default_provider);
    assert_eq!(config.provider_for_brain("unknown"), config.llm.default_provider);
}

#[test]
fn brain_providers_per_brain_routing() {
    let mut config = LlmConfig::default_config();
    config.llm.brain_providers.clear();
    route(&mut config, "main", "xiaomi");
    route(&mut config, "eval", "deepseek");
    assert_eq!(config.provider_for_brain("main"), "xiaomi");
    assert_eq!(config.provider_for_brain("eval"), "deepseek");
    assert_eq!(config.provider_for_brain("memory"), "xiaomi");
    assert_eq!(config.provider_for_brain("unknown"), "xiaomi");
}

#[test]
fn resolve_proxy_follows_global_default() {
    let mut cfg = LlmConfig::default_config();
    cfg.proxy.default = Some("http://127.0.0.1:7890".to_string());
    assert_eq!(
        cfg.resolve_proxy("xiaomi").unwrap(),
        Some("http://127.0.0.1:7890".to_string())
    );
}

#[test]
fn resolve_proxy_custom_overrides_global() {
    let mut cfg = LlmConfig::default_config();
    cfg.proxy.default = Some("http://127.0.0.1:7890".to_string());
    provider(&mut cfg, "xiaomi").proxy = Some("http://127.0.0.1:1080".to_string());
    assert_eq!(
        cfg.resolve_proxy("xiaomi").unwrap(),
        Some("http://127.0.0.1:1080".to_string())
    );
}

#[test]
fn resolve_proxy_none_when_no_global() {
    let cfg = LlmConfig::default_config();
    assert_eq!(cfg.resolve_proxy("xiaomi").unwrap(), None);
}

#[test]
fn resolve_proxy_none_disables_global() {
    let mut cfg = LlmConfig::default_config();
    cfg.proxy.default = Some("http://127.0.0.1:7890".to_string());
    provider(&mut cfg, "xiaomi").proxy = Some("none".to_string());
    assert_eq!(cfg.resolve_proxy("xiaomi").unwrap(), None);
}

#[test]
fn resolve_proxy_empty_string_treated_as_none() {
    let mut cfg = LlmConfig::default_config();
    cfg.proxy.default = Some("http://127.0.0.1:7890".to_string());
    provider(&mut cfg, "xiaomi").proxy = Some(String::new());
    assert_eq!(cfg.resolve_proxy("xiaomi").unwrap(), None);
}

#[test]
fn resolve_proxy_provider_not_found_errors() {
    let cfg = LlmConfig::default_config();
    assert!(cfg.resolve_proxy("nonexistent").is_err());
}

#[test]
fn create_brain_client_routes_gemini_kind() {
    let mut cfg = LlmConfig::default_config();
    cfg.llm.default_provider = "gemini".to_string();
    cfg.llm.default_model = "gemini-2.5-flash".to_string();
    route(&mut cfg, "main", "gemini");
    cfg.llm.brain_models.retain(|x| x.name != "main");
    provider(&mut cfg, "gemini").api_key = Some("fake-key".to_string());

    let plan = cfg.create_brain_client("main", None).unwrap();
    assert_eq!(plan.model, "gemini-2.5-flash");
    assert_eq!(plan.kind, ProviderKind::Gemini);
}

#[test]
fn create_brain_client_routes_openai_by_default() {
    let mut cfg = LlmConfig::default_config();
    provider(&mut cfg, "xiaomi").api_key = Some("fake-key".to_string());
    let plan = cfg.create_brain_client("main", None).unwrap();
    assert_eq!(plan.model, "mimo-7b");
    assert_eq!(plan.kind, ProviderKind::OpenAi);
}

#[test]
fn create_brain_client_injects_proxy_into_gemini() {
    let mut cfg = LlmConfig::default_config();
    cfg.proxy.default = Some("http://127.0.0.1:7890".to_string());
    cfg.llm.default_provider = "gemini".to_string();
    route(&mut cfg, "main", "gemini");
    provider(&mut cfg, "gemini").api_key = Some("fake-key".to_string());
    let plan = cfg.create_brain_client("main", None);
    assert!(plan.is_ok());
    assert_eq!(plan.unwrap().proxy_url.as_deref(), Some("http://127.0.0.1:7890"));
}

#[test]
fn create_brain_client_rejects_invalid_gemini_proxy() {
    let mut cfg = LlmConfig::default_config();
    cfg.proxy.default = Some("not-a-url".to_string());
    cfg.llm.default_provider = "gemini".to_string();
    route(&mut cfg, "main", "gemini");
    provider(&mut cfg, "gemini").api_key = Some("fake-key".to_string());
    assert!(cfg.create_brain_client("main", None).is_err());
}

#[test]
fn proxies_matter_for_gemini_only() {
    let mut cfg = LlmConfig::default_config();
    provider(&mut cfg, "xiaomi").api_key = Some("k".to_string());
    let refused = || Err(LlmError::Config("no".to_string()));
    assert!(cfg.plan_brain_client("main", None, refused()).is_ok());
    route(&mut cfg, "main", "gemini");
    provider(&mut cfg, "gemini").api_key = Some("k".to_string());
    assert_eq!(
        cfg.plan_brain_client("main", None, refused()),
        Err(LlmError::Config("no".to_string()))
    );
}

#[test]
fn the_file_is_below_the_home_directory() {
    assert_eq!(
        LlmConfig::default_config_path(Some("/home/u"), Some("/x")),
        "/home/u/.ai-brain/config.toml"
    );
    assert_eq!(
        LlmConfig::default_config_path(None, Some("/x")),
        "/x/.ai-brain/config.toml"
    );
    assert_eq!(LlmConfig::default_config_path(None, None), "/tmp/.ai-brain/config.toml");
}

fn asks(messages: Vec<ChatMessage>) -> ChatRequest {
    ChatRequest {
        model: None,
        messages,
        max_tokens: None,
        temperature: None,
        tools: None,
        tool_choice: None,
    }
}

#[test]
fn the_stand_in_gives_back_what_was_said_last() {
    let echo = EchoLlmProvider::new("echo");
    assert_eq!(echo.model(), "echo");
    let request = asks(vec![
        ChatMessage::user("早"),
        ChatMessage::user("晚"),
        ChatMessage::assistant("好"),
    ]);
    let reply = echo.complete(&request);
    assert_eq!(
        reply.text(),
        "[回声模式] 收到你的消息: 晚\n\n提示: 配置 ZHIPU_API_KEY 环境变量以启用真实 AI 响应。"
    );
    assert_eq!(reply.finish_reason, Some(FinishReason::EndTurn));
    assert_eq!(
        echo.stream_complete(&request),
        vec![
            StreamEvent::TextDelta { text: "[回声模式] 晚".to_string() },
            StreamEvent::Done {
                finish_reason: Some(FinishReason::EndTurn),
                usage: Some(TokenUsage::default()),
            },
        ]
    );
    assert_eq!(echo.complete(&asks(vec![])).text(), "（回声模式：没有检测到用户输入）");
}
