use ai_brain::json::Json;
use ai_brain::llm::gemini::{
    gemini_tool_call_id, hex_decode, hex_encode, thought_signature_from_tool_call_id, GeminiClient,
};
use ai_brain::llm::provider::{ChatMessage, ChatRequest};
use ai_brain::llm::types::{ContentBlock, FinishReason, ToolChoice, ToolDefinition};

fn make_client() -> GeminiClient {
    GeminiClient::try_new(
        "https://generativelanguage.googleapis.com/v1beta".to_string(),
        "test-key".to_string(),
        "gemini-2.5-flash".to_string(),
        4096,
        "0.7".to_string(),
        None,
    )
    .unwrap()
}

fn json(text: &str) -> Json {
    Json::parse(text).unwrap()
}

/// The value at a path of keys and positions.
fn at<'a>(value: &'a Json, path: &[&str]) -> &'a Json {
    let mut v = value;
    for step in path {
        v = match step.parse::<usize>() {
            Ok(i) => &v.as_array().unwrap()[i],
            Err(_) => v.get(step).unwrap(),
        };
    }
    v
}

fn text<'a>(value: &'a Json, path: &[&str]) -> &'a str {
    at(value, path).as_str().unwrap()
}

fn request(messages: Vec<ChatMessage>) -> ChatRequest {
    ChatRequest {
        model: None,
        messages,
        max_tokens: None,
        temperature: None,
        tools: None,
        tool_choice: None,
    }
}

#[test]
fn generate_url_construction() {
    let client = make_client();
    assert_eq!(
        client.generate_url(),
        "https://generativelanguage.googleapis.com/v1beta/models/gemini-2.5-flash:generateContent"
    );
}

#[test]
fn stream_url_construction() {
    let client = make_client();
    assert!(client
        .stream_url()
        .ends_with("models/gemini-2.5-flash:streamGenerateContent?alt=sse"));
}

#[test]
fn auth_headers_use_gemini_api_key() {
    let headers = make_client().build_headers();
    assert!(headers
        .iter()
        .any(|(name, value)| name == "x-goog-api-key" && value == "test-key"));
    assert!(headers
        .iter()
        .any(|(name, value)| name == "Content-Type" && value == "application/json"));
}

#[test]
fn try_new_rejects_invalid_proxy_without_panicking() {
    let result = GeminiClient::try_new(
        "https://generativelanguage.googleapis.com/v1beta".to_string(),
        "test-key".to_string(),
        "gemini-2.5-flash".to_string(),
        4096,
        "0.7".to_string(),
        Some("not-a-url".to_string()),
    );
    assert!(result.is_err());
}

#[test]
fn to_request_plain_text_user_message() {
    let client = make_client();
    let body = client.to_gemini_request(&request(vec![ChatMessage::user("你好")]));
    assert_eq!(text(&body, &["contents", "0", "role"]), "user");
    assert_eq!(text(&body, &["contents", "0", "parts", "0", "text"]), "你好");
    assert!(body.get("systemInstruction").is_none());
}

#[test]
fn to_request_merges_multiple_system_messages() {
    let client = make_client();
    let body = client.to_gemini_request(&request(vec![
        ChatMessage::system("你是助手"),
        ChatMessage::system("用中文回答"),
        ChatMessage::user("你好"),
    ]));
    let merged = text(&body, &["systemInstruction", "parts", "0", "text"]);
    assert!(merged.contains("你是助手"));
    assert!(merged.contains("用中文回答"));
    assert_eq!(merged, "你是助手\n\n用中文回答");
    assert_eq!(at(&body, &["contents"]).as_array().unwrap().len(), 1);
    assert_eq!(text(&body, &["contents", "0", "role"]), "user");
}

#[test]
fn to_request_generation_config_includes_params() {
    let client = make_client();
    let mut q = request(vec![ChatMessage::user("hi")]);
    q.max_tokens = Some(1024);
    q.temperature = Some("0.3".to_string());
    let body = client.to_gemini_request(&q);
    assert_eq!(
        at(&body, &["generationConfig", "maxOutputTokens"]).as_u64(),
        Some(1024)
    );
    let bits = at(&body, &["generationConfig", "temperature"])
        .as_double_bits()
        .unwrap();
    assert!((f64::from_bits(bits) - 0.3).abs() < 1e-9);
}

#[test]
fn to_request_assistant_tool_use_becomes_function_call() {
    let client = make_client();
    let body = client.to_gemini_request(&request(vec![
        ChatMessage::user("查天气"),
        ChatMessage::assistant_blocks(vec![
            ContentBlock::Text { text: "好的".to_string() },
            ContentBlock::ToolUse {
                id: "call_1".to_string(),
                name: "get_weather".to_string(),
                input: json(r#"{"city": "北京"}"#),
            },
        ]),
    ]));
    let message = at(&body, &["contents", "1"]);
    assert_eq!(text(message, &["role"]), "model");
    assert_eq!(text(message, &["parts", "0", "text"]), "好的");
    assert_eq!(text(message, &["parts", "1", "functionCall", "name"]), "get_weather");
    assert_eq!(text(message, &["parts", "1", "functionCall", "args", "city"]), "北京");
    assert!(at(message, &["parts", "1"]).get("thoughtSignature").is_none());
}

#[test]
fn to_request_tool_result_becomes_function_response() {
    let client = make_client();
    let body = client.to_gemini_request(&request(vec![
        ChatMessage::assistant_blocks(vec![ContentBlock::ToolUse {
            id: "call_1".to_string(),
            name: "get_weather".to_string(),
            input: json(r#"{"city": "北京"}"#),
        }]),
        ChatMessage::tool_result("call_1", "晴，25度", false),
    ]));
    let message = at(&body, &["contents", "1"]);
    assert_eq!(text(message, &["role"]), "user");
    assert_eq!(text(message, &["parts", "0", "functionResponse", "name"]), "get_weather");
    assert_eq!(
        text(message, &["parts", "0", "functionResponse", "response", "output"]),
        "晴，25度"
    );
}

#[test]
fn to_request_preserves_thought_signature_on_function_call() {
    let id = gemini_tool_call_id(1, Some("opaque-signature+/="));
    let body = make_client().to_gemini_request(&request(vec![ChatMessage::assistant_blocks(
        vec![ContentBlock::ToolUse {
            id,
            name: "get_weather".to_string(),
            input: json(r#"{"city": "北京"}"#),
        }],
    )]));
    assert_eq!(
        text(&body, &["contents", "0", "parts", "0", "thoughtSignature"]),
        "opaque-signature+/="
    );
}

#[test]
fn to_request_tools_declared_as_function_declarations() {
    let client = make_client();
    let mut q = request(vec![ChatMessage::user("hi")]);
    q.tools = Some(vec![ToolDefinition {
        name: "get_weather".to_string(),
        description: "查询天气".to_string(),
        input_schema: json(r#"{"type":"object","properties":{"city":{"type":"string"}}}"#),
    }]);
    let body = client.to_gemini_request(&q);
    let declaration = at(&body, &["tools", "0", "functionDeclarations", "0"]);
    assert_eq!(text(declaration, &["name"]), "get_weather");
    assert_eq!(text(declaration, &["description"]), "查询天气");
    assert!(at(declaration, &["parametersJsonSchema"]).get("properties").is_some());
    assert!(declaration.get("parameters").is_none());
}

#[test]
fn to_request_preserves_full_json_schema_features() {
    let mut q = request(vec![ChatMessage::user("hi")]);
    q.tools = Some(vec![ToolDefinition {
        name: "config".to_string(),
        description: "set config".to_string(),
        input_schema: json(
            r#"{"type":"object","properties":{"value":{"type":["string","boolean","number"]}},"additionalProperties":false}"#,
        ),
    }]);
    let body = make_client().to_gemini_request(&q);
    let schema = at(
        &body,
        &["tools", "0", "functionDeclarations", "0", "parametersJsonSchema"],
    );
    assert_eq!(at(schema, &["additionalProperties"]).as_bool(), Some(false));
    assert_eq!(text(schema, &["properties", "value", "type", "0"]), "string");
}

#[test]
fn to_request_tool_choice_modes_are_mapped() {
    for (choice, expected) in [
        (ToolChoice::Auto, "AUTO"),
        (ToolChoice::NoTool, "NONE"),
        (ToolChoice::Tool { name: "get_weather".to_string() }, "ANY"),
    ] {
        let mut q = request(vec![ChatMessage::user("hi")]);
        q.tool_choice = Some(choice);
        let body = make_client().to_gemini_request(&q);
        assert_eq!(text(&body, &["toolConfig", "functionCallingConfig", "mode"]), expected);
    }
}

#[test]
fn named_tool_choice_restricts_allowed_function() {
    let mut q = request(vec![ChatMessage::user("hi")]);
    q.tool_choice = Some(ToolChoice::Tool { name: "get_weather".to_string() });
    let body = make_client().to_gemini_request(&q);
    assert_eq!(
        text(
            &body,
            &["toolConfig", "functionCallingConfig", "allowedFunctionNames", "0"]
        ),
        "get_weather"
    );
}

#[test]
fn parse_response_text_only() {
    let response = json(
        r#"{"candidates":[{"content":{"role":"model","parts":[{"text":"你好世界"}]},"finishReason":"STOP"}],
            "usageMetadata":{"promptTokenCount":10,"candidatesTokenCount":5,"totalTokenCount":15}}"#,
    );
    let parsed = GeminiClient::parse_gemini_response(&response, "gemini-2.5-flash".to_string());
    assert_eq!(parsed.text(), "你好世界");
    assert_eq!(parsed.usage.prompt_tokens, 10);
    assert_eq!(parsed.usage.completion_tokens, 5);
    assert_eq!(parsed.finish_reason, Some(FinishReason::EndTurn));
    assert_eq!(parsed.model, "gemini-2.5-flash");
}

#[test]
fn parse_response_thinking_part() {
    let response = json(
        r#"{"candidates":[{"content":{"parts":[{"text":"让我想想","thought":true},{"text":"答案是42"}]},"finishReason":"STOP"}]}"#,
    );
    let parsed = GeminiClient::parse_gemini_response(&response, "m".to_string());
    assert!(matches!(
        &parsed.content[0],
        ContentBlock::Thinking { content } if content == "让我想想"
    ));
    assert_eq!(parsed.text(), "答案是42");
}

#[test]
fn parse_response_function_call_generates_id() {
    let response = json(
        r#"{"candidates":[{"content":{"parts":[{"functionCall":{"name":"get_weather","args":{"city":"北京"}}}]},"finishReason":"STOP"}]}"#,
    );
    let parsed = GeminiClient::parse_gemini_response(&response, "m".to_string());
    assert!(matches!(
        &parsed.content[0],
        ContentBlock::ToolUse { id, name, input }
            if id == "call_1" && name == "get_weather" && text(input, &["city"]) == "北京"
    ));
    assert_eq!(parsed.finish_reason, Some(FinishReason::ToolUse));
}

#[test]
fn parse_response_function_call_encodes_thought_signature() {
    let response = json(
        r#"{"candidates":[{"content":{"parts":[{"functionCall":{"name":"get_weather","args":{"city":"北京"}},"thoughtSignature":"opaque-signature+/="}]},"finishReason":"STOP"}]}"#,
    );
    let parsed = GeminiClient::parse_gemini_response(&response, "m".to_string());
    let ContentBlock::ToolUse { id, .. } = &parsed.content[0] else {
        panic!("expected tool use");
    };
    assert_eq!(
        thought_signature_from_tool_call_id(id).as_deref(),
        Some("opaque-signature+/=")
    );
}

#[test]
fn parse_response_max_tokens_finish_reason() {
    let response = json(
        r#"{"candidates":[{"content":{"parts":[{"text":"截断"}]},"finishReason":"MAX_TOKENS"}]}"#,
    );
    let parsed = GeminiClient::parse_gemini_response(&response, "m".to_string());
    assert_eq!(parsed.finish_reason, Some(FinishReason::MaxTokens));
}

#[test]
fn parse_response_empty_candidates() {
    let response = json(r#"{"candidates": []}"#);
    let parsed = GeminiClient::parse_gemini_response(&response, "m".to_string());
    assert!(parsed.content.is_empty());
    assert!(parsed.finish_reason.is_none());
}

#[test]
fn signatures_survive_the_id_of_a_call() {
    for signature in ["", "a", "签名", "__gemini_thought_00", "\u{10ffff}"] {
        let id = gemini_tool_call_id(12, Some(signature));
        assert!(id.starts_with("call_12__gemini_thought_"));
        assert_eq!(thought_signature_from_tool_call_id(&id).as_deref(), Some(signature));
    }
    assert_eq!(gemini_tool_call_id(3, None), "call_3");
    assert_eq!(thought_signature_from_tool_call_id("call_3"), None);
}

#[test]
fn hexadecimal_is_written_and_read() {
    assert_eq!(hex_encode(&[0, 15, 171, 255]), "000fabff");
    assert_eq!(hex_decode("000FabFF"), Some(vec![0, 15, 171, 255]));
    assert_eq!(hex_decode("abc"), None);
    assert_eq!(hex_decode("zz"), None);
    assert_eq!(hex_decode("é"), None);
    assert_eq!(thought_signature_from_tool_call_id("x__gemini_thought_ff"), None);
}

#[test]
fn results_of_unknown_calls_are_left_out() {
    let body = make_client().to_gemini_request(&request(vec![ChatMessage::tool_result(
        "call_9", "?", false,
    )]));
    assert!(at(&body, &["contents"]).as_array().unwrap().is_empty());
}
