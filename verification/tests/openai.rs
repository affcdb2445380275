use ai_brain::json::Json;
use ai_brain::llm::openai_compat::{
    block_of_call, blocks_of_said, extract_thinking_and_text, split_said, ApiChatResponse,
    ApiChoice, ApiFunction, ApiMessage, ApiToolCall, ApiUsage, OpenAiCompatClient,
};
use ai_brain::llm::provider::{ChatMessage, ChatRequest};
use ai_brain::llm::types::{ContentBlock, FinishReason, ToolChoice, ToolDefinition};

fn make_client() -> OpenAiCompatClient {
    OpenAiCompatClient::new(
        "https://open.bigmodel.cn/api/paas/v4".to_string(),
        "test-key".to_string(),
        "glm-4.7".to_string(),
        4096,
        "0.7".to_string(),
    )
}

fn json(text: &str) -> Json {
    Json::parse(text).unwrap()
}

fn text(value: &Json, key: &str) -> String {
    value.str_at(key).unwrap()
}

fn says(content: Option<Json>) -> ApiMessage {
    ApiMessage {
        role: "assistant".to_string(),
        content,
        reasoning_content: None,
        tool_calls: None,
    }
}

fn reply(message: ApiMessage, reason: &str, model: &str) -> ApiChatResponse {
    ApiChatResponse {
        choices: vec![ApiChoice {
            message: Some(message),
            finish_reason: Some(reason.to_string()),
        }],
        model: Some(model.to_string()),
        usage: None,
    }
}

#[test]
fn client_model() {
    let client = make_client();
    assert_eq!(client.model(), "glm-4.7");
}

#[test]
fn chat_url_construction() {
    let client = make_client();
    assert_eq!(
        client.chat_url(),
        "https://open.bigmodel.cn/api/paas/v4/chat/completions"
    );
}

#[test]
fn chat_url_no_trailing_slash() {
    let client = OpenAiCompatClient::new(
        "https://api.example.com/v1/".to_string(),
        "key".to_string(),
        "test".to_string(),
        1024,
        "0.5".to_string(),
    );
    assert_eq!(client.chat_url(), "https://api.example.com/v1/chat/completions");
}

#[test]
fn message_to_api_plain_text() {
    let msg = ChatMessage::user("hello");
    let api_msgs = OpenAiCompatClient::message_to_api(&msg);
    assert_eq!(api_msgs.len(), 1);
    assert_eq!(text(&api_msgs[0], "role"), "user");
    assert_eq!(text(&api_msgs[0], "content"), "hello");
}

#[test]
fn message_to_api_tool_use() {
    let msg = ChatMessage::assistant_blocks(vec![
        ContentBlock::text("Let me read that file"),
        ContentBlock::ToolUse {
            id: "call_001".to_string(),
            name: "read_file".to_string(),
            input: json(r#"{"path": "/tmp/test.rs"}"#),
        },
    ]);
    let api_msgs = OpenAiCompatClient::message_to_api(&msg);
    assert_eq!(api_msgs.len(), 1);
    assert_eq!(text(&api_msgs[0], "role"), "assistant");
    assert!(api_msgs[0].get("tool_calls").is_some());
    let call = &api_msgs[0].array_at("tool_calls").unwrap()[0];
    assert_eq!(
        text(call.get("function").unwrap(), "arguments"),
        r#"{"path":"/tmp/test.rs"}"#
    );
}

#[test]
fn message_to_api_tool_result() {
    let msg = ChatMessage::tool_result("call_001", "file contents", false);
    let api_msgs = OpenAiCompatClient::message_to_api(&msg);
    assert_eq!(api_msgs.len(), 1);
    assert_eq!(text(&api_msgs[0], "role"), "tool");
    assert_eq!(text(&api_msgs[0], "tool_call_id"), "call_001");
}

#[test]
fn parse_api_response_text() {
    let mut api_resp = reply(says(Some(Json::Str("Hello!".to_string()))), "stop", "glm-4.7");
    api_resp.usage = Some(ApiUsage {
        prompt_tokens: Some(10),
        completion_tokens: Some(8),
        total_tokens: Some(18),
    });
    let resp = OpenAiCompatClient::parse_response(api_resp, "fallback".to_string());
    assert_eq!(resp.text(), "Hello!");
    assert_eq!(resp.model, "glm-4.7");
    assert!(!resp.has_tool_calls());
    assert_eq!(resp.finish_reason, Some(FinishReason::EndTurn));
    assert_eq!(resp.usage.total_tokens, 18);
}

#[test]
fn parse_api_response_tool_calls() {
    let mut message = says(Some(Json::Null));
    message.tool_calls = Some(vec![ApiToolCall {
        id: "call_abc".to_string(),
        kind: "function".to_string(),
        function: ApiFunction {
            name: "read_file".to_string(),
            arguments: "{\"path\":\"/tmp/test.rs\"}".to_string(),
        },
    }]);
    let mut api_resp = reply(message, "tool_calls", "glm-5.1");
    api_resp.usage = Some(ApiUsage {
        prompt_tokens: Some(50),
        completion_tokens: Some(20),
        total_tokens: Some(70),
    });
    let resp = OpenAiCompatClient::parse_response(api_resp, "fallback".to_string());
    assert!(resp.has_tool_calls());
    assert_eq!(resp.finish_reason, Some(FinishReason::ToolUse));
    assert!(matches!(
        &resp.content[0],
        ContentBlock::ToolUse { input, .. } if text(input, "path") == "/tmp/test.rs"
    ));
}

#[test]
fn parse_empty_choices() {
    let api_resp = ApiChatResponse {
        choices: vec![],
        model: Some("test".to_string()),
        usage: None,
    };
    let resp = OpenAiCompatClient::parse_response(api_resp, "test".to_string());
    assert_eq!(resp.text(), "");
}

#[test]
fn thinking_extraction_minimax_format() {
    let input = "<thinking>Let me analyze this...</thinking>\nThe answer is 42.";
    let (thinking, text) = extract_thinking_and_text(input);
    assert_eq!(thinking.as_deref(), Some("Let me analyze this..."));
    assert_eq!(text, "The answer is 42.");
}

#[test]
fn thinking_extraction_deepseek_format() {
    let input = "<think >\nStep 1: ...</think >\nFinal answer here";
    let (thinking, text) = extract_thinking_and_text(input);
    assert!(thinking.is_some());
    assert_eq!(text, "Final answer here");
}

#[test]
fn thinking_extraction_no_tags() {
    let input = "Just a plain response without any thinking.";
    let (thinking, text) = extract_thinking_and_text(input);
    assert!(thinking.is_none());
    assert_eq!(text, "Just a plain response without any thinking.");
}

#[test]
fn thinking_extraction_multiple_blocks() {
    let input = "<thinking>Part 1</thinking> middle <thinking>Part 2</thinking> end";
    let (thinking, text) = extract_thinking_and_text(input);
    assert_eq!(thinking.as_deref(), Some("Part 1\nPart 2"));
    assert_eq!(text, "middle  end");
}

#[test]
fn thinking_extraction_unclosed_tag() {
    let input = "<thinking\nSome reasoning here";
    let (thinking, text) = extract_thinking_and_text(input);
    assert!(thinking.is_some());
    assert_eq!(thinking.as_deref(), Some("Some reasoning here"));
    assert_eq!(text, "");
}

#[test]
fn parse_api_message_with_thinking() {
    let api_resp = reply(
        says(Some(Json::Str(
            "<thinking>internal reasoning</thinking>The actual answer".to_string(),
        ))),
        "stop",
        "test",
    );
    let resp = OpenAiCompatClient::parse_response(api_resp, "fallback".to_string());
    assert_eq!(resp.text(), "The actual answer");
    assert!(resp.content.iter().any(|b| b.is_thinking()));
}

#[test]
fn parse_api_message_with_reasoning_content_field() {
    let api_resp = reply(
        says(Some(json(
            r#"[{"reasoning_content": "step by step"}, {"text": "The answer"}]"#,
        ))),
        "stop",
        "test",
    );
    let resp = OpenAiCompatClient::parse_response(api_resp, "fallback".to_string());
    assert_eq!(resp.text(), "The answer");
    assert!(resp.content.iter().any(|b| b.is_thinking()));
}

#[test]
fn an_empty_message_is_an_empty_text() {
    let blocks = OpenAiCompatClient::parse_api_message(&says(None));
    assert_eq!(blocks, vec![ContentBlock::text("")]);
}

#[test]
fn arguments_that_are_no_json_are_null() {
    let call = ApiToolCall {
        id: "c".to_string(),
        kind: "function".to_string(),
        function: ApiFunction { name: "f".to_string(), arguments: "{".to_string() },
    };
    let block = block_of_call(&call, Json::parse("{"));
    assert_eq!(
        block,
        ContentBlock::ToolUse { id: "c".to_string(), name: "f".to_string(), input: Json::Null }
    );
}

#[test]
fn what_is_left_of_a_text_is_split() {
    assert_eq!(
        split_said(vec!["a".to_string()], " b "),
        (Some("a".to_string()), "b".to_string())
    );
    assert_eq!(
        split_said(vec![], "x <think> y"),
        (Some("y".to_string()), "x".to_string())
    );
    assert_eq!(split_said(vec![], "a <think></think b"), (None, "a <think></think b".to_string()));
    assert_eq!(
        blocks_of_said(Some("t".to_string()), ""),
        vec![ContentBlock::thinking("t")]
    );
}

#[test]
fn requests_carry_the_settings_of_the_client() {
    let request = ChatRequest {
        model: None,
        messages: vec![ChatMessage::user("hi")],
        max_tokens: None,
        temperature: Some("0.2".to_string()),
        tools: Some(vec![ToolDefinition {
            name: "bash".to_string(),
            description: "Run a bash command".to_string(),
            input_schema: json(r#"{"type":"object"}"#),
        }]),
        tool_choice: Some(ToolChoice::Tool { name: "bash".to_string() }),
    };
    let api = make_client().to_api_request(&request);
    assert_eq!(api.model, "glm-4.7");
    assert_eq!(api.max_tokens, Some(4096));
    assert_eq!(api.temperature.as_deref(), Some("0.2"));
    assert_eq!(api.stream, Some(false));
    let body = make_client().to_stream_api_body(&request);
    assert_eq!(body.get("stream").unwrap().as_bool(), Some(true));
    assert_eq!(body.u64_at("max_tokens"), Some(4096));
    let tool = &body.array_at("tools").unwrap()[0];
    assert_eq!(text(tool.get("function").unwrap(), "name"), "bash");
    let choice = body.get("tool_choice").unwrap();
    assert_eq!(text(choice.get("function").unwrap(), "name"), "bash");
    assert_eq!(make_client().authorization(), "Bearer test-key");
}

#[test]
fn thoughts_of_the_model_are_sent_back() {
    let msg = ChatMessage::assistant_blocks(vec![
        ContentBlock::thinking("first"),
        ContentBlock::thinking("second"),
        ContentBlock::text("said"),
    ]);
    let api = OpenAiCompatClient::message_to_api(&msg);
    assert_eq!(text(&api[0], "reasoning_content"), "first");
    assert_eq!(text(&api[0], "content"), "said");
}

#[test]
fn thoughts_without_an_end_are_kept_whole() {
    let cases = [
        ("<thinking>Some reasoning", Some("Some reasoning"), ""),
        ("<think>全是中文", Some("全是中文"), ""),
        ("answer <think lang=\"en\"> why", Some("why"), "answer"),
        ("<thinking 还在想", Some("还在想"), ""),
        ("said <think>", None, "said"),
        ("<think\na>b", Some("a>b"), ""),
        ("said <thinking\nif x > 1\nthen", Some("if x > 1\nthen"), "said"),
        ("<think lang=\"en\">\na>b", Some("a>b"), ""),
    ];
    for (input, thinking, said) in cases {
        let (t, text) = extract_thinking_and_text(input);
        assert_eq!(t.as_deref(), thinking);
        assert_eq!(text, said);
    }
}
