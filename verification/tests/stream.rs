use ai_brain::json::Json;
use ai_brain::llm::stream::{
    events_of_chunk, extract_sse_frame, parse_single_sse_data, parse_sse_body, process_chunk,
    read_frame, SseStream, ToolCallAccumulator,
};
use ai_brain::llm::types::{FinishReason, StreamEvent};

#[test]
fn parse_simple_text_stream() {
    let body = r#"data: {"id":"chatcmpl-1","choices":[{"index":0,"delta":{"content":"Hello"},"finish_reason":null}]}

data: {"id":"chatcmpl-1","choices":[{"index":0,"delta":{"content":" world"},"finish_reason":null}]}

data: {"id":"chatcmpl-1","choices":[{"index":0,"delta":{},"finish_reason":"stop"}]}

data: [DONE]
"#;
    let events = parse_sse_body(body);
    assert!(events.len() >= 3);
    assert!(matches!(&events[0], StreamEvent::TextDelta { text } if text == "Hello"));
    assert!(matches!(&events[1], StreamEvent::TextDelta { text } if text == " world"));
    assert!(matches!(events.last(), Some(StreamEvent::Done { .. })));
}

#[test]
fn parse_tool_call_stream() {
    let body = r#"data: {"id":"chatcmpl-2","choices":[{"index":0,"delta":{"tool_calls":[{"index":0,"id":"call_001","function":{"name":"read_file","arguments":""}}]},"finish_reason":null}]}

data: {"id":"chatcmpl-2","choices":[{"index":0,"delta":{"tool_calls":[{"index":0,"function":{"arguments":"{\"path\":"}}]},"finish_reason":null}]}

data: {"id":"chatcmpl-2","choices":[{"index":0,"delta":{"tool_calls":[{"index":0,"function":{"arguments":"\"/tmp/test.rs\"}"}}]},"finish_reason":null}]}

data: {"id":"chatcmpl-2","choices":[{"index":0,"delta":{},"finish_reason":"tool_calls"}]}

data: [DONE]
"#;
    let events = parse_sse_body(body);
    let has_tool_start = events
        .iter()
        .any(|e| matches!(e, StreamEvent::ToolCallStart { .. }));
    let has_tool_delta = events
        .iter()
        .any(|e| matches!(e, StreamEvent::ToolCallDelta { .. }));
    let has_done = events.iter().any(|e| matches!(e, StreamEvent::Done { .. }));
    assert!(has_tool_start);
    assert!(has_tool_delta);
    assert!(has_done);
    assert_eq!(
        events[1],
        StreamEvent::ToolCallDelta {
            tool_use_id: "call_001".to_string(),
            delta: "{\"path\":\"/tmp/test.rs\"}".to_string(),
        }
    );
}

#[test]
fn parse_empty_stream() {
    let body = "data: [DONE]\n";
    let events = parse_sse_body(body);
    assert_eq!(events.len(), 1);
    assert!(matches!(
        &events[0],
        StreamEvent::Done { finish_reason: None, usage: None }
    ));
}

#[test]
fn skip_malformed_chunks() {
    let body = r#"data: {"id":"chatcmpl-3","choices":[{"index":0,"delta":{"content":"ok"},"finish_reason":null}]}

data: not-json

data: {"id":"chatcmpl-3","choices":[{"index":0,"delta":{},"finish_reason":"stop"}]}

data: [DONE]
"#;
    let events = parse_sse_body(body);
    assert!(events.len() >= 2);
}

#[test]
fn parse_with_usage() {
    let body = r#"data: {"id":"chatcmpl-4","choices":[{"index":0,"delta":{"content":"test"},"finish_reason":null}]}

data: {"id":"chatcmpl-4","choices":[{"index":0,"delta":{},"finish_reason":"stop"}],"usage":{"prompt_tokens":10,"completion_tokens":5,"total_tokens":15}}

data: [DONE]
"#;
    let events = parse_sse_body(body);
    let done_event = events
        .iter()
        .find(|e| matches!(e, StreamEvent::Done { .. }));
    assert!(done_event.is_some());
    if let Some(StreamEvent::Done { usage, .. }) = done_event {
        assert_eq!(usage.as_ref().unwrap().total_tokens, 15);
    }
}

fn text(s: &str) -> StreamEvent {
    StreamEvent::TextDelta { text: s.to_string() }
}

const TWO_FRAMES: &str = "data: {\"choices\":[{\"delta\":{\"content\":\"天\"}}]}\n\ndata: {\"choices\":[{\"delta\":{\"content\":\"气\"}}]}\n\ndata: {\"cho";

#[test]
fn events_do_not_depend_on_cuts() {
    let bytes = TWO_FRAMES.as_bytes();
    for cut in 0..=bytes.len() {
        let mut stream = SseStream::new();
        let mut events = stream.feed(&bytes[..cut]);
        events.extend(stream.feed(&bytes[cut..]));
        assert_eq!(events, vec![text("天"), text("气")]);
        assert_eq!(stream.buffer, b"data: {\"cho".to_vec());
        assert!(stream.finish().is_empty());
    }
}

#[test]
fn the_rest_is_read_at_the_end() {
    let mut stream = SseStream::new();
    assert!(stream.feed(b"data: {\"choices\":[{\"delta\":{\"content\":\"x\"}}]}\n").is_empty());
    assert_eq!(stream.finish(), vec![text("x")]);
}

#[test]
fn frames_are_taken_one_by_one() {
    let mut buffer = b": ping\ndata: a\ndata: b\n\nrest".to_vec();
    assert_eq!(extract_sse_frame(&mut buffer).as_deref(), Some("a\nb"));
    assert_eq!(buffer, b"rest".to_vec());
    assert_eq!(extract_sse_frame(&mut buffer), None);
    assert_eq!(buffer, b"rest".to_vec());
    let mut silent = b": ping\n\nrest".to_vec();
    assert_eq!(extract_sse_frame(&mut silent), None);
    assert_eq!(silent, b"rest".to_vec());
    let mut broken = b"data: \xff!\n\n".to_vec();
    assert_eq!(extract_sse_frame(&mut broken).as_deref(), Some("\u{fffd}!"));
    assert_eq!(read_frame("event: x\ndata:y"), None);
}

#[test]
fn single_payloads_are_read() {
    assert_eq!(
        parse_single_sse_data(" [DONE] "),
        Some(vec![StreamEvent::Done { finish_reason: None, usage: None }])
    );
    assert_eq!(parse_single_sse_data("{"), None);
    assert_eq!(parse_single_sse_data("{\"choices\":[]}"), None);
    let chunk = Json::parse(
        r#"{"choices":[{"delta":{"reasoning_content":"r","content":""},"finish_reason":"length"}]}"#,
    )
    .unwrap();
    assert_eq!(
        events_of_chunk(&chunk),
        Some(vec![
            StreamEvent::ThinkingDelta { content: "r".to_string() },
            StreamEvent::Done { finish_reason: Some(FinishReason::MaxTokens), usage: None },
        ])
    );
}

#[test]
fn fragments_of_a_call_are_joined_in_their_order() {
    let mut states: Vec<ToolCallAccumulator> = vec![];
    let mut events = vec![];
    let start = r#"{"choices":[{"delta":{"tool_calls":[{"index":0,"id":"c","function":{"name":"f"}}]}}]}"#;
    process_chunk(&Json::parse(start).unwrap(), &mut states, &mut events);
    for part in ["a", "b", "c"] {
        let chunk = format!(
            r#"{{"choices":[{{"delta":{{"tool_calls":[{{"index":0,"function":{{"arguments":"{part}"}}}}]}}}}]}}"#
        );
        process_chunk(&Json::parse(&chunk).unwrap(), &mut states, &mut events);
    }
    assert!(events.is_empty());
    let end = r#"{"choices":[{"delta":{},"finish_reason":"tool_calls"}]}"#;
    process_chunk(&Json::parse(end).unwrap(), &mut states, &mut events);
    assert!(states.is_empty());
    assert_eq!(
        events,
        [
            StreamEvent::ToolCallStart { id: "c".to_string(), name: "f".to_string() },
            StreamEvent::ToolCallDelta {
                tool_use_id: "c".to_string(),
                delta: "abc".to_string(),
            },
            StreamEvent::Done { finish_reason: Some(FinishReason::ToolUse), usage: None },
        ]
    );
}
