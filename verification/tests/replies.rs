use ai_brain::llm::types::FinishReason;
use ai_brain::memory::concentration::{extract_json_str, parse_json_response, ConcentrationReport};
use ai_brain::memory::guardian;
use ai_brain::memory::keywords::extract_keywords;
use ai_brain::memory::memory_iteration::{resolve_action, IterationAction, MemoryRelation};
use ai_brain::memory::pending_analysis::PendingAnalysis;
use ai_brain::memory::replies::{choose_json, extract_json};

#[test]
fn finish_reason_from_api_str() {
    assert_eq!(FinishReason::from_api_str("stop"), FinishReason::EndTurn);
    assert_eq!(FinishReason::from_api_str("tool_calls"), FinishReason::ToolUse);
    assert_eq!(FinishReason::from_api_str("length"), FinishReason::MaxTokens);
    assert_eq!(FinishReason::from_api_str("unknown"), FinishReason::EndTurn);
}

#[test]
fn analyzer_extract_json_from_markdown() {
    let input = "```\n{\"key\": \"value\"}\n```";
    assert_eq!(extract_json(input), "{\"key\": \"value\"}");
}

#[test]
fn analyzer_extract_json_from_raw() {
    let input = "some text {\"a\": 1} more text";
    assert_eq!(extract_json(input), "{\"a\": 1}");
}

#[test]
fn extract_json_from_json_block() {
    let input = "```json\n{\"x\": [1, 2]}\n```";
    assert_eq!(extract_json(input), "{\"x\": [1, 2]}");
}

#[test]
fn concentration_extract_json_from_raw() {
    let json = r#"{"triggers":[],"narrative":"test"}"#;
    assert_eq!(extract_json_str(json), json);
}

#[test]
fn concentration_extract_json_from_markdown() {
    let md = "Here is the result:\n```json\n{\"triggers\":[]}\n```\nDone";
    assert_eq!(extract_json_str(md), "{\"triggers\":[]}");
}

#[test]
fn extract_json_from_code_block() {
    let md = "```\n{\"key\": \"value\"}\n```";
    assert_eq!(extract_json_str(md), "{\"key\": \"value\"}");
}

#[test]
fn parse_json_response_with_markdown() {
    let response =
        "```json\n{\"profile\":\"test\",\"requirements\":[],\"pitfalls\":[],\"rules\":[]}\n```";
    let result = parse_json_response(response).unwrap();
    assert_eq!(result.get("profile").unwrap().as_str().unwrap(), "test");
}

#[test]
fn concentration_report_default() {
    let report = ConcentrationReport {
        step1_tasks: 0,
        step2_types: 0,
        step3_triggers: 0,
        step3_narrative_chars: 0,
        step4_profile_updated: false,
        errors: Vec::new(),
    };
    assert!(report.errors.is_empty());
}

#[test]
fn extract_json_from_array() {
    let result = guardian::extract_json("some text [{\"a\":1}] more");
    assert!(result.starts_with('['));
}

#[test]
fn extract_json_from_object() {
    let result = guardian::extract_json("prefix {\"a\":1} suffix");
    assert!(result.starts_with('{'));
}

#[test]
fn extract_keywords_basic() {
    let kws = extract_keywords("用户查询清明节假期安排", 5);
    assert!(!kws.is_empty());
}

#[test]
fn resolve_override_marks_superseded() {
    assert_eq!(resolve_action(&MemoryRelation::Override), IterationAction::MarkSuperseded);
}

#[test]
fn resolve_complement_keeps_both() {
    assert_eq!(resolve_action(&MemoryRelation::Complement), IterationAction::KeepBoth);
}

#[test]
fn resolve_refine_marks_superseded() {
    assert_eq!(resolve_action(&MemoryRelation::Refine), IterationAction::MarkSuperseded);
}

#[test]
fn resolve_unrelated_skips() {
    assert_eq!(resolve_action(&MemoryRelation::Unrelated), IterationAction::Skip);
}

#[test]
fn format_for_injection_includes_conversations() {
    let pending = PendingAnalysis {
        conversations: vec!["对话1".to_string(), "对话2".to_string()],
        session_id: "sess-abc".to_string(),
        saved_at: "2026-05-08T00:00:00Z".to_string(),
    };
    let text = pending.format_for_injection();
    assert!(text.contains("对话1"));
    assert!(text.contains("对话2"));
    assert!(text.contains("sess-abc"));
}

#[test]
fn format_truncates_long_conversation() {
    let long_conv: String = "x".repeat(600);
    let pending = PendingAnalysis {
        conversations: vec![long_conv],
        session_id: "sess-test".to_string(),
        saved_at: "2026-05-08".to_string(),
    };
    let text = pending.format_for_injection();
    assert!(text.contains("..."));
    for line in text.lines() {
        if line.starts_with("1.") {
            assert!(line.chars().count() < 520);
        }
    }
}

#[test]
fn lists_in_lists_are_taken_whole() {
    let nested = "[{\"keywords\":[\"a\"]},{\"b\":1}]";
    assert_eq!(guardian::extract_json(nested), nested);
    assert_eq!(guardian::extract_json(&format!("结果 {nested} 完]")), nested);
    assert_eq!(guardian::extract_json("some text [{\"a\":1}] more"), "[{\"a\":1}]");
    assert_eq!(guardian::extract_json("prefix {\"a\":1} suffix }"), "{\"a\":1}");
    assert_eq!(guardian::extract_json("[1, \"]\", 2"), "[1, \"]\", 2");
    assert_eq!(guardian::extract_json("  nothing "), "nothing");
}

#[test]
fn the_first_bracket_of_either_kind_counts() {
    let list = "[{\"id\":\"a\"},{\"id\":\"b\"}]";
    assert_eq!(extract_json(&format!("如下 {list} 完")), list);
    assert_eq!(extract_json("{\"x\":[1]} [2]"), "{\"x\":[1]}");
    assert_eq!(extract_json("[1,{\"x\":2}]"), "[1,{\"x\":2}]");
}

#[test]
fn brackets_that_are_no_json_are_passed_over() {
    assert_eq!(extract_json("[a] {}"), "{}");
    assert_eq!(extract_json("[注] 结果 {\"x\":1} 完"), "{\"x\":1}");
    assert_eq!(extract_json("{见下} [1,2]"), "[1,2]");
    assert_eq!(extract_json("[{}]"), "[{}]");
    assert_eq!(extract_json("[a] {b}"), "{b}");
    assert_eq!(extract_json("[a]"), "[a]");
    assert_eq!(extract_json("{\"x\": [1"), "{\"x\": [1");
    for (object, list, chosen) in [
        (true, true, "[a]"),
        (true, false, "{b}"),
        (false, true, "[a]"),
        (false, false, "{b}"),
    ] {
        assert_eq!(choose_json("[a] {b}", object, list), chosen);
    }
    assert_eq!(choose_json("{b} [a]", true, true), "{b}");
    assert_eq!(choose_json("{b} [a]", false, true), "[a]");
}
