use ai_brain::json::Json;
use ai_brain::llm::provider::MessageRole;
use ai_brain::llm::types::ContentBlock;
use ai_brain::main_brain::compact::{
    apply_pending, body, compaction_request, compressed_turn, find_slide_out_turn,
    last_turn_tool_chars, split_turn_blocks, turn_prompt, CompactionConfig,
};
use ai_brain::main_brain::conversation::{ConversationHistory, ConversationMessage, SpeakerRole};
use ai_brain::memory::types::{BrainState, UserProfile};
use std::collections::{HashMap, HashSet};

const NOW: i64 = 1_700_000_000_000;

fn user(text: &str) -> ConversationMessage {
    ConversationMessage::user(text, NOW)
}

fn tool(text: &str) -> ConversationMessage {
    ConversationMessage::tool(text, NOW)
}

fn assistant(text: &str) -> ConversationMessage {
    ConversationMessage::assistant(text, NOW)
}

fn json(text: &str) -> Json {
    Json::parse(text).unwrap()
}

fn empty_profile() -> UserProfile {
    UserProfile {
        explicit_preferences: vec![],
        implicit_preferences: vec![],
        taboos: vec![],
        habits: vec![],
    }
}

#[test]
fn split_turn_blocks_basic() {
    let messages = vec![
        user("问题1"),
        tool("工具结果1-1"),
        assistant("回答1"),
        user("问题2"),
        assistant("回答2"),
    ];
    let blocks = split_turn_blocks(&messages);
    assert_eq!(blocks.len(), 2);
    assert_eq!(blocks[0].start, 0);
    assert_eq!(blocks[0].end, 3);
    assert_eq!(blocks[0].tool_indices, vec![1]);
    assert_eq!(blocks[1].start, 3);
    assert_eq!(blocks[1].end, 5);
    assert!(blocks[1].tool_indices.is_empty());
}

#[test]
fn find_slide_out_turn_returns_none_when_all_preserved() {
    let messages = vec![user("q1"), tool("t1"), assistant("a1"), user("q2"), assistant("a2")];
    let config = CompactionConfig { preserve_recent_turns: 4, ..CompactionConfig::default() };
    let compressed = HashSet::new();
    assert_eq!(find_slide_out_turn(&messages, &compressed, &config), None);
}

#[test]
fn find_slide_out_turn_finds_uncompressed() {
    let mut messages = Vec::new();
    for i in 0..6 {
        messages.push(user(&format!("q{i}")));
        messages.push(tool(&format!("t{i}")));
        messages.push(assistant(&format!("a{i}")));
    }
    let config = CompactionConfig { preserve_recent_turns: 4, ..CompactionConfig::default() };
    let mut compressed = HashSet::new();
    let result = find_slide_out_turn(&messages, &compressed, &config);
    assert!(result.is_some());
    let (start, end) = result.unwrap();
    assert_eq!(start, 0);
    assert_eq!(end, 3);
    compressed.insert(1);
    assert_eq!(find_slide_out_turn(&messages, &compressed, &config), Some((3, 6)));
}

#[test]
fn apply_pending_replaces_tool_messages() {
    let mut messages = vec![
        user("q1"),
        tool(&"很长的工具结果内容，这里有很多字符需要被压缩掉".repeat(10)),
        assistant("a1"),
    ];
    let compressed = "[工具调用结果已压缩] 结论：xxx".to_string();
    let mut pending = HashMap::new();
    pending.insert(1, compressed);

    let result = apply_pending(&mut messages, &pending);
    assert_eq!(result.compacted_groups, 1);
    assert!(result.chars_saved > 0);
    assert!(body(&messages[1].content).starts_with("[工具调用结果已压缩]"));
}

#[test]
fn apply_pending_skips_non_tool_messages() {
    let mut messages = vec![user("q1"), assistant("a1")];
    let compressed = "压缩内容".to_string();
    let mut pending = HashMap::new();
    pending.insert(1, compressed);

    let result = apply_pending(&mut messages, &pending);
    assert_eq!(result.compacted_groups, 0);
    assert_eq!(result.chars_saved, 0);
    assert_eq!(messages, vec![user("q1"), assistant("a1")]);
}

#[test]
fn last_turn_tool_chars_counts_correctly() {
    let messages = vec![
        user("q1"),
        tool("tool1"),
        assistant("a1"),
        user("q2"),
        tool("tool2"),
        tool("tool3"),
    ];
    let chars = last_turn_tool_chars(&messages);
    assert_eq!(chars, 10);
}

#[test]
fn turns_are_shortened_by_the_model() {
    let turn = vec![user("问"), tool("甲"), tool("乙"), assistant("答")];
    let prompt = turn_prompt(&turn).unwrap();
    assert!(prompt.contains("甲\n---\n乙"));
    assert_eq!(turn_prompt(&[user("问"), assistant("答")]), None);
    let request = compaction_request(&prompt);
    assert_eq!(request.max_tokens, Some(2048));
    assert_eq!(request.temperature.as_deref(), Some("0.3"));
    let texts = compressed_turn(&turn, 7, "短");
    assert_eq!(texts.len(), 2);
    assert_eq!(texts.get(&8).map(String::as_str), Some("短"));
    assert!(compressed_turn(&turn, 7, "").is_empty());
}

#[test]
fn push_and_count() {
    let mut history = ConversationHistory::new(100_000);
    assert!(history.len() == 0);

    history.push_user("你好", NOW);
    history.push_assistant("你好！有什么可以帮你的？", NOW);
    assert_eq!(history.len(), 2);
}

#[test]
fn estimate_tokens() {
    let mut history = ConversationHistory::new(100_000);
    history.push_user("Hello World", NOW);
    let tokens = history.estimate_tokens();
    assert!(tokens > 0);
    assert!(tokens < 100);
    assert_eq!(tokens, 8);
}

#[test]
fn context_usage() {
    let mut history = ConversationHistory::new(100);
    history.push_user(&"x".repeat(200), NOW);
    assert!(history.context_tokens() as f64 / 100.0 > 0.9);
    history.set_tracked_tokens(7);
    assert_eq!(history.context_tokens(), 7);
}

#[test]
fn clear_and_rebuild() {
    let mut history = ConversationHistory::new(100_000);
    for i in 0..20 {
        history.push_user(&format!("消息 {i}"), NOW);
    }
    assert_eq!(history.len(), 20);

    let state = BrainState {
        fact_summary: "测试总结".to_string(),
        user_profile: empty_profile(),
        active_pitfalls: Vec::new(),
        evolution_rules: Vec::new(),
        index_entries: Vec::new(),
        snapshot_at: NOW,
    };
    let truncated = history.clear_and_rebuild(&state, 3, NOW);
    assert!(truncated > 0);
    assert_eq!(history.len(), 4);
}

#[test]
fn to_chat_messages_role_mapping() {
    let mut history = ConversationHistory::new(100_000);
    history.push_user("用户消息", NOW);
    history.push_assistant("助手回复", NOW);

    let chat = history.to_chat_messages();
    assert_eq!(chat.len(), 2);
    assert_eq!(chat[0].role, MessageRole::User);
    assert_eq!(chat[1].role, MessageRole::Assistant);
}

#[test]
fn to_chat_messages_preserves_tool_use() {
    let mut history = ConversationHistory::new(100_000);
    history.push_user("搜索 firecrawl", NOW);
    history.push_assistant_blocks(
        vec![
            ContentBlock::text("我来搜索"),
            ContentBlock::ToolUse {
                id: "toolu_01".to_string(),
                name: "WebFetch".to_string(),
                input: json(r#"{"url": "https://github.com/firecrawl"}"#),
            },
        ],
        NOW,
    );
    history.push_tool_result("toolu_01", "firecrawl 数据", false, NOW);
    history.push_assistant("搜索结果如下...", NOW);

    let chat = history.to_chat_messages();
    assert_eq!(chat.len(), 4);
    assert_eq!(chat[0].role, MessageRole::User);
    assert_eq!(chat[1].role, MessageRole::Assistant);
    assert!(chat[1].content.iter().any(|b| b.is_tool_use()));
    assert_eq!(chat[2].role, MessageRole::User);
    assert!(chat[2].content.iter().any(|b| b.is_tool_result()));
    assert_eq!(chat[3].role, MessageRole::Assistant);
}

#[test]
fn push_tool_result_stores_structured_data() {
    let mut history = ConversationHistory::new(100_000);
    history.push_tool_result("toolu_42", "error: not found", true, NOW);

    let chat = history.to_chat_messages();
    assert_eq!(chat.len(), 1);
    assert_eq!(chat[0].role, MessageRole::User);
    assert!(chat[0].content.iter().any(|b| b.is_tool_result()));

    if let ContentBlock::ToolResult { tool_use_id, content, is_error } = &chat[0].content[0] {
        assert_eq!(tool_use_id, "toolu_42");
        assert_eq!(content, "error: not found");
        assert!(*is_error);
    } else {
        panic!("expected ToolResult block");
    }
}

#[test]
fn push_assistant_blocks_preserves_multiple_blocks() {
    let mut history = ConversationHistory::new(100_000);
    history.push_assistant_blocks(
        vec![
            ContentBlock::text("分析中..."),
            ContentBlock::ToolUse {
                id: "call_1".to_string(),
                name: "bash".to_string(),
                input: json(r#"{"command": "ls"}"#),
            },
            ContentBlock::text("继续执行"),
            ContentBlock::ToolUse {
                id: "call_2".to_string(),
                name: "read_file".to_string(),
                input: json(r#"{"path": "/tmp/test.txt"}"#),
            },
        ],
        NOW,
    );

    let chat = history.to_chat_messages();
    assert_eq!(chat.len(), 1);
    assert_eq!(chat[0].role, MessageRole::Assistant);
    assert_eq!(chat[0].content.len(), 4);
    let tool_uses: Vec<_> = chat[0].content.iter().filter(|b| b.is_tool_use()).collect();
    assert_eq!(tool_uses.len(), 2);
    let texts: Vec<_> = chat[0]
        .content
        .iter()
        .filter(|b| matches!(b, ContentBlock::Text { .. }))
        .collect();
    assert_eq!(texts.len(), 2);
}

#[test]
fn test_clear_and_rebuild_from_compressed() {
    let mut history = ConversationHistory::new(131072);
    for i in 0..10 {
        history.push(if i % 2 == 0 {
            user(&format!("消息 {}", i))
        } else {
            assistant(&format!("消息 {}", i))
        });
    }
    assert_eq!(history.messages().len(), 10);

    let summary = "## 用户目标\n测试重建\n\n## 最终结论\n测试完成";
    let recent_messages = vec![user("最近消息1"), assistant("最近回复1")];
    history.clear_and_rebuild_from_compressed(summary, &recent_messages, NOW);

    assert_eq!(history.messages().len(), 3);
    assert_eq!(history.messages()[0].role, SpeakerRole::System);
    assert!(history.messages()[0].text_content().contains("决策链路摘要"));
    assert!(history.messages()[0].text_content().contains("测试重建"));
    assert_eq!(history.messages()[1].text_content(), "最近消息1");
    assert_eq!(history.messages()[2].text_content(), "最近回复1");
    assert_eq!(history.tracked_prompt_tokens(), 0);
}

#[test]
fn rebuilding_tells_how_many_messages_went() {
    let state = || BrainState {
        fact_summary: "测试总结".to_string(),
        user_profile: empty_profile(),
        active_pitfalls: Vec::new(),
        evolution_rules: Vec::new(),
        index_entries: Vec::new(),
        snapshot_at: NOW,
    };
    let mut history = ConversationHistory::new(100_000);
    for i in 0..20 {
        history.push_user(&format!("消息 {i}"), NOW);
    }
    assert_eq!(history.clear_and_rebuild(&state(), 3, NOW), 17);
    let texts: Vec<String> = history.messages().iter().map(|m| m.text_content()).collect();
    assert!(texts[0].contains("测试总结"));
    assert_eq!(texts[1..], ["消息 17", "消息 18", "消息 19"]);
    assert_eq!(history.clear_and_rebuild(&state(), 9, NOW), 0);
    assert_eq!(history.len(), 5);
}
