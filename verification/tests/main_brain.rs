use ai_brain::json::Json;
use ai_brain::llm::provider::{ChatMessage, ChatResponse, MessageRole};
use ai_brain::llm::types::{ContentBlock, FinishReason, TokenUsage};
use ai_brain::main_brain::brain::{MainBrain, MainBrainOutput};
use ai_brain::main_brain::conversation::SpeakerRole;
use ai_brain::main_brain::error::MainBrainError;
use ai_brain::main_brain::threshold_compression::{
    CompactionError, ThresholdCompactionConfig, ThresholdCompressor,
};
use ai_brain::main_brain::tool_loop::{
    check_context_health, limit_output, truncate_tool_output_for_log, CallEvent, ContextHealth,
    HookOutput, LoopStep, ModelReply, ToolLoop, Wanted,
};
use ai_brain::memory::types::{BrainState, UserProfile};

const NOW: i64 = 1_700_000_000_000;
const NOW_TEXT: &str = "2023-11-14T22:13:20+00:00";

fn answers(text: &str) -> ChatResponse {
    ChatResponse {
        content: vec![ContentBlock::text(text)],
        model: "stub".to_string(),
        usage: TokenUsage::default(),
        finish_reason: Some(FinishReason::EndTurn),
    }
}

fn calls(id: &str, name: &str, input: &str) -> ChatResponse {
    ChatResponse {
        content: vec![ContentBlock::ToolUse {
            id: id.to_string(),
            name: name.to_string(),
            input: Json::parse(input).unwrap(),
        }],
        model: "stub".to_string(),
        usage: TokenUsage::default(),
        finish_reason: Some(FinishReason::ToolUse),
    }
}

fn make_brain() -> MainBrain {
    MainBrain::new(131072, 32768, "0.7")
}

fn process(brain: &mut MainBrain, input: &str, reply: &str) -> MainBrainOutput {
    brain.accept_input(input, NOW);
    let messages = brain.build_messages("");
    let mut run = ToolLoop::new(messages, vec![], 32768, "0.7", false);
    assert!(matches!(run.begin(false), LoopStep::CallModel { .. }));
    let (step, _) = run.receive(ModelReply::Answer { response: answers(reply) }, NOW_TEXT);
    assert_eq!(step, LoopStep::Finish { context_overflow: false });
    let messages = std::mem::take(&mut run.messages);
    let result = run.into_result(false).unwrap();
    brain.record_success(&messages, result, input, 5, NOW, NOW_TEXT)
}

#[test]
fn process_input_returns_output() {
    let mut brain = make_brain();
    let output = process(&mut brain, "你好", "测试回复");
    assert_eq!(output.answer, "测试回复");
    assert!(!output.answer.is_empty());
}

#[test]
fn build_messages_includes_system_prompt() {
    let mut brain = make_brain();
    brain.history.push_user("测试", NOW);
    let messages = brain.build_messages("");
    assert!(messages.len() >= 2);
    assert_eq!(messages[0].role, MessageRole::System);
}

#[test]
fn process_input_writes_history() {
    let mut brain = make_brain();
    assert_eq!(brain.history_len(), 0);
    process(&mut brain, "你好", "测试回复");
    assert_eq!(brain.history_len(), 2);
}

#[test]
fn commit_streaming_result_writes_history() {
    let mut brain = make_brain();
    brain.history.push_user("hello", NOW);
    brain.accept_input("hello", NOW);
    brain.commit_streaming_result("测试回复", NOW);
    assert!(brain.history_len() >= 2);
    assert_eq!(brain.history()[2].text_content(), "测试回复");
}

#[test]
fn inject_memory_context_appears_in_system_prompt() {
    let mut brain = make_brain();
    brain.register_tools(vec![]);
    brain.inject_memory_context("以下是你的持久记忆：用户希望被称为测试大佬。");
    let messages = brain.build_messages("");
    assert_eq!(messages[0].role, MessageRole::System);
    let ContentBlock::Text { text } = &messages[0].content[0] else {
        panic!("Expected text block");
    };
    assert!(text.contains("测试大佬"));
}

#[test]
fn push_memory_context_creates_system_message() {
    let mut brain = make_brain();
    brain.history.push_user("你好", NOW);
    brain.push_memory_context("[相关记忆]\n- 用户希望被称为测试大佬", NOW);
    brain.history.push_user("你应该称呼我什么", NOW);

    assert_eq!(brain.history_len(), 3);
    let messages = brain.history();
    assert_eq!(messages[0].role, SpeakerRole::User);
    assert_eq!(messages[1].role, SpeakerRole::System);
    assert!(messages[1].text_content().contains("测试大佬"));
}

#[test]
fn failures_are_kept_in_the_conversation() {
    let mut brain = make_brain();
    brain.accept_input("你好", NOW);
    let messages = brain.build_messages("");
    brain.record_failure(&messages, &MainBrainError::LlmError("断线".to_string()), NOW);
    assert_eq!(brain.history_len(), 2);
    assert!(brain.history()[1].text_content().starts_with("[系统错误] "));
}

#[test]
fn tool_loop_returns_text_when_no_tool_calls() {
    let mut run = ToolLoop::new(vec![ChatMessage::user("测试")], vec![], 4096, "0.7", false);
    assert!(matches!(run.begin(false), LoopStep::CallModel { .. }));
    let (step, _) = run.receive(ModelReply::Answer { response: answers("最终回答") }, NOW_TEXT);
    assert_eq!(step, LoopStep::Finish { context_overflow: false });
    let result = run.into_result(false).unwrap();
    assert_eq!(result.response.text(), "最终回答");
    assert_eq!(result.llm_calls, 1);
}

fn with_call(name: &str, input: &str, has_hooks: bool) -> ToolLoop {
    let mut run = ToolLoop::new(vec![ChatMessage::user("测试")], vec![], 4096, "0.7", has_hooks);
    run.begin(false);
    let (step, _) =
        run.receive(ModelReply::Answer { response: calls("c1", name, input) }, NOW_TEXT);
    assert_eq!(step, LoopStep::RunTools);
    run
}

fn last_result(run: &ToolLoop) -> (String, bool) {
    match &run.messages.last().unwrap().content[0] {
        ContentBlock::ToolResult { tool_use_id, content, is_error } => {
            assert_eq!(tool_use_id, "c1");
            (content.clone(), *is_error)
        }
        other => panic!("no result: {other:?}"),
    }
}

#[test]
fn a_refused_call_is_answered_and_does_not_run() {
    let mut run = with_call("bash", r#"{"command":"rm"}"#, false);
    assert!(matches!(run.wanted(), Wanted::CheckGuard { .. }));
    run.on_event(CallEvent::Guarded { refusal: Some("危险".to_string()) }, NOW_TEXT);
    assert_eq!(run.wanted(), Wanted::AllSettled);
    assert_eq!(last_result(&run), ("安全拒绝: 危险".to_string(), true));
    assert_eq!(run.after_tools(), LoopStep::Again);
}

#[test]
fn a_call_that_passes_runs() {
    let mut run = with_call("bash", r#"{"command":"ls"}"#, false);
    run.on_event(CallEvent::Guarded { refusal: None }, NOW_TEXT);
    assert!(matches!(run.wanted(), Wanted::Execute { .. }));
    run.on_event(
        CallEvent::Executed { output: "文件".to_string(), is_error: false, duration_ms: 3 },
        NOW_TEXT,
    );
    assert_eq!(run.wanted(), Wanted::AllSettled);
    assert_eq!(last_result(&run), ("文件".to_string(), false));
}

#[test]
fn a_hook_can_deny_a_call() {
    let mut run = with_call("bash", r#"{"command":"ls"}"#, true);
    run.on_event(CallEvent::Guarded { refusal: None }, NOW_TEXT);
    assert!(matches!(run.wanted(), Wanted::RunPreHook { .. }));
    run.on_event(
        CallEvent::Hooked {
            outputs: vec![HookOutput { denies: true, reason: Some("不行".to_string()) }],
        },
        NOW_TEXT,
    );
    assert_eq!(run.wanted(), Wanted::AllSettled);
    let (text, is_error) = last_result(&run);
    assert!(text.contains("不行"));
    assert!(is_error);
}

#[test]
fn questions_go_to_the_user() {
    let mut run = with_call("AskUserQuestion", r#"{"question":"哪个?","options":["a","b"]}"#, false);
    run.on_event(CallEvent::Guarded { refusal: None }, NOW_TEXT);
    assert_eq!(
        run.wanted(),
        Wanted::AskUser {
            question: "哪个?".to_string(),
            options: Some(vec!["a".to_string(), "b".to_string()]),
            multi_select: false,
        }
    );
    run.on_event(CallEvent::Answered { answer: Some("a".to_string()) }, NOW_TEXT);
    assert_eq!(run.wanted(), Wanted::AllSettled);
    assert!(last_result(&run).0.contains('a'));
}

#[test]
fn a_cancelled_loop_fails_without_an_answer() {
    let mut run = ToolLoop::new(vec![ChatMessage::user("x")], vec![], 4096, "0.7", false);
    assert_eq!(
        run.begin(true),
        LoopStep::Fail { error: MainBrainError::LlmError("查询被用户取消".to_string()) }
    );
}

#[test]
fn long_outputs_are_cut() {
    assert_eq!(truncate_tool_output_for_log("abc", 3), "abc");
    assert_eq!(truncate_tool_output_for_log("abcd", 3), "abc... [共4字, 截断显示]");
    assert_eq!(limit_output("短"), "短");
    assert_eq!(check_context_health(&[ChatMessage::user("x")]), ContextHealth::Healthy);
}

#[test]
fn compaction_has_its_defaults_and_words() {
    let config = ThresholdCompactionConfig::default();
    assert_eq!(ThresholdCompressor::new(config).config.preserve_recent_turns, 4);
    assert_eq!(f64::from_bits(config.decision_chain_weight), 0.8);
    assert_eq!(CompactionError::LlmError("x".to_string()).message(), "LLM 调用失败: x");
    assert_eq!(CompactionError::InsufficientMessages.message(), "消息分割失败: 消息数不足");
    assert_eq!(CompactionError::Timeout(30).message(), "压缩超时（超过 30ms）");
}

#[test]
fn counts_that_do_not_fit_are_refused() {
    let mut brain = make_brain();
    assert!(brain.can_accept("你好", NOW));
    brain.chars_saved_by_compaction = usize::MAX;
    assert!(!brain.can_accept("你好", NOW));

    let mut run = ToolLoop::new(vec![ChatMessage::user("测试")], vec![], 4096, "0.7", false);
    run.begin(false);
    run.total_prompt_tokens = u64::MAX;
    let reply = ModelReply::Answer { response: answers("答案在这里") };
    assert!(run.try_receive(reply, NOW_TEXT).is_none());
    assert!(run.last_response.is_none());
    run.total_prompt_tokens = 0;
    let reply = ModelReply::Answer { response: answers("答案在这里") };
    let (step, _) = run.try_receive(reply, NOW_TEXT).unwrap();
    assert_eq!(step, LoopStep::Finish { context_overflow: false });
    assert_eq!(run.try_after_tools(), Some(LoopStep::Again));
    let result = run.into_result(false).unwrap();
    let mut brain = make_brain();
    assert!(brain.can_record(&result));
    brain.session_completion_tokens = u64::MAX;
    assert!(!brain.can_record(&result));
    assert_eq!(brain.history.try_context_tokens(), Some(0));
}

#[test]
fn shortening_starts_above_three_fifths() {
    let mut brain = MainBrain::new(10, 32768, "0.7");
    brain.history.set_tracked_tokens(6);
    assert_eq!(brain.plan_compaction(), None);
    assert!(!brain.compaction_triggered);
    brain.history.set_tracked_tokens(7);
    assert_eq!(brain.plan_compaction(), None);
    assert!(brain.compaction_triggered);
    brain.history.set_tracked_tokens(1);
    brain.plan_compaction();
    assert!(brain.compaction_triggered);
}

#[test]
fn a_brain_is_told_and_forgets() {
    let mut brain = make_brain();
    process(&mut brain, "第一问", "第一答");
    brain.push_evaluator_to_history("很好", NOW);
    assert_eq!(brain.history_len(), 3);
    let messages = brain.history.messages();
    assert_eq!(messages[2].role, SpeakerRole::Evaluator);
    assert!(brain.cumulative_prompt_tokens() > 0);
    assert!(brain.cumulative_completion_tokens() > 0);
    assert_eq!(brain.cumulative_cache_read_tokens(), 0);

    brain.inject_skill_summary(String::new());
    assert_eq!(brain.skill_summary, None);
    brain.inject_skill_summary("技能".to_string());
    brain.inject_bootstrap("开场".to_string());
    let system = brain.build_messages("")[0].text_content();
    assert!(system.contains("技能") && system.contains("开场"));

    let state = BrainState {
        fact_summary: "用户在宁波".to_string(),
        user_profile: UserProfile {
            explicit_preferences: vec!["简短".to_string()],
            implicit_preferences: vec![],
            taboos: vec![],
            habits: vec![],
        },
        active_pitfalls: vec![],
        evolution_rules: vec![],
        index_entries: vec![],
        snapshot_at: 0,
    };
    brain.rebuild_context(&state, 1, NOW);
    assert_eq!(brain.history_len(), 2);
    let first = brain.history.messages()[0].text_content();
    assert!(first.contains("事实总结: 用户在宁波\n用户偏好: [\"简短\"]"));
    assert_eq!(brain.history.messages()[1].text_content(), "很好");
    assert_eq!(brain.history.truncate_to_recent(5), 0);
    assert_eq!(brain.history.truncate_to_recent(1), 1);
    brain.clear_history();
    assert_eq!(brain.history_len(), 0);
}
