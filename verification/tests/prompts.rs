use ai_brain::main_brain::compact::build_compressed_content;
use ai_brain::main_brain::prompts::{
    build_context_rebuild_prompt, build_environment_info_for, build_full_system_prompt,
    build_memory_injection_prompt, build_system_prompt_no_tools, build_system_prompt_with_tools,
};
use ai_brain::memory::types::{
    BrainState, EvolutionRule, PitfallCategory, PitfallRecord, UserProfile,
};

#[test]
fn system_prompt_not_empty() {
    let with_tools = build_system_prompt_with_tools();
    assert!(!with_tools.is_empty());
    assert!(with_tools.contains("工具"));

    let no_tools = build_system_prompt_no_tools();
    assert!(!no_tools.is_empty());
    assert!(no_tools.contains("助手"));
}

#[test]
fn context_rebuild_prompt_includes_summary() {
    let prompt = build_context_rebuild_prompt("用户在宁波");
    assert!(prompt.contains("用户在宁波"));
    assert!(prompt.contains("会话总结"));
}

#[test]
fn system_prompt_uses_only_high_level_novel_application_facades() {
    let prompt = build_system_prompt_with_tools();
    assert!(prompt.contains("不得用 `Agent(subagent_type='Novel')`"));
    assert!(prompt.contains("`novel_project` 和 `novel_task` 高层应用入口"));
    assert!(prompt.contains("Skill(skill='novel-writing-workflow')"));
    assert!(prompt.contains("必须先调用"));
    assert!(prompt.contains("Novel 应用边界"));
    assert!(prompt.contains("主脑必须独立"));
    assert!(prompt.contains("不得把 Writer 自检或通用评估脑"));
    assert!(prompt.contains("通用评估脑默认关闭"));
}

#[test]
fn build_compressed_content_format() {
    let content = build_compressed_content(
        "排查代码 bug",
        "main → init → config.load",
        "  - src/main.rs（行 40-60，方法 run()）：缺少空指针检查",
        "config.load() 未处理空配置导致的 NPE",
    );
    assert!(content.starts_with("[工具调用结果已压缩]"));
    assert!(content.contains("排查代码 bug"));
    assert!(content.contains("config.load()"));
}

fn state(fact_summary: &str) -> BrainState {
    BrainState {
        fact_summary: fact_summary.to_string(),
        user_profile: UserProfile {
            explicit_preferences: vec!["简短".to_string()],
            implicit_preferences: vec!["中文".to_string()],
            taboos: vec!["表情".to_string()],
            habits: vec![],
        },
        active_pitfalls: vec![PitfallRecord {
            id: "p".to_string(),
            category: PitfallCategory::WrongAnswer,
            description: "编造天气".to_string(),
            user_correction: None,
            occurred_at: 0,
            occurrence_count: 1,
            superseded: false,
        }],
        evolution_rules: vec![EvolutionRule {
            id: "r".to_string(),
            rule: "先查再答".to_string(),
            source_pitfall_ids: vec![],
            priority: 4,
            created_at: 0,
            superseded: false,
        }],
        index_entries: vec![],
        snapshot_at: 0,
    }
}

#[test]
fn memories_are_told_in_sections() {
    let told = build_memory_injection_prompt(&state("用户在宁波"));
    assert!(told.starts_with("以下是来自历史会话的参考记忆"));
    assert!(told.ends_with(
        "## 事实记忆\n用户在宁波\n\n## 用户偏好\n- [明确偏好] 简短\n- [推断偏好] 中文\n\n\
         ## 用户禁忌\n- 表情\n\n## 踩坑记录（请避免）\n- [WrongAnswer] 编造天气（用户纠正: 无）\n\n\
         ## 自进化规则\n- [P4] 先查再答\n\n---"
    ));
    let nothing = BrainState {
        fact_summary: String::new(),
        user_profile: UserProfile {
            explicit_preferences: vec![],
            implicit_preferences: vec![],
            taboos: vec![],
            habits: vec![],
        },
        active_pitfalls: vec![],
        evolution_rules: vec![],
        index_entries: vec![],
        snapshot_at: 0,
    };
    assert_eq!(build_memory_injection_prompt(&nothing), "");
}

#[test]
fn the_whole_system_prompt_ends_with_the_memories() {
    let env = build_environment_info_for("/work", "linux", "2026-04-04", 5);
    assert_eq!(
        env,
        "\n## 运行环境\n- 操作系统: Linux\n- 工作目录: /work\n- 当前日期: 2026-04-04 周六"
    );
    let head = format!("{}\n{env}", build_system_prompt_with_tools());
    assert_eq!(build_full_system_prompt(None, &env), head);
    assert_eq!(build_full_system_prompt(Some(""), &env), head);
    assert_eq!(build_full_system_prompt(Some("记忆"), &env), format!("{head}\n\n记忆"));
}
