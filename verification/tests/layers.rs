use ai_brain::json::Json;
use ai_brain::memory::abstract_layer::{
    AbstractLayer, Experience, KeywordIndex, TaskType, TypeExperience,
};
use ai_brain::memory::analyzer::parse_string_array;
use ai_brain::memory::archive::{ArchiveReference, ArchiveStore, ArchiveTopicIndex};
use ai_brain::memory::brain_state::BrainStateGenerator;
use ai_brain::memory::concentration::{
    parse_json_response, ConcentrationEngine, ConcentrationOutcome, ConcentrationStep,
};
use ai_brain::memory::evolution::EvolutionStore;
use ai_brain::memory::index_layer::IndexLayer;
use ai_brain::memory::pitfall::PitfallStore;
use ai_brain::memory::types::UserProfile;

const NOW: i64 = 1_779_667_200_000;

fn text(s: &str) -> String {
    s.to_string()
}

fn make_type_experience(task_type: TaskType, patterns: Vec<(&str, bool)>) -> TypeExperience {
    TypeExperience {
        task_type,
        experiences: patterns
            .into_iter()
            .enumerate()
            .map(|(i, (pattern, injectable))| Experience {
                pattern: pattern.to_string(),
                description: format!("描述: {pattern}"),
                source_tasks: vec![format!("task-{}", i)],
                frequency: (i + 1) as u32,
                injectable,
            })
            .collect(),
        l2_refs: vec![text("task-0")],
        index: vec![KeywordIndex { keyword: text("测试"), l2_task_ids: vec![text("task-0")] }],
        updated_at: NOW,
    }
}

#[test]
fn regenerate_overwrites_old_data() {
    let mut layer = AbstractLayer::new();
    layer.regenerate(vec![make_type_experience(TaskType::Coding, vec![("模式A", false)])], NOW);
    let loaded = layer.load_all();
    assert_eq!(loaded.len(), 1);

    layer.regenerate(
        vec![
            make_type_experience(TaskType::Coding, vec![("模式B", true)]),
            make_type_experience(TaskType::Writing, vec![("模式C", false)]),
        ],
        NOW,
    );
    let loaded = layer.load_all();
    assert_eq!(loaded.len(), 2);
    assert!(layer.find_by_keyword("模式A").is_empty());
}

#[test]
fn load_type_specific() {
    let mut layer = AbstractLayer::new();
    layer.regenerate(
        vec![
            make_type_experience(TaskType::Coding, vec![("编码模式", true)]),
            make_type_experience(TaskType::Writing, vec![("写作模式", false)]),
        ],
        NOW,
    );

    let coding = layer.load_type(TaskType::Coding);
    assert!(coding.is_some());
    assert_eq!(coding.unwrap().experiences[0].pattern, "编码模式");

    let writing = layer.load_type(TaskType::Writing);
    assert!(writing.is_some());
    assert_eq!(writing.unwrap().experiences[0].pattern, "写作模式");
}

#[test]
fn load_injectable_experiences() {
    let mut layer = AbstractLayer::new();
    layer.regenerate(
        vec![
            make_type_experience(TaskType::Coding, vec![("可注入", true), ("不可注入", false)]),
            make_type_experience(TaskType::Writing, vec![("也可注入", true)]),
        ],
        NOW,
    );

    let injectable = layer.load_injectable();
    assert_eq!(injectable.len(), 2);
    assert!(injectable.iter().all(|e| e.injectable));
}

#[test]
fn find_by_keyword() {
    let mut layer = AbstractLayer::new();
    layer.regenerate(vec![make_type_experience(TaskType::Coding, vec![("TUI修复", false)])], NOW);

    let results = layer.find_by_keyword("测试");
    assert_eq!(results.len(), 1);

    let results = layer.find_by_keyword("TUI");
    assert_eq!(results.len(), 1);
}

#[test]
fn index_auto_generated() {
    let mut layer = AbstractLayer::new();
    layer.regenerate(
        vec![
            make_type_experience(TaskType::Coding, vec![("A", true), ("B", false)]),
            make_type_experience(TaskType::Writing, vec![("C", true)]),
        ],
        NOW,
    );

    let index = layer.load_index(NOW);
    assert_eq!(index.entries.len(), 2);
    assert_eq!(index.entries[0].experience_count, 2);
    assert_eq!(index.entries[0].injectable_count, 1);
    assert_eq!(index.entries[1].injectable_count, 1);
}

#[test]
fn load_index_empty() {
    let layer = AbstractLayer::new();
    let index = layer.load_index(NOW);
    assert!(index.entries.is_empty());
}

#[test]
fn load_type_nonexistent_returns_none() {
    let layer = AbstractLayer::new();
    let result = layer.load_type(TaskType::Research);
    assert!(result.is_none());
}

#[test]
fn parse_string_array_works() {
    let v = Json::parse("{\"items\": [\"a\", \"b\"]}").unwrap();
    let arr = parse_string_array(&v, "items");
    assert_eq!(arr, vec!["a", "b"]);
}

#[test]
fn parse_string_array_missing_key() {
    let v = Json::parse("{}").unwrap();
    let arr = parse_string_array(&v, "items");
    assert!(arr.is_empty());
}

fn make_index(topic: &str) -> ArchiveTopicIndex {
    ArchiveTopicIndex {
        topic: text(topic),
        trigger_keywords: vec![text("记忆脑"), text("L2")],
        merged_summary: text("做过记忆脑开发"),
        importance: 0.9f64.to_bits(),
        references: vec![ArchiveReference {
            session_id: text("sess-test"),
            summary: text("讨论了架构设计"),
            importance: 0.8f64.to_bits(),
        }],
        updated_at: NOW,
        created_at: NOW,
    }
}

#[test]
fn save_and_load_topic() {
    let mut store = ArchiveStore::new("/base");
    let index = make_index("记忆脑开发");
    store.save_topic(&index);

    let loaded = store.load_topic("记忆脑开发").unwrap();
    assert_eq!(loaded.topic, "记忆脑开发");
    assert_eq!(loaded.references.len(), 1);
    assert_eq!(loaded, index);
}

#[test]
fn list_topics() {
    let mut store = ArchiveStore::new("/base");
    store.save_topic(&make_index("topic-a"));
    store.save_topic(&make_index("topic-b"));

    let topics = store.list_topics();
    assert_eq!(topics.len(), 2);
    store.delete_topic("topic-a");
    assert_eq!(store.list_topics(), vec!["topic-b"]);
}

#[test]
fn match_topics_by_keyword() {
    let mut store = ArchiveStore::new("/base");
    let mut dev_idx = make_index("记忆脑开发");
    dev_idx.trigger_keywords = vec![text("记忆脑"), text("L2")];
    store.save_topic(&dev_idx);

    let mut ship_idx = make_index("Ship-Core");
    ship_idx.trigger_keywords = vec![text("订舱"), text("提单")];
    ship_idx.merged_summary = text("Ship-Core 业务开发");
    store.save_topic(&ship_idx);

    let matched = store.match_topics(&vec![text("记忆脑")], 10);
    assert_eq!(matched.len(), 1);
    assert_eq!(matched[0].topic, "记忆脑开发");
}

fn make_generator(profile: UserProfile) -> BrainStateGenerator {
    BrainStateGenerator::new(
        text("/base"),
        profile,
        PitfallStore::new("/base"),
        EvolutionStore::new("/base"),
        IndexLayer::new(),
    )
}

fn empty_profile() -> UserProfile {
    UserProfile {
        explicit_preferences: vec![],
        implicit_preferences: vec![],
        taboos: vec![],
        habits: vec![],
    }
}

#[test]
fn generate_empty_state() {
    let generator = make_generator(empty_profile());
    let state = generator.generate("初始状态", NOW);

    assert_eq!(state.fact_summary, "初始状态");
    assert!(state.active_pitfalls.is_empty());
    assert!(state.evolution_rules.is_empty());
    assert!(state.user_profile.explicit_preferences.is_empty());
}

#[test]
fn generate_and_persist() {
    let generator = make_generator(empty_profile());
    let state = generator.generate("测试快照", NOW);

    assert_eq!(state.fact_summary, "测试快照");
    let path = generator.snapshot_path(&state);
    assert_eq!(path, format!("/base/memory/snapshots/snapshot_{}.json", NOW / 1000));
}

#[test]
fn generate_with_profile_data() {
    let mut profile = empty_profile();
    profile.explicit_preferences.push(text("偏好 Rust"));
    let generator = make_generator(profile);

    let state = generator.generate("有画像数据", NOW);
    assert_eq!(state.user_profile.explicit_preferences.len(), 1);
}

#[test]
fn parse_json_response_works() {
    let response = r#"{"task_id":"t-1","task_type":"Coding","task_name":"Test","summary":"A task","l1_refs":[],"tags":[],"importance":0.5,"created_at":"2026-01-01T00:00:00Z","updated_at":"2026-01-01T00:00:00Z"}"#;
    let result = parse_json_response(response).unwrap();
    let value: serde_json::Value = serde_json::from_str(&result.to_text()).unwrap();
    assert_eq!(value["task_id"], "t-1");
    assert!(parse_json_response("not valid json").is_err());
}

fn run_with(engine: &mut ConcentrationEngine, reply: &str, is_layer: fn(&str) -> bool) {
    while engine.step != ConcentrationStep::Done {
        let outcome = match parse_json_response(reply) {
            Ok(_) if engine.step == ConcentrationStep::Split && is_layer(reply) => {
                ConcentrationOutcome::Made { count: 1, narrative_chars: 0 }
            }
            Ok(_) => ConcentrationOutcome::Failed(text("invalid type")),
            Err(e) => ConcentrationOutcome::Failed(e.message()),
        };
        engine.accept(outcome);
    }
}

#[test]
fn step1_l1_to_l2_with_mock() {
    let mut engine = ConcentrationEngine::new("sess-001");
    assert!(!engine.begin(&Ok(text("[{\"content\":\"帮我修复TUI鼠标问题\"}]"))));
    let mock_response = r#"[
        {
            "task_id": "task-001",
            "task_type": "Coding",
            "task_name": "TUI鼠标修复",
            "summary": "修复鼠标捕获问题",
            "l1_refs": [{"session": "sess-001", "paragraphs": [0]}],
            "tags": ["TUI", "鼠标"],
            "importance": 0.8,
            "created_at": "2026-05-25T00:00:00Z",
            "updated_at": "2026-05-25T00:00:00Z"
        }
    ]"#;
    run_with(&mut engine, mock_response, |r| r.contains("task-001"));

    assert_eq!(engine.report.step1_tasks, 1);
    assert!(engine.report.errors.iter().any(|e| e.starts_with("Step2:")));
}

#[test]
fn step1_failure_stops_pipeline() {
    let mut engine = ConcentrationEngine::new("sess-001");
    assert!(!engine.begin(&Ok(text("[{\"content\":\"hello\"}]"))));
    run_with(&mut engine, "not valid json", |_| true);

    assert!(!engine.report.errors.is_empty());
    assert_eq!(engine.report.errors.len(), 1);
    assert_eq!(engine.report.step2_types, 0);
    assert_eq!(engine.report.step3_triggers, 0);
}

#[test]
fn empty_conversations_skips() {
    let mut engine = ConcentrationEngine::new("sess-none");
    assert!(!engine.begin(&Ok(text("[]"))));
    assert_eq!(engine.step, ConcentrationStep::Done);

    assert_eq!(engine.report.step1_tasks, 0);
    assert!(engine.report.errors.is_empty());
}

#[test]
fn invalidation_rebuild_never_prompts_with_old_derived_memory() {
    const OLD: &str = "DELETED_BRANCH_SECRET";
    let mut engine = ConcentrationEngine::new("session").with_active_l1_rebuild(true);
    assert!(!engine.begin(&Ok(text("[{\"content\":\"safe active memory\"}]"))));
    let mut shown = Vec::new();
    while engine.step != ConcentrationStep::Done {
        shown.push(engine.existing_layer(OLD));
        shown.push(engine.existing_profile(OLD));
        if engine.step == ConcentrationStep::Profile {
            assert!(engine.keeps_profile("safe-profile"));
        }
        engine.accept(ConcentrationOutcome::Made { count: 0, narrative_chars: 0 });
    }

    assert!(engine.report.errors.is_empty(), "{:?}", engine.report.errors);
    assert_eq!(shown.len(), 8);
    assert!(shown.iter().all(|prompt| !prompt.contains(OLD)));
}

#[test]
fn invalidation_rebuild_clears_derived_memory_when_no_l1_remains() {
    let mut engine = ConcentrationEngine::new("session").with_active_l1_rebuild(true);
    assert!(engine.begin(&Ok(text("[]"))));
    assert_eq!(engine.step, ConcentrationStep::Done);
    assert!(engine.report.errors.is_empty(), "{:?}", engine.report.errors);
    engine.clear_failed("磁盘");
    assert_eq!(engine.report.errors, vec!["clear_derived_memory: 磁盘"]);
}

#[test]
fn letter_case_makes_no_difference_to_keywords() {
    let mut layer = AbstractLayer::new();
    layer.regenerate(vec![make_type_experience(TaskType::Coding, vec![("TUI修复", false)])], NOW);
    for k in ["tui", "Tui", "TUI"] {
        assert_eq!(layer.find_by_keyword(k), layer.find_by_keyword(&k.to_lowercase()));
        assert_eq!(layer.find_by_keyword(k).len(), 1);
    }
}
