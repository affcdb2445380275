use ai_brain::brains::{KnowledgeSource, MemoryEntry, MemoryLayer};
use ai_brain::memory::consolidation::{extract_key_actions, ConsolidationEngine};
use ai_brain::memory::conversation_memory::{
    ConversationMemoryInvalidation, ConversationMemoryScope, ConversationMemoryStore,
};
use ai_brain::memory::error::MemoryError;
use ai_brain::memory::eval_requirement::EvalRequirementStore;
use ai_brain::memory::event_index::{EventEntry, EventIndexLayer};
use ai_brain::memory::evolution::{EvolutionStore, NewEvolutionRule};
use ai_brain::memory::experience_pack::{ExperiencePack, ExperiencePackLayer, MistakeEntry};
use ai_brain::memory::guardian::{GuardianConfig, GuardianEngine};
use ai_brain::memory::pitfall::{NewPitfall, PitfallStore};
use ai_brain::memory::types::{EvolutionRule, PitfallCategory, SessionSummary};

const NOW: i64 = 1_775_260_800_000;

fn text(s: &str) -> String {
    s.to_string()
}

fn texts(items: &[&str]) -> Vec<String> {
    items.iter().map(|s| s.to_string()).collect()
}

fn make_entry(id: &str, content: &str, importance: f64) -> MemoryEntry {
    MemoryEntry {
        id: text(id),
        content: text(content),
        tags: texts(&["test"]),
        layer: MemoryLayer::ShortTerm,
        importance: importance.to_bits(),
        source: KnowledgeSource { memory_id: text(id), layer: MemoryLayer::ShortTerm },
        confidence: 0.8f64.to_bits(),
        reference_count: 0,
        created_at: NOW,
        last_accessed: NOW,
        consolidated: false,
    }
}

fn make_engine(entry: MemoryEntry) -> ConsolidationEngine {
    ConsolidationEngine::new(vec![entry], EventIndexLayer::new(), vec![])
}

#[test]
fn consolidation_creates_events() {
    let mut engine = make_engine(make_entry("e1", "完成了记忆脑开发", 0.7));
    let report = engine.run(NOW);
    assert_eq!(report.event_indexes_created, 1);
    assert_eq!(report.memories_consolidated, 1);
    let events = engine.event_index.read_date("2026-04-04");
    assert_eq!(events.len(), 1);
    assert_eq!(events[0].date, "2026-04-04");
}

#[test]
fn consolidation_creates_task_summary_for_high_importance() {
    let mut engine = make_engine(make_entry("e1", "实现了完整的记忆系统", 0.9));
    let report = engine.run(NOW);
    assert_eq!(report.event_indexes_created, 1);
    assert_eq!(report.task_summaries_created, 1);
    assert_eq!(report.memories_consolidated, 2);
    let again = engine.run(NOW);
    assert_eq!(again.memories_consolidated, 0);
}

#[test]
fn extract_key_actions_from_content() {
    let actions = extract_key_actions("完成了Phase 3开发。修复了bug。这是普通文本");
    assert_eq!(actions.len(), 2);
    assert!(actions[0].contains("完成了"));
    assert!(actions[1].contains("修复了"));
}

#[test]
fn scoped_generation_is_moved_and_staleness_is_revision_safe() {
    let scope = ConversationMemoryScope::new("chat_1", "generation_1").unwrap();
    let scoped_session = scope.storage_session_id("memory_session").unwrap();
    let mut store = ConversationMemoryStore::new("memory_session");
    store.active_sessions.push(scoped_session.clone());

    let moved = store
        .invalidate(
            &ConversationMemoryInvalidation {
                conversation_id: text("chat_1"),
                generation_ids: texts(&["generation_1"]),
                includes_legacy_unscoped: false,
            },
            NOW,
        )
        .unwrap();

    assert_eq!(moved, 1);
    assert!(!store.active_sessions.contains(&scoped_session));
    assert!(store.invalidated_sessions.contains(&scoped_session));
    assert!(store.is_derived_stale());
    let revision = store.revision();
    let snapshot = store.rebuild_snapshot();
    assert_eq!(snapshot.revision, revision);
    assert!(snapshot.derived_stale);
    assert!(!snapshot.legacy_unscoped);
    let stale = revision.saturating_sub(1);
    assert!(!store.may_rebuild(stale));
    assert!(!store.commit_rebuild(stale, Ok(())).unwrap());
    assert!(store.is_derived_stale());
    assert!(store.mark_rebuilt(revision));
    assert!(!store.is_derived_stale());
    assert!(!store.mark_rebuilt(stale));
}

#[test]
fn legacy_invalidation_remains_fail_closed_after_rebuild() {
    let mut store = ConversationMemoryStore::new("memory_session");
    store
        .invalidate(
            &ConversationMemoryInvalidation {
                conversation_id: text("chat_legacy"),
                generation_ids: Vec::new(),
                includes_legacy_unscoped: true,
            },
            NOW,
        )
        .unwrap();
    let revision = store.revision();
    let snapshot = store.rebuild_snapshot();
    assert_eq!(snapshot.revision, revision);
    assert!(snapshot.derived_stale);
    assert!(snapshot.legacy_unscoped);
    assert!(!store.mark_rebuilt(revision));
    assert!(store.is_derived_stale());
}

#[test]
fn a_failed_rebuild_leaves_the_memory_stale() {
    let mut store = ConversationMemoryStore::new("memory_session");
    store
        .invalidate(
            &ConversationMemoryInvalidation {
                conversation_id: text("chat_1"),
                generation_ids: texts(&["g"]),
                includes_legacy_unscoped: false,
            },
            NOW,
        )
        .unwrap();
    let revision = store.revision();
    let failed = store.commit_rebuild(revision, Err(MemoryError::Io(text("满"))));
    assert!(failed.is_err());
    assert!(store.is_derived_stale());
    assert!(ConversationMemoryScope::new("a/b", "g").is_err());
    assert!(ConversationMemoryScope::new("", "g").is_err());
}

#[test]
fn add_and_load() {
    let mut store = EvalRequirementStore::new("/base");
    let req = store.add("不要将简单问答判定为问题", "用户反馈", NOW);

    assert!(req.id.starts_with("evreq-"));
    assert_eq!(req.content, "不要将简单问答判定为问题");

    let active = store.load_active();
    assert_eq!(active.len(), 1);
}

#[test]
fn add_deduplicates_same_content() {
    let mut store = EvalRequirementStore::new("/base");
    store.add("关注代码安全性", "用户反馈", NOW);
    store.add("关注代码安全性", "记忆脑分析", NOW + 1);

    assert_eq!(store.count(), 1);
}

#[test]
fn mark_superseded() {
    let mut store = EvalRequirementStore::new("/base");
    let req = store.add("测试要求", "测试", NOW);
    store.mark_superseded(&req.id);

    let active = store.load_active();
    assert!(active.is_empty());
}

#[test]
fn load_all_includes_superseded() {
    let mut store = EvalRequirementStore::new("/base");
    let req = store.add("测试要求", "测试", NOW);
    store.mark_superseded(&req.id);

    let all = store.load_all();
    assert_eq!(all.len(), 1);
}

fn make_event(id: &str, date: &str, summary: &str, tags: &[&str]) -> EventEntry {
    EventEntry {
        id: text(id),
        date: text(date),
        summary: text(summary),
        key_actions: texts(&["完成了开发"]),
        tags: texts(tags),
        importance: 0.7f64.to_bits(),
        created_at: NOW,
    }
}

#[test]
fn store_and_read_date() {
    let mut layer = EventIndexLayer::new();
    layer.store(&make_event("ev1", "2026-04-04", "完成了 Phase 3 记忆脑开发", &["开发", "记忆"]));

    let events = layer.read_date("2026-04-04");
    assert_eq!(events.len(), 1);
    assert_eq!(events[0].summary, "完成了 Phase 3 记忆脑开发");
}

#[test]
fn search_across_dates() {
    let mut layer = EventIndexLayer::new();
    layer.store(&make_event("ev1", "2026-04-03", "Phase 2 感知脑完成", &["开发"]));
    layer.store(&make_event("ev2", "2026-04-04", "Phase 3 记忆脑开发", &["开发", "记忆"]));

    let results = layer.search(&texts(&["记忆"]), 10);
    assert_eq!(results.len(), 1);
    assert_eq!(results[0].layer, MemoryLayer::EventIndex);
}

#[test]
fn read_empty_date() {
    let layer = EventIndexLayer::new();
    let events = layer.read_date("2099-01-01");
    assert!(events.is_empty());
}

fn make_rule(id: &str, rule: &str, priority: u8) -> EvolutionRule {
    EvolutionRule {
        id: text(id),
        rule: text(rule),
        source_pitfall_ids: texts(&["pit-1"]),
        priority,
        created_at: NOW,
        superseded: false,
    }
}

#[test]
fn evolution_store_and_load_all() {
    let mut store = EvolutionStore::new("/base");
    store.store(&make_rule("e1", "总是先读取文件", 3));
    store.store(&make_rule("e2", "使用 cargo clippy", 4));

    let all = store.load_all();
    assert_eq!(all.len(), 2);
}

#[test]
fn load_sorted_by_priority() {
    let mut store = EvolutionStore::new("/base");
    store.store(&make_rule("e1", "低优先级", 1));
    store.store(&make_rule("e2", "高优先级", 5));
    store.store(&make_rule("e3", "中优先级", 3));

    let sorted = store.load_sorted_by_priority();
    assert_eq!(sorted[0].priority, 5);
    assert_eq!(sorted[1].priority, 3);
    assert_eq!(sorted[2].priority, 1);
}

#[test]
fn load_high_priority_filters() {
    let mut store = EvolutionStore::new("/base");
    store.store(&make_rule("e1", "低", 1));
    store.store(&make_rule("e2", "高", 5));

    let high = store.load_high_priority(3);
    assert_eq!(high.len(), 1);
    assert_eq!(high[0].priority, 5);
}

fn new_rule(rule: &str, source: &str, priority: u8) -> NewEvolutionRule {
    NewEvolutionRule { rule: text(rule), source_pitfall_ids: texts(&[source]), priority }
}

#[test]
fn evolution_merge_analysis_creates_new() {
    let mut store = EvolutionStore::new("/base");
    let result = store.merge_analysis(&vec![new_rule("失败后检查环境变量", "pit-1", 4)], &vec![NOW]);

    assert_eq!(result.len(), 1);
    assert_eq!(result[0].priority, 4);
    assert_eq!(store.count(), 1);
}

#[test]
fn merge_analysis_deduplicates_by_content() {
    let mut store = EvolutionStore::new("/base");
    store.merge_analysis(&vec![new_rule("总是先运行测试", "pit-1", 3)], &vec![NOW]);
    let result = store.merge_analysis(&vec![new_rule("总是先运行测试", "pit-2", 5)], &vec![NOW + 1]);

    assert_eq!(result.len(), 1);
    assert_eq!(result[0].priority, 5);
    assert_eq!(result[0].source_pitfall_ids.len(), 2);
    assert_eq!(store.count(), 1);
}

fn make_pack(id: &str, category: &str, title: &str, triggers: &[&str]) -> ExperiencePack {
    ExperiencePack {
        id: text(id),
        title: text(title),
        category: text(category),
        trigger_patterns: texts(triggers),
        reasoning_path: texts(&["步骤1", "步骤2"]),
        mistakes: vec![MistakeEntry {
            what: text("遗漏了错误处理"),
            why: text("时间紧迫"),
            how_to_avoid: text("先写测试"),
        }],
        files_modified_patterns: texts(&["src/**/*.rs"]),
        tools_used: texts(&["cargo"]),
        success_rate: 0.85f64.to_bits(),
        shortcuts: texts(&["使用模板"]),
        source_index_ids: texts(&["idx-1"]),
        context_snippet: text("这是可直接注入推理脑的经验文本。"),
        created_at: NOW,
        last_used_at: NOW,
        use_count: 0,
    }
}

#[test]
fn experience_pack_store_and_get() {
    let mut layer = ExperiencePackLayer::new();
    let pack = make_pack("exp-1", "development", "记忆脑三层架构经验", &["记忆", "架构"]);
    layer.store(&pack);

    let got = layer.get("exp-1", "development").unwrap();
    assert_eq!(got.title, "记忆脑三层架构经验");
    assert_eq!(got.category, "development");
    assert!(layer.get("exp-1", "debugging").is_err());
}

#[test]
fn experience_pack_search_by_keyword() {
    let mut layer = ExperiencePackLayer::new();
    layer.store(&make_pack("exp-1", "development", "记忆脑经验", &["记忆"]));
    layer.store(&make_pack("exp-2", "debugging", "编译错误经验", &["编译"]));

    let results = layer.search(&texts(&["记忆"]), None, 10);
    assert_eq!(results.len(), 1);
    assert_eq!(results[0].id, "exp-1");
}

#[test]
fn search_by_trigger() {
    let mut layer = ExperiencePackLayer::new();
    layer.store(&make_pack("exp-1", "development", "记忆脑经验", &["记忆系统重构"]));
    layer.store(&make_pack("exp-2", "debugging", "编译错误", &["编译失败"]));

    let results = layer.search_by_trigger("我需要做记忆系统重构", 10);
    assert_eq!(results.len(), 1);
    assert_eq!(results[0].id, "exp-1");
}

#[test]
fn increment_use() {
    let mut layer = ExperiencePackLayer::new();
    layer.store(&make_pack("exp-1", "development", "测试使用", &["测试"]));

    layer.increment_use("exp-1", "development", NOW).unwrap();
    layer.increment_use("exp-1", "development", NOW).unwrap();

    let got = layer.get("exp-1", "development").unwrap();
    assert_eq!(got.use_count, 2);
}

#[test]
fn load_for_injection() {
    let mut layer = ExperiencePackLayer::new();
    layer.store(&make_pack("exp-1", "development", "经验1", &["记忆"]));
    layer.store(&make_pack("exp-2", "development", "经验2", &["记忆"]));

    let context = layer.load_for_injection(Some("development"), &texts(&["记忆"]), 1000);
    assert!(!context.is_empty());
    assert!(context.contains("经验1"));
    assert!(context.contains("经验2"));
}

#[test]
fn load_for_injection_respects_budget() {
    let mut layer = ExperiencePackLayer::new();
    layer.store(&make_pack("exp-1", "development", "经验1", &["记忆"]));
    layer.store(&make_pack("exp-2", "development", "经验2", &["记忆"]));

    let context = layer.load_for_injection(None, &texts(&["记忆"]), 80);
    let has_1 = context.contains("经验1");
    let has_2 = context.contains("经验2");
    assert!(has_1 || has_2, "至少有一个经验被加载");
    assert!(context.len() <= 80);
}

#[test]
fn count_and_categories() {
    let mut layer = ExperiencePackLayer::new();
    layer.store(&make_pack("exp-1", "development", "开发经验", &["开发"]));
    layer.store(&make_pack("exp-2", "debugging", "调试经验", &["调试"]));

    assert_eq!(layer.count(), 2);
    let cats = layer.list_categories();
    assert_eq!(cats, vec!["debugging", "development"]);
}

fn make_guardian() -> GuardianEngine {
    GuardianEngine::new(GuardianConfig { check_interval_secs: 8, min_new_summaries: 2 })
}

fn make_summary(id: &str, archived: bool) -> SessionSummary {
    SessionSummary {
        session_id: text(id),
        session_start: NOW,
        session_end: NOW,
        fact_summary: text("测试"),
        tags: vec![],
        pitfalls: vec![],
        decisions: vec![],
        archived,
        superseded: false,
        created_at: NOW,
    }
}

#[test]
fn should_run_false_when_few_summaries() {
    assert!(!make_guardian().should_run(&vec![make_summary("sess-1", false)]));
}

#[test]
fn should_run_true_when_enough_summaries() {
    let mut summaries: Vec<SessionSummary> =
        (0..3).map(|i| make_summary(&format!("sess-{i}"), false)).collect();
    assert!(make_guardian().should_run(&summaries));
    summaries[0].archived = true;
    assert!(make_guardian().should_run(&summaries));
    summaries[1].archived = true;
    assert!(!make_guardian().should_run(&summaries));
}

#[test]
fn merging_keeps_all_that_the_stores_have() {
    let mut rules = EvolutionStore::new("/base");
    rules.store(&make_rule("e1", "先读", 3));
    let new = vec![new_rule("先写", "p", 2), new_rule("先读 ", "p", 1), new_rule("先测", "p", 4)];
    let kept = rules.merge_analysis(&new, &vec![NOW, NOW + 1, NOW + 2]);
    assert_eq!(kept.len(), 3);
    let all: Vec<(String, u8)> =
        rules.load_all().into_iter().map(|r| (r.rule, r.priority)).collect();
    assert_eq!(all, [(text("先读"), 3), (text("先写"), 2), (text("先测"), 4)]);

    let mut pitfalls = PitfallStore::new("/base");
    let found = |description: &str| NewPitfall {
        category: PitfallCategory::ToolFailure,
        description: text(description),
        user_correction: None,
    };
    pitfalls.merge_analysis(&vec![found("超时"), found("Lost"), found("lost")], &vec![1, 2, 3]);
    let all: Vec<(String, u32)> =
        pitfalls.load_all().into_iter().map(|r| (r.description, r.occurrence_count)).collect();
    assert_eq!(all, [(text("超时"), 1), (text("Lost"), 2)]);
}

#[test]
fn rules_of_one_priority_stand_as_they_stood() {
    let mut store = EvolutionStore::new("/base");
    for (id, priority) in [("a", 1), ("b", 3), ("c", 1), ("d", 3), ("e", 2)] {
        store.store(&make_rule(id, id, priority));
    }
    let sorted = |rules: Vec<EvolutionRule>| -> Vec<String> {
        rules.into_iter().map(|r| r.id).collect()
    };
    assert_eq!(sorted(store.load_sorted_by_priority()), ["b", "d", "e", "a", "c"]);
    store.mark_superseded("d");
    assert_eq!(sorted(store.load_active()), ["b", "e", "a", "c"]);
}
