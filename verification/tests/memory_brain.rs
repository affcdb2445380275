use ai_brain::brains::{
    BrainContext, BrainId, BroadcastMessage, KnowledgeSource, MemoryEntry, MemoryLayer,
};
use ai_brain::memory::consolidation::ConsolidationEngine;
use ai_brain::memory::event_index::{EventEntry, EventIndexLayer};
use ai_brain::memory::experience_pack::ExperiencePackLayer;
use ai_brain::memory::importance::ImportanceManager;
use ai_brain::memory::index_layer::{IndexEntry, IndexLayer, SourceRef};
use ai_brain::memory::memory_brain::{
    accept_recall, parse_index_response, recall_prompt, MemoryBrain, MemoryBrainConfig,
};
use ai_brain::memory::memory_iteration::MemoryStoreType;
use ai_brain::memory::migration::{categorize_by_tags, run_migration, OldData};
use ai_brain::memory::pending_analysis::PendingAnalysis;
use ai_brain::memory::pitfall::{NewPitfall, PitfallStore};
use ai_brain::memory::types::{PitfallCategory, PitfallRecord};

const NOW: i64 = 1_775_260_800_000;

fn text(s: &str) -> String {
    s.to_string()
}

fn texts(items: &[&str]) -> Vec<String> {
    items.iter().map(|s| s.to_string()).collect()
}

fn make_brain() -> MemoryBrain {
    MemoryBrain::new(MemoryBrainConfig {
        base_dir: text("/base"),
        session_id: text("test-session"),
        max_keywords: 5,
    })
}

fn make_broadcast(content: &str) -> BroadcastMessage {
    BroadcastMessage {
        content: text(content),
        raw_input: text(content),
        context: BrainContext {
            current_date: text("2026-04-04"),
            cwd: text("/test"),
            git_branch: Some(text("main")),
            platform: text("darwin"),
        },
        timestamp: NOW,
    }
}

#[test]
fn brain_id_and_kind() {
    let brain = make_brain();
    assert_eq!(brain.id, BrainId::memory());
}

#[test]
fn store_broadcast_and_retrieve() {
    let brain = make_brain();
    let msg = make_broadcast("用户查询清明节假期安排");
    let (raw, entry) = brain.store_broadcast(&msg, NOW);
    assert_eq!(raw.content, "用户查询清明节假期安排");
    assert_eq!(raw.id, format!("raw-{NOW}"));
    assert_eq!(entry.content, "用户查询清明节假期安排");
    assert_eq!(entry.layer, MemoryLayer::ShortTerm);
}

#[test]
fn fast_think_no_memory() {
    let brain = make_brain();
    let msg = make_broadcast("这是一个新查询");
    assert!(!brain.fast_keywords(&msg).is_empty());
    let result = brain.fast_think(&vec![]);
    assert!(!result.relevant);
}

#[test]
fn fast_think_with_memory() {
    let brain = make_brain();
    let (_, entry) = brain.store_broadcast(&make_broadcast("清明节是4月5日，放假1天"), NOW);
    let result = brain.fast_think(&vec![entry]);
    assert!(f64::from_bits(result.confidence) >= 0.0);
    assert!(result.relevant);
}

#[test]
fn on_broadcast_stores_message() {
    let brain = make_brain();
    let (_, entry) = brain.store_broadcast(&make_broadcast("测试消息存储"), NOW);
    assert_eq!(entry.id, format!("stm-{NOW}"));
    assert!(!entry.consolidated);
}

#[test]
fn memory_stats() {
    let brain = make_brain();
    let stats = brain.stats(None, None, 1, Some(1));
    assert_eq!(stats.l2_count, 1);
    assert_eq!(stats.l3_count, 1);
    assert_eq!(stats.l0_count, 0);
}

#[test]
fn slow_think_returns_results() {
    let brain = make_brain();
    let (_, entry) = brain.store_broadcast(&make_broadcast("清明节是4月5日"), NOW);
    let query = brain.slow_query(&make_broadcast("清明节几号"));
    assert!(!query.keywords.is_empty());
    let result = brain.slow_think(&Ok(vec![entry]));
    assert!(f64::from_bits(result.confidence) > 0.0);
}

#[test]
fn consolidation_runs() {
    let brain = make_brain();
    let (_, entry) = brain.store_broadcast(&make_broadcast("完成了记忆脑开发"), NOW);
    let mut engine = ConsolidationEngine::new(vec![entry], EventIndexLayer::new(), vec![]);
    let report = engine.run(NOW);
    assert!(report.event_indexes_created > 0 || report.memories_consolidated > 0);
}

#[test]
fn analysis_comes_in_intervals() {
    let mut brain = make_brain();
    let due: Vec<bool> = (0..10).map(|_| brain.tick_and_should_analyze()).collect();
    assert_eq!(due.iter().filter(|d| **d).count(), 2);
    assert!(due[4] && due[9]);
}

fn candidate(id: &str, content: &str) -> MemoryEntry {
    MemoryEntry {
        id: text(id),
        content: text(content),
        tags: vec![],
        layer: MemoryLayer::ShortTerm,
        importance: 0.5f64.to_bits(),
        source: KnowledgeSource { memory_id: text(id), layer: MemoryLayer::ShortTerm },
        confidence: 0.5f64.to_bits(),
        reference_count: 0,
        created_at: NOW,
        last_accessed: NOW,
        consolidated: false,
    }
}

#[test]
fn a_model_picks_what_is_recalled() {
    let candidates = vec![candidate("a", "甲"), candidate("b", "乙"), candidate("c", "丙")];
    let prompt = recall_prompt("问", &candidates, 2);
    assert!(prompt.contains("2. [b] 乙"));
    let picked = accept_recall("结果: [3, 1, 9, 2]", &candidates, 2);
    let ids: Vec<&str> = picked.iter().map(|e| e.id.as_str()).collect();
    assert_eq!(ids, vec!["c", "a"]);
    assert!(accept_recall("没有", &candidates, 2).is_empty());
    assert_eq!(parse_index_response("[1]", 3), vec![0]);
}

#[test]
fn reinforce_is_noop_for_subconscious() {
    let changed = ImportanceManager::reinforce(&texts(&["any-id"]), MemoryStoreType::Subconscious);
    assert!(changed.is_empty());
}

#[test]
fn reinforce_is_noop_for_summary() {
    let changed = ImportanceManager::reinforce(&texts(&["any-id"]), MemoryStoreType::Summary);
    assert!(changed.is_empty());
}

#[test]
fn decay_all_runs_without_subconscious() {
    let report = ImportanceManager::decay_all(&mut vec![], NOW);
    assert_eq!(report.pruned_count, 0);
}

#[test]
fn decay_report_has_no_decayed_count() {
    let ai_brain::memory::importance::DecayReport { pruned_count } =
        ImportanceManager::decay_all(&mut vec![], NOW);
    assert_eq!(pruned_count, 0);
}

fn make_entry(id: &str, category: &str, summary: &str, tags: &[&str]) -> IndexEntry {
    IndexEntry {
        id: text(id),
        summary: text(summary),
        category: text(category),
        tags: texts(tags),
        importance: 0.7f64.to_bits(),
        source_refs: vec![SourceRef {
            session_file: text("sess-001"),
            line_range: (1, 5),
            entry_ids: vec![format!("raw-{id}")],
        }],
        created_at: NOW,
        last_accessed: NOW,
        recall_count: 0,
    }
}

#[test]
fn index_layer_store_and_get() {
    let mut layer = IndexLayer::new();
    let entry = make_entry("idx-1", "development", "实现了记忆脑三层架构", &["记忆", "架构"]);
    layer.store(&entry);

    let got = layer.get("idx-1", "development").unwrap();
    assert_eq!(got.summary, "实现了记忆脑三层架构");
    assert_eq!(got.category, "development");
    assert!(layer.get("idx-2", "development").is_err());
}

#[test]
fn index_layer_search_by_keyword() {
    let mut layer = IndexLayer::new();
    layer.store(&make_entry("idx-1", "development", "记忆脑架构设计", &["架构"]));
    layer.store(&make_entry("idx-2", "debugging", "修复了编译错误", &["编译"]));

    let results = layer.search(&texts(&["记忆"]), None, 10);
    assert_eq!(results.len(), 1);
    assert_eq!(results[0].id, "idx-1");
}

#[test]
fn search_by_category() {
    let mut layer = IndexLayer::new();
    layer.store(&make_entry("idx-1", "development", "开发条目1", &["开发"]));
    layer.store(&make_entry("idx-2", "debugging", "调试条目1", &["调试"]));
    layer.store(&make_entry("idx-3", "development", "开发条目2", &["开发"]));

    let results = layer.search_by_category("development", 10);
    assert_eq!(results.len(), 2);
}

#[test]
fn list_categories() {
    let mut layer = IndexLayer::new();
    layer.store(&make_entry("idx-1", "development", "开发", &["开发"]));
    layer.store(&make_entry("idx-2", "debugging", "调试", &["调试"]));

    let cats = layer.list_categories();
    assert_eq!(cats, vec!["debugging", "development"]);
}

#[test]
fn increment_recall() {
    let mut layer = IndexLayer::new();
    layer.store(&make_entry("idx-1", "development", "测试召回", &["测试"]));

    layer.increment_recall("idx-1", "development", NOW).unwrap();
    layer.increment_recall("idx-1", "development", NOW).unwrap();

    let got = layer.get("idx-1", "development").unwrap();
    assert_eq!(got.recall_count, 2);
}

#[test]
fn collect_source_refs() {
    let mut layer = IndexLayer::new();
    layer.store(&make_entry("idx-1", "development", "条目1", &["测试"]));
    layer.store(&make_entry("idx-2", "debugging", "条目2", &["测试"]));

    let refs = layer.collect_all_source_refs();
    assert_eq!(refs.len(), 2);
}

#[test]
fn count_entries() {
    let mut layer = IndexLayer::new();
    assert_eq!(layer.count(), 0);
    layer.store(&make_entry("idx-1", "development", "条目1", &["测试"]));
    layer.store(&make_entry("idx-2", "debugging", "条目2", &["测试"]));
    assert_eq!(layer.count(), 2);
}

#[test]
fn categorize_by_tags_works() {
    assert_eq!(categorize_by_tags(&texts(&["bug"])), "debugging");
    assert_eq!(categorize_by_tags(&texts(&["架构"])), "architecture");
    assert_eq!(categorize_by_tags(&texts(&["开发"])), "development");
}

#[test]
fn old_events_move_to_the_index_once() {
    let event = || EventEntry {
        id: text("ev1"),
        date: text("2026-04-04"),
        summary: text("修复"),
        key_actions: vec![],
        tags: texts(&["bug"]),
        importance: 0.7f64.to_bits(),
        created_at: NOW,
    };
    let mut index = IndexLayer::new();
    let mut experience = ExperiencePackLayer::new();
    let data = |marked: bool| OldData {
        marked,
        present: true,
        tasks: vec![None],
        short_term: vec![Some(candidate("stm-1", "记下")), None],
        days: vec![Some(vec![event()]), None],
    };
    let (report, marks) = run_migration(data(false), &mut index, &mut experience);
    assert!(marks);
    assert_eq!(report.event_entries_migrated, 1);
    assert_eq!(report.short_term_entries_migrated, 1);
    assert_eq!(report.errors, 3);
    assert_eq!(report.task_summaries_migrated, 0);
    assert_eq!(index.count(), 2);
    let moved = index.get("stm-1", "development").unwrap();
    assert_eq!(moved.summary, "记下");
    assert_eq!(moved.source_refs[0].session_file, "migrated");
    let (again, _) = run_migration(data(true), &mut index, &mut experience);
    assert_eq!(again.event_entries_migrated, 0);
    assert_eq!(again.short_term_entries_migrated, 0);
    assert_eq!(index.count(), 2);
}

#[test]
fn save_and_load_roundtrip() {
    let convs = texts(&["用户：你好", "助手：你好！"]);
    let loaded = PendingAnalysis::save(convs.clone(), text("sess-test-123"), NOW).unwrap();
    assert_eq!(loaded.conversations, convs);
    assert_eq!(loaded.session_id, "sess-test-123");
    assert_eq!(loaded.saved_at, "2026-04-04T00:00:00+00:00");
}

#[test]
fn save_empty_conversations_is_noop() {
    assert!(PendingAnalysis::save(vec![], text("sess-test"), NOW).is_none());
}

fn make_record(id: &str, category: PitfallCategory, desc: &str) -> PitfallRecord {
    PitfallRecord {
        id: text(id),
        category,
        description: text(desc),
        user_correction: None,
        occurred_at: NOW,
        occurrence_count: 1,
        superseded: false,
    }
}

#[test]
fn pitfall_store_and_load_all() {
    let mut store = PitfallStore::new("/base");
    store.store(&make_record("p1", PitfallCategory::ToolFailure, "工具调用超时"));
    store.store(&make_record("p2", PitfallCategory::WrongAnswer, "回答错误"));

    let all = store.load_all();
    assert_eq!(all.len(), 2);
}

#[test]
fn load_by_category() {
    let mut store = PitfallStore::new("/base");
    store.store(&make_record("p1", PitfallCategory::ToolFailure, "超时"));
    store.store(&make_record("p2", PitfallCategory::WrongAnswer, "错误"));

    let tool_failures = store.load_by_category(PitfallCategory::ToolFailure);
    assert_eq!(tool_failures.len(), 1);
    assert_eq!(tool_failures[0].id, "p1");
}

fn new_pitfall(category: PitfallCategory, description: &str, fix: Option<&str>) -> NewPitfall {
    NewPitfall {
        category,
        description: text(description),
        user_correction: fix.map(text),
    }
}

#[test]
fn pitfall_merge_analysis_creates_new() {
    let mut store = PitfallStore::new("/base");
    let result = store.merge_analysis(
        &vec![new_pitfall(PitfallCategory::LazyBehavior, "未读取完整文件", None)],
        &vec![NOW],
    );

    assert_eq!(result.len(), 1);
    assert_eq!(result[0].occurrence_count, 1);
    assert_eq!(store.count(), 1);
}

#[test]
fn merge_analysis_increments_existing() {
    let mut store = PitfallStore::new("/base");
    store.merge_analysis(
        &vec![new_pitfall(PitfallCategory::FormatIssue, "输出格式不正确", None)],
        &vec![NOW],
    );
    let result = store.merge_analysis(
        &vec![new_pitfall(PitfallCategory::FormatIssue, "输出格式不正确", Some("使用 JSON 格式"))],
        &vec![NOW + 1],
    );

    assert_eq!(result.len(), 1);
    assert_eq!(result[0].occurrence_count, 2);
    assert_eq!(result[0].user_correction, Some(text("使用 JSON 格式")));
    assert_eq!(store.count(), 1);
}

#[test]
fn load_active_filters_zero_count() {
    let mut store = PitfallStore::new("/base");
    let mut record = make_record("p1", PitfallCategory::Other, "测试");
    record.occurrence_count = 0;
    store.store(&record);

    let active = store.load_active();
    assert!(active.is_empty());
}
