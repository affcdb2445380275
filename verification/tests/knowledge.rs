use ai_brain::json::Json;
use ai_brain::main_brain::conversation::ConversationHistory;
use ai_brain::memory::analyzer::{
    parse_pitfall_category, save_fact_summary, step1_fact_summary, step2_user_profile,
    step3_pitfall, step4_evolution, step5_subconscious, step6_summary, step7_eval_requirements,
    AnalysisStep, FourStepAnalyzer, StepOutcome,
};
use ai_brain::memory::archive::ArchiveStore;
use ai_brain::memory::error::MemoryError;
use ai_brain::memory::generic::{
    deterministic_memory_id, proposal_identity, ContentRef, GenericMemoryStore, KnowledgeError, MemoryProposal,
    MemoryQuery, MemoryStatus, ScopeRef,
};
use ai_brain::memory::guardian::{
    classify_topics, create_topic, facts_of_topic, filing_prompt, merge_summary, merge_topic, topics_in, GuardianConfig,
    GuardianEngine, TopicProposal,
};
use ai_brain::memory::memory_brain::load_fact_summary;
use ai_brain::memory::rows::{load_entry, load_visibility_scopes, write_entry, write_scopes};
use ai_brain::memory::types::{BrainState, PitfallCategory, SessionSummary, UserProfile};

const NOW: i64 = 1_775_260_800_000;

fn text(s: &str) -> String {
    s.to_string()
}

fn scope(tenant: &str, key: &str) -> ScopeRef {
    ScopeRef {
        tenant_id: text(tenant),
        namespace: text("notes"),
        scope_type: text("user"),
        scope_key: text(key),
    }
}

fn proposal(key: &str, summary: &str) -> MemoryProposal {
    MemoryProposal {
        proposal_id: format!("proposal-{key}"),
        idempotency_key: text(key),
        namespace: text("notes"),
        memory_type: text("fact"),
        owner_scope: scope("t", "owner"),
        visibility_scopes: vec![scope("t", "owner")],
        summary: text(summary),
        content_ref: None,
        source_refs: vec![],
        provenance: Json::Null,
        trust: text("user"),
        retention: text("long"),
    }
}

fn query(tenant: &str, scopes: Vec<ScopeRef>, terms: &[&str], limit: usize) -> MemoryQuery {
    MemoryQuery {
        tenant_id: text(tenant),
        namespaces: vec![],
        memory_types: vec![],
        authorized_scopes: scopes,
        terms: terms.iter().map(|t| text(t)).collect(),
        limit,
    }
}

#[test]
fn submitting_again_changes_nothing() {
    let mut store = GenericMemoryStore::new();
    let first = store.submit(&proposal("k", "清明节放假"), None, "memory-1", NOW).unwrap();
    assert_eq!(first.version, 1);
    let again = store.submit(&proposal("k", "另一个"), None, "memory-2", NOW + 1).unwrap();
    assert_eq!(again, first);
    assert_eq!(store.entries.len(), 1);
    assert_eq!(store.outbox.len(), 1);
}

#[test]
fn superseding_again_is_stale() {
    let mut store = GenericMemoryStore::new();
    store.submit(&proposal("k", "旧的"), None, "memory-1", NOW).unwrap();
    let gone = store.supersede("memory-1", 1, "过期", NOW).unwrap();
    assert_eq!(gone.status, MemoryStatus::Superseded);
    assert_eq!(gone.version, 2);
    assert_eq!(
        store.supersede("memory-1", 1, "过期", NOW),
        Err(KnowledgeError::StaleRevision { record_id: text("memory-1"), expected: 1, actual: 2 })
    );
    assert!(store.query(&query("t", vec![scope("t", "owner")], &[], 5)).unwrap().entries.is_empty());
}

#[test]
fn queries_give_what_may_be_seen() {
    let mut store = GenericMemoryStore::new();
    store.submit(&proposal("a", "清明节放假"), None, "memory-a", NOW).unwrap();
    store.submit(&proposal("b", "端午节放假"), None, "memory-b", NOW).unwrap();
    let seen = store.query(&query("t", vec![scope("t", "owner")], &["清明"], 5)).unwrap();
    assert_eq!(seen.entries.len(), 1);
    assert_eq!(seen.entries[0].memory_entry_id, "memory-a");
    let other = store.query(&query("t", vec![scope("t", "other")], &[], 5)).unwrap();
    assert!(other.entries.is_empty());
    let one = store.query(&query("t", vec![scope("t", "owner")], &[], 1)).unwrap();
    assert_eq!(one.entries.len(), 1);
    assert!(one.truncated);
    assert!(matches!(
        store.query(&query("t", vec![scope("u", "owner")], &[], 5)),
        Err(KnowledgeError::Unauthorized(_))
    ));
    assert!(matches!(
        store.query(&query("t", vec![], &[], 5)),
        Err(KnowledgeError::InvalidInput(_))
    ));
}

#[test]
fn events_wait_until_they_are_heard() {
    let mut store = GenericMemoryStore::new();
    store.submit(&proposal("a", "甲"), None, "memory-a", NOW).unwrap();
    store.submit(&proposal("b", "乙"), None, "memory-b", NOW).unwrap();
    let pending = store.pending_outbox(10).unwrap();
    assert_eq!(pending.len(), 2);
    assert_eq!(pending[0].event_id, "memory-outbox-memory-a-1");
    assert!(store.acknowledge_outbox("memory-outbox-memory-a-1", NOW));
    assert!(!store.acknowledge_outbox("memory-outbox-memory-a-1", NOW));
    assert_eq!(store.pending_outbox(10).unwrap().len(), 1);
    assert!(store.pending_outbox(0).is_err());
}

#[test]
fn memories_are_read_back_from_their_rows() {
    let mut store = GenericMemoryStore::new();
    let mut p = proposal("a", "甲");
    p.visibility_scopes = vec![scope("t", "z"), scope("t", "b"), scope("t", "z")];
    p.content_ref = Some(ContentRef {
        provider: text("file"),
        resource_id: text("r"),
        version: None,
        content_hash: text("h"),
    });
    p.provenance = Json::parse(r#"{"by":["x",1,-2,null],"from":{"a":true}}"#).unwrap();
    store.submit(&p, None, "memory-a", NOW).unwrap();
    let kept = &store.entries[0].entry;
    let scopes = load_visibility_scopes(&write_scopes(kept));
    assert_eq!(scopes, vec![scope("t", "b"), scope("t", "z")]);
    let row = write_entry(kept);
    assert_eq!(row.status, "active");
    assert_eq!(row.trust, "\"user\"");
    assert_eq!(load_entry("memory-a", Some(row), scopes, vec![]).unwrap().as_ref(), Some(kept));
    assert_eq!(load_entry("memory-a", None, vec![], vec![]), Ok(None));
    let mut odd = write_entry(kept);
    odd.status = text("lost");
    assert_eq!(
        load_entry("memory-a", Some(odd), vec![], vec![]),
        Err(KnowledgeError::Storage(text("unknown memory status: lost")))
    );
    let mut odd = write_entry(kept);
    odd.trust = text("7");
    assert!(load_entry("memory-a", Some(odd), vec![], vec![]).is_err());
    let mut odd = write_entry(kept);
    odd.content_hash = None;
    let without = load_entry("memory-a", Some(odd), vec![], vec![]).unwrap().unwrap();
    assert_eq!(without.content_ref, None);
}

#[test]
fn proposals_are_checked() {
    let mut store = GenericMemoryStore::new();
    let blank = proposal(" ", "甲");
    let mut foreign = proposal("a", "甲");
    foreign.visibility_scopes = vec![scope("u", "owner")];
    let mut astray = proposal("a", "甲");
    astray.namespace = text("other");
    for p in [blank, foreign, astray] {
        assert!(matches!(
            store.submit(&p, None, "memory-a", NOW),
            Err(KnowledgeError::InvalidInput(_))
        ));
    }
    let schema = KnowledgeError::InvalidInput(text("schema"));
    assert!(store.submit(&proposal("a", "甲"), Some(schema), "memory-a", NOW).is_err());
    store.submit(&proposal("a", "甲"), None, "memory-a", NOW).unwrap();
    assert!(matches!(
        store.submit(&proposal("b", "乙"), None, "memory-a", NOW),
        Err(KnowledgeError::Storage(_))
    ));
    assert!(store.supersede("memory-x", 1, "原因", NOW).is_err());
    assert_eq!(proposal_identity(&proposal("a", "甲"), "o"), "t\0notes\0fact\0o\0a");
    assert_eq!(
        deterministic_memory_id("0123456789abcdef0123456789abcdef"),
        "memory-0123456789abcdef01234567"
    );
}

fn proposed(list: &str) -> Vec<TopicProposal> {
    topics_in(&Json::parse(list))
}

#[test]
fn topics_only_grow() {
    let topics = proposed(
        r#"[{"topic":"开发","keywords":["记忆"],"importance":0.25,"session_ids":["s1"]}]"#,
    );
    assert_eq!(topics.len(), 1);
    let index = create_topic(&topics[0], &vec![text("做了架构")], NOW);
    assert_eq!(index.topic, "开发");
    assert_eq!(index.references.len(), 1);
    let more = proposed(
        r#"[{"topic":"开发","keywords":["架构"],"importance":0.5,"session_ids":["s2"]}]"#,
    );
    let merged = merge_topic(&index, &more[0], text("合并"), NOW + 1);
    assert_eq!(merged.references.len(), 2);
    assert_eq!(f64::from_bits(merged.importance), 0.5);
    assert!(merged.trigger_keywords.contains(&text("记忆")));
    assert!(merged.trigger_keywords.contains(&text("架构")));
    assert_eq!(merge_summary(Some("新"), "旧", "更多"), "新");
    assert_eq!(merge_summary(None, "旧", "更多"), "旧\n更多");
}

#[test]
fn filed_topics_are_kept() {
    let summary = |id: &str, fact: &str| SessionSummary {
        session_id: text(id),
        session_start: NOW,
        session_end: NOW,
        fact_summary: text(fact),
        tags: vec![],
        pitfalls: vec![],
        decisions: vec![],
        archived: false,
        superseded: false,
        created_at: NOW,
    };
    let mut summaries = vec![summary("s1", "甲"), summary("s2", "乙"), summary("s3", "丙")];
    let mut archive = ArchiveStore::new("/base");
    let mut g =
        GuardianEngine::new(GuardianConfig { check_interval_secs: 8, min_new_summaries: 2 });
    let file = |g: &mut GuardianEngine,
                archive: &mut ArchiveStore,
                summaries: &mut Vec<SessionSummary>,
                ids: &str,
                reply: Option<&str>| {
        let t = &proposed(&format!(r#"[{{"topic":"开发","session_ids":[{ids}]}}]"#))[0];
        let facts = facts_of_topic(summaries, t);
        let asked = filing_prompt(archive, t, &facts).is_some();
        g.file_topic(archive, summaries, t, &facts, reply, NOW);
        asked
    };
    assert!(!file(&mut g, &mut archive, &mut summaries, r#""s1""#, None));
    assert!(file(&mut g, &mut archive, &mut summaries, r#""s2""#, Some(" 合并 ")));
    assert!(!file(&mut g, &mut archive, &mut summaries, r#""s9""#, None));
    let index = archive.load_topic("开发").unwrap();
    assert_eq!(index.merged_summary, "合并");
    assert_eq!(index.references.len(), 2);
    let archived: Vec<bool> = summaries.iter().map(|s| s.archived).collect();
    assert_eq!(archived, vec![true, true, false]);
    assert_eq!(g.report.archived_count, 2);
    assert_eq!((g.report.new_topics, g.report.merged_topics), (1, 1));
}

#[test]
fn topics_are_read_from_replies() {
    let topics = classify_topics("结果: [{\"topic\":\"开发\",\"importance\":0.25}] 完");
    assert_eq!(topics.len(), 1);
    assert_eq!(f64::from_bits(topics[0].importance), 0.25);
    let plain = classify_topics("[{\"topic\":\"开发\"}, {\"x\":1}]");
    assert_eq!(plain.len(), 1);
    assert_eq!(f64::from_bits(plain[0].importance), 0.7);
    assert!(classify_topics("没有").is_empty());
    let asked_for = classify_topics(
        "[\n{\n\"topic\": \"主题\",\n\"keywords\": [\"甲\", \"乙\"],\n\"importance\": 0.8,\n\
         \"session_ids\": [\"s1\"]\n},\n{\"topic\": \"其他\", \"session_ids\": [\"s2\", \"s3\"]}\n]",
    );
    assert_eq!(asked_for.len(), 2);
    assert_eq!(asked_for[0].keywords, ["甲", "乙"]);
    assert_eq!(asked_for[0].importance, 0.8f64.to_bits());
    assert_eq!(asked_for[1].session_ids, ["s2", "s3"]);
}

#[test]
fn the_guardian_counts() {
    let mut g =
        GuardianEngine::new(GuardianConfig { check_interval_secs: 8, min_new_summaries: 2 });
    g.count_topic(true, 2);
    g.count_topic(false, 1);
    g.count_decay(4, 3);
    assert_eq!(g.report.archived_count, 3);
    assert_eq!(g.report.new_topics, 1);
    assert_eq!(g.report.merged_topics, 1);
    assert_eq!(g.report.pruned_count, 3);
}

#[test]
fn an_analysis_goes_on_after_the_facts() {
    let mut a = FourStepAnalyzer::new("s");
    a.accept(StepOutcome::Facts(text("事实")));
    let mut steps = 0;
    while a.step != AnalysisStep::Done {
        a.accept(StepOutcome::Failed);
        steps += 1;
    }
    assert_eq!(steps, 6);
    assert_eq!(a.report.fact_summary, "事实");
    let mut b = FourStepAnalyzer::new("s");
    b.accept(StepOutcome::Failed);
    assert_eq!(b.step, AnalysisStep::Done);
}

#[test]
fn saved_facts_are_read_back() {
    let file = save_fact_summary("清明节\"放假\"", NOW);
    assert_eq!(file.lines().count(), 4);
    assert!(file.contains("2026-04-04T00:00:00"));
    assert_eq!(load_fact_summary(&file), Some(text("清明节\"放假\"")));
    assert_eq!(load_fact_summary("坏的"), None);
}

#[test]
fn replies_of_the_steps_are_read() {
    assert_eq!(step1_fact_summary("事实").unwrap(), "事实");
    let profile = step2_user_profile(r#"{"explicit_preferences":["Rust"],"taboos":[]}"#).unwrap();
    assert_eq!(profile.explicit, vec!["Rust"]);
    assert!(step2_user_profile("坏").is_err());
    let pitfalls = step3_pitfall(
        r#"{"pitfalls":[{"category":"ToolFailure","description":"超时"}]}"#,
    )
    .unwrap();
    assert_eq!(pitfalls[0].category, PitfallCategory::ToolFailure);
    assert_eq!(parse_pitfall_category("什么"), PitfallCategory::Other);
    let rules = step4_evolution(r#"{"rules":[{"rule":"先测试","priority":4}]}"#).unwrap();
    assert_eq!(rules[0].priority, 4);
    assert!(step5_subconscious("坏").is_err());
    assert!(step6_summary("坏", "s", NOW).is_err());
    assert!(step7_eval_requirements("坏").is_err());
}

#[test]
fn preferences_are_written_in_quotes() {
    let mut history = ConversationHistory::new(1000);
    let state = BrainState {
        fact_summary: text("总结"),
        user_profile: UserProfile {
            explicit_preferences: vec![text("偏好 \"Rust\"")],
            implicit_preferences: vec![],
            taboos: vec![],
            habits: vec![],
        },
        active_pitfalls: vec![],
        evolution_rules: vec![],
        index_entries: vec![],
        snapshot_at: NOW,
    };
    history.clear_and_rebuild(&state, 0, NOW);
    assert!(history.messages()[0].text_content().contains(r#"["偏好 \"Rust\""]"#));
}

#[test]
fn errors_of_the_memory_have_words() {
    for e in [
        MemoryError::Io(text("词")),
        MemoryError::Serde(text("词")),
        MemoryError::PathNotFound(text("词")),
        MemoryError::EntryNotFound(text("词")),
        MemoryError::Bus(text("词")),
        MemoryError::ConsolidationFailed(text("词")),
        MemoryError::Conflict(text("词")),
        MemoryError::NotFound(text("词")),
    ] {
        assert!(e.message().contains("词"));
        assert_ne!(e.message(), "词");
    }
}
