use ai_brain::brains::{
    BrainContext, BrainId, BrainResponsePayload, CollaborationKind, CollaborationMessage,
    KnowledgeSource, MemoryEntry, MemoryLayer, MessagePriority,
};
use ai_brain::json::Json;
use ai_brain::llm::types::TokenUsage;
use ai_brain::memory::analyzer::existing_memories;
use ai_brain::memory::archive::ArchiveTopicIndex;
use ai_brain::memory::experience_pack::ExperiencePackLayer;
use ai_brain::memory::index_layer::{IndexEntry, IndexLayer, SourceRef};
use ai_brain::memory::keywords::extract_keywords;
use ai_brain::memory::memory_brain::{
    gather_all_candidates, load_subconscious_summary, read_recent_conversations, recalled_impressions, search_keywords,
    search_results, CandidateSources, MemoryBrain, MemoryBrainConfig,
};
use ai_brain::memory::types::{
    EvolutionRule, PitfallCategory, PitfallRecord, RawEntry, SessionSummary, SubconsciousEntry,
};

const NOW: i64 = 1_775_260_800_000;

fn text(s: &str) -> String {
    s.to_string()
}

fn bits(x: f64) -> u64 {
    x.to_bits()
}

fn make_brain() -> MemoryBrain {
    MemoryBrain::new(MemoryBrainConfig {
        base_dir: text("/base"),
        session_id: text("now"),
        max_keywords: 5,
    })
}

fn impression(id: &str, topic: &str) -> SubconsciousEntry {
    SubconsciousEntry {
        id: text(id),
        topic: text(topic),
        impression: text("喜欢"),
        trigger_keywords: vec![text("茶"), text("酒")],
        importance: bits(0.5),
        created_at: 7,
    }
}

fn summary(id: &str, fact: &str) -> SessionSummary {
    SessionSummary {
        session_id: text(id),
        session_start: 1,
        session_end: 2,
        fact_summary: text(fact),
        tags: vec![text("tag")],
        pitfalls: vec![text("p1"), text("p2")],
        decisions: vec![text("d1"), text("d2")],
        archived: true,
        superseded: false,
        created_at: 3,
    }
}

fn raw(content: &str, timestamp: i64) -> RawEntry {
    RawEntry {
        id: text("raw-1"),
        content: text(content),
        raw_input: text(content),
        context: BrainContext {
            current_date: text("2026-04-04"),
            cwd: text("/test"),
            git_branch: None,
            platform: text("linux"),
        },
        timestamp,
    }
}

fn rule(id: &str, priority: u8) -> EvolutionRule {
    EvolutionRule {
        id: text(id),
        rule: text("先读再写"),
        source_pitfall_ids: vec![],
        priority,
        created_at: 4,
        superseded: false,
    }
}

fn sources() -> CandidateSources {
    CandidateSources {
        impressions: vec![impression("sc-1", "饮料")],
        topics: vec![
            (
                text("旅行"),
                Some(ArchiveTopicIndex {
                    topic: text("旅行"),
                    trigger_keywords: vec![],
                    merged_summary: text("去过宁波"),
                    importance: bits(0.6),
                    references: vec![],
                    updated_at: 5,
                    created_at: 6,
                }),
            ),
            (text("丢失"), None),
        ],
        summaries: vec![summary("s1", "事实")],
        fact_summary: Some(text("已知")),
        pitfalls: vec![PitfallRecord {
            id: text("pit-1"),
            category: PitfallCategory::ToolFailure,
            description: text("超时"),
            user_correction: None,
            occurred_at: 8,
            occurrence_count: 1,
            superseded: false,
        }],
        rules: vec![rule("low", 2), rule("high", 3)],
        sessions: vec![
            (text("a"), Some(vec![raw("一", 1), raw("二", 2), raw("三", 3), raw("四", 4)])),
            (text("now"), Some(vec![raw("此刻", 9)])),
            (text("b"), Some(vec![])),
            (text("c"), None),
        ],
    }
}

fn ids(entries: &[MemoryEntry]) -> Vec<&str> {
    entries.iter().map(|e| e.id.as_str()).collect()
}

#[test]
fn everything_that_is_remembered_can_be_recalled() {
    let brain = make_brain();
    let found = brain.recall_for_context(&sources(), "宁波", 20, NOW);
    assert_eq!(
        ids(&found),
        [
            "archive-旅行",
            "sc-1",
            "summary-s1",
            "fact-summary",
            "pit-1",
            "high",
            "raw-a-head",
            "raw-a-tail"
        ]
    );
    assert_eq!(found[0].content, "[归档] 旅行 — 去过宁波");
    assert_eq!(found[1].content, "[印象] 饮料 — 喜欢");
    assert_eq!(found[2].content, "[会话] 事实 — d1; d2");
    assert_eq!(found[2].importance, bits(0.7));
    assert_eq!(found[3].source.memory_id, "fact_summary");
    assert_eq!(found[4].content, "[踩坑] 超时");
    assert_eq!(found[5].content, "[规则] 先读再写");
    assert_eq!(found[6].content, "[对话开头] 一");
    assert_eq!(found[7].content, "[对话结尾] 四 | 三 | 二");
    assert_eq!(found[7].created_at, 4);
    let few = brain.recall_for_context(&sources(), "宁波", 2, NOW);
    assert_eq!(ids(&few), ["archive-旅行", "sc-1"]);
    assert_eq!(recalled_impressions(&few), ["sc-1"]);
}

#[test]
fn searches_put_together_what_they_find() {
    assert_eq!(search_keywords("茶, 酒；  水、"), ["茶", "酒", "水"]);
    let said = MemoryEntry {
        id: text("raw-x"),
        content: text("x"),
        tags: vec![],
        layer: MemoryLayer::Raw,
        importance: bits(0.4),
        source: KnowledgeSource { memory_id: text("raw-x"), layer: MemoryLayer::Raw },
        confidence: bits(1.0),
        reference_count: 0,
        created_at: 1,
        last_accessed: 1,
        consolidated: false,
    };
    let impressions = vec![impression("sc-1", "饮料")];
    let summaries = vec![summary("s1", "事实")];
    let all = search_results(&impressions, &vec![said], &summaries, 10, NOW);
    assert_eq!(ids(&all), ["sc-1", "raw-x", "summary-s1"]);
    assert_eq!(all[2].content, "[会话摘要] 事实 | 决策: d1; d2 | 踩坑: p1; p2");
    assert!(all[2].consolidated);
    let one = search_results(&impressions, &vec![], &summaries, 1, NOW);
    assert_eq!(ids(&one), ["sc-1"]);
}

#[test]
fn what_was_said_last_is_read_as_json() {
    let texts = read_recent_conversations(&vec![raw("甲", 0), raw("乙", 1000), raw("丙", 2000)], 2);
    assert_eq!(
        texts,
        [
            "{\"content\":\"乙\",\"role\":\"user\",\"timestamp\":\"1970-01-01T00:00:01+00:00\"}",
            "{\"content\":\"丙\",\"role\":\"user\",\"timestamp\":\"1970-01-01T00:00:02+00:00\"}",
        ]
    );
}

#[test]
fn impressions_are_told_line_by_line() {
    assert_eq!(load_subconscious_summary(&vec![]), None);
    let lines = load_subconscious_summary(&vec![impression("a", "x"), impression("b", "y")]);
    assert_eq!(
        lines.as_deref(),
        Some("• x (触发词: 茶、酒) — 喜欢\n• y (触发词: 茶、酒) — 喜欢")
    );
}

fn message(kind: CollaborationKind) -> CollaborationMessage {
    CollaborationMessage {
        id: text("m"),
        from: BrainId::master(),
        to: vec![BrainId::memory()],
        correlation_id: None,
        hop_count: 0,
        priority: MessagePriority::Normal,
        content: text("茶 酒，水"),
        kind,
    }
}

#[test]
fn only_requests_are_answered() {
    let brain = make_brain();
    let query = brain.handle_collaboration(&message(CollaborationKind::Request)).unwrap();
    assert_eq!(query.keywords, ["茶", "酒", "水"]);
    assert_eq!(query.max_results, 5);
    assert_eq!(query.min_importance, bits(0.2));
    assert!(brain.handle_collaboration(&message(CollaborationKind::Response)).is_none());
    assert!(brain.handle_collaboration(&message(CollaborationKind::Dispatch)).is_none());

    assert!(brain.answer_request(None, NOW).is_none());
    let nothing = brain.answer_request(Some(vec![]), NOW).unwrap();
    assert_eq!(nothing.relevance, bits(0.1));
    let found = brain.recall_for_context(&sources(), "宁波", 1, NOW);
    let answer = brain.answer_request(Some(found), NOW).unwrap();
    assert_eq!(answer.relevance, bits(0.8));
    assert_eq!(answer.confidence, bits(0.7));
    assert!(matches!(answer.result, BrainResponsePayload::MemoryRecall(m) if m.len() == 1));
}

#[test]
fn the_memory_lies_below_the_home_directory() {
    let config = MemoryBrainConfig::below_home(Some("/home/u"), 12);
    assert_eq!(config.base_dir, "/home/u/.ai-brain");
    assert_eq!(config.session_id, "sess-12");
    assert_eq!(config.max_keywords, 5);
    assert_eq!(MemoryBrainConfig::below_home(None, -1).base_dir, "/tmp/.ai-brain");
    let mut brain = MemoryBrain::new(config);
    assert!(!brain.has_llm());
    brain.set_llm();
    assert!(brain.has_llm());
}

#[test]
fn summaries_lead_back_to_their_entries_once() {
    let mut layer = IndexLayer::new();
    for (id, entry_ids) in [("i1", ["e1", "e2"]), ("i2", ["e2", "e3"])] {
        layer.store(&IndexEntry {
            id: text(id),
            summary: text("s"),
            category: text("c"),
            tags: vec![],
            importance: bits(0.5),
            source_refs: vec![SourceRef {
                session_file: text("f"),
                line_range: (0, 1),
                entry_ids: entry_ids.iter().map(|s| s.to_string()).collect(),
            }],
            created_at: 1,
            last_accessed: 1,
            recall_count: 0,
        });
    }
    let mut found = layer.collect_all_referenced_entry_ids();
    found.sort();
    assert_eq!(found, ["e1", "e2", "e3"]);
    assert!(ExperiencePackLayer::new().collect_all_referenced_index_ids().is_empty());
}

#[test]
fn tokens_of_the_cache_count_as_input() {
    let usage = TokenUsage {
        prompt_tokens: 1,
        completion_tokens: 2,
        total_tokens: 3,
        cache_creation_input_tokens: 4,
        cache_read_input_tokens: 8,
    };
    assert_eq!(usage.total_input_tokens(), 13);
}

#[test]
fn numbers_are_written_as_they_are_read() {
    for s in ["{\"t\":1.0}", "{\"t\":0.7}", "[-3,18446744073709551615,1e-7]", "2.5e40"] {
        let read = Json::parse(s).unwrap();
        assert_eq!(Json::parse(&read.to_text()), Ok(read));
    }
    assert_eq!(Json::parse("[1.0,0.70]").unwrap().to_text(), "[1.0,0.7]");
    assert_eq!(Json::parse("0.8").unwrap().as_double_bits(), Some(bits(0.8)));
    assert_eq!(Json::parse("3").unwrap().as_double_bits(), Some(bits(3.0)));
    assert_eq!(Json::parse("null").unwrap().as_double_bits(), None);
}

#[test]
fn keywords_are_distinct_parts_of_the_text() {
    let content = "请问 Rust rust 清明节假期安排, 什么 的 a";
    let all = extract_keywords(content, 100);
    assert_eq!(all[..4], ["请问", "Rust", "清明节假", "明节假期"]);
    for (i, w) in all.iter().enumerate() {
        assert!(!w.is_empty() && content.contains(w.as_str()));
        assert!(!all[..i].contains(w));
        assert!(!["什么", "的", "可以"].contains(&w.as_str()));
    }
    for n in 0..all.len() {
        assert_eq!(extract_keywords(content, n), all[..n]);
    }
}

#[test]
fn what_was_superseded_is_not_recalled() {
    let mut all = sources();
    let mut old_summary = summary("s0", "旧事");
    old_summary.superseded = true;
    all.summaries.insert(0, old_summary);
    let pitfall = |id: &str, occurrence_count: u32, superseded: bool| PitfallRecord {
        id: text(id),
        category: PitfallCategory::ToolFailure,
        description: text("旧坑"),
        user_correction: None,
        occurred_at: 8,
        occurrence_count,
        superseded,
    };
    all.pitfalls.insert(0, pitfall("pit-old", 2, true));
    all.pitfalls.insert(0, pitfall("pit-never", 0, false));
    let mut old_rule = rule("old", 5);
    old_rule.superseded = true;
    all.rules.insert(0, old_rule);
    all.rules.push(rule("higher", 4));
    all.rules.push(rule("high2", 3));

    let found = gather_all_candidates(&all, "now", NOW);
    assert_eq!(
        ids(&found),
        [
            "sc-1",
            "archive-旅行",
            "summary-s1",
            "fact-summary",
            "pit-1",
            "higher",
            "high",
            "high2",
            "raw-a-head",
            "raw-a-tail"
        ]
    );

    let mut clean = sources();
    clean.rules.push(rule("higher", 4));
    clean.rules.push(rule("high2", 3));
    assert_eq!(gather_all_candidates(&clean, "now", NOW), found);
    let brain = make_brain();
    assert_eq!(
        brain.recall_for_context(&all, "旧坑 旧事", 20, NOW),
        brain.recall_for_context(&clean, "旧坑 旧事", 20, NOW)
    );

    let memories = existing_memories(&all.summaries, &all.pitfalls, &all.rules);
    let kept: Vec<&str> = memories.iter().map(|m| m.id.as_str()).collect();
    assert_eq!(kept, ["s1", "pit-1", "higher", "high", "high2", "low"]);
}

#[test]
fn there_is_room_for_so_many_candidates() {
    let mut all = sources();
    for i in 0..20 {
        all.impressions.push(impression(&format!("sc-x{i}"), "x"));
        all.summaries.push(summary(&format!("x{i}"), "x"));
        all.rules.push(rule(&format!("evo-x{i}"), 5));
        all.sessions.push((format!("x{i:02}"), Some(vec![raw("x", 1)])));
    }
    all.topics = (0..20)
        .map(|i| {
            let index = ArchiveTopicIndex {
                topic: format!("t{i}"),
                trigger_keywords: vec![],
                merged_summary: text("x"),
                importance: bits(0.6),
                references: vec![],
                updated_at: 5,
                created_at: 6,
            };
            (format!("t{i}"), Some(index))
        })
        .collect();
    all.pitfalls = (0..20)
        .map(|i| PitfallRecord {
            id: format!("pit-x{i}"),
            category: PitfallCategory::ToolFailure,
            description: text("x"),
            user_correction: None,
            occurred_at: 8,
            occurrence_count: 1,
            superseded: false,
        })
        .collect();
    let found = gather_all_candidates(&all, "x19", NOW);
    assert_eq!(found.len(), 42);
    assert_eq!(found[36].id, "raw-x18-head");
    assert!(found.iter().all(|e| !e.id.contains("x19")));
}
