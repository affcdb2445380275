use ai_brain::brains::{
    BrainContext, BrainId, BrainResponse, BrainResponsePayload, BroadcastMessage, FastThinkResult,
    SlowThinkResult,
};
use ai_brain::master::error::MasterError;
use ai_brain::master::master::{dispatch_slow_think, infer_task_type, MasterBrain};
use ai_brain::master::weight_engine::{
    BrainWeight, Change, CoActivationMatrix, WeightChange, WeightEngine,
};

const NOW: i64 = 1_775_260_800_000;
const DEFAULT: f64 = 0.5;

fn bits(x: f64) -> u64 {
    x.to_bits()
}

fn engine(initial: Vec<(BrainId, f64)>) -> WeightEngine {
    let initial = initial
        .into_iter()
        .map(|(brain, w)| BrainWeight { brain, weight: bits(w) })
        .collect();
    WeightEngine::new(initial, bits(DEFAULT))
}

fn weight(engine: &WeightEngine, id: &BrainId) -> f64 {
    f64::from_bits(engine.get(id))
}

fn apply(engine: &mut WeightEngine, changes: Vec<WeightChange>) {
    for c in changes {
        let old = weight(engine, &c.brain);
        let new = match c.change {
            Change::Strengthen(d) => old + f64::from_bits(d),
            Change::Weaken(d) => old - f64::from_bits(d),
        };
        engine.set_weight(&c.brain, bits(new));
    }
}

#[test]
fn test_weight_engine_new() {
    let engine = engine(vec![(BrainId::reasoning(), 0.5), (BrainId::memory(), 0.8)]);
    assert!((weight(&engine, &BrainId::reasoning()) - 0.5).abs() < f64::EPSILON);
    assert!((weight(&engine, &BrainId::memory()) - 0.8).abs() < f64::EPSILON);
}

#[test]
fn test_sort_by_weight() {
    let engine = engine(vec![
        (BrainId::reasoning(), 0.3),
        (BrainId::memory(), 0.9),
        (BrainId::motor(), 0.5),
    ]);
    let sorted =
        engine.sort_by_weight(&vec![BrainId::reasoning(), BrainId::motor(), BrainId::memory()]);

    assert_eq!(sorted[0], BrainId::memory());
    assert_eq!(sorted[1], BrainId::motor());
    assert_eq!(sorted[2], BrainId::reasoning());
}

#[test]
fn test_record_performance_strengthen() {
    let mut engine = engine(vec![(BrainId::reasoning(), 0.5)]);
    let changes = engine.record_performance(
        &BrainId::reasoning(),
        true,
        bits(0.9),
        bits(0.7),
        NOW,
        bits(0.9),
    );
    apply(&mut engine, changes);

    let w = weight(&engine, &BrainId::reasoning());
    assert!((w - 0.65).abs() < f64::EPSILON);
}

#[test]
fn test_record_performance_weaken() {
    let mut engine = engine(vec![(BrainId::reasoning(), 0.5)]);
    let changes = engine.record_performance(
        &BrainId::reasoning(),
        false,
        bits(0.3),
        bits(0.7),
        NOW,
        bits(0.3),
    );
    apply(&mut engine, changes);

    let w = weight(&engine, &BrainId::reasoning());
    assert!((w - 0.45).abs() < f64::EPSILON);
}

#[test]
fn test_task_type_stats() {
    let mut engine = engine(vec![(BrainId::reasoning(), 0.5)]);
    let id = BrainId::reasoning();
    let kind = "code_generation";
    let threshold = bits(0.7);
    engine.record_performance_with_task_type(&id, true, bits(0.9), threshold, kind, NOW, bits(0.9));
    engine.record_performance_with_task_type(&id, true, bits(0.8), threshold, kind, NOW, bits(0.87));
    engine.record_performance_with_task_type(&id, false, bits(0.3), threshold, kind, NOW, bits(0.699));

    let stats = engine.get_task_stats("code_generation", &BrainId::reasoning()).unwrap();
    assert_eq!(stats.total_tasks, 3);
    assert_eq!(stats.relevant_count, 2);
    assert_eq!(stats.avg_confidence, bits(0.699));
    assert!(engine.get_task_stats("general", &BrainId::reasoning()).is_none());
}

#[test]
fn test_co_activation_basic() {
    let mut engine = engine(vec![
        (BrainId::reasoning(), 0.5),
        (BrainId::memory(), 0.5),
        (BrainId::motor(), 0.5),
    ]);

    let active = vec![BrainId::reasoning(), BrainId::memory()];
    for _ in 0..3 {
        let changes = engine.record_round_co_activation(&active);
        apply(&mut engine, changes);
    }

    let co = engine.get_co_activation(&BrainId::reasoning(), &BrainId::memory());
    assert!(co >= 3);
    assert_eq!(co, engine.get_co_activation(&BrainId::memory(), &BrainId::reasoning()));
}

#[test]
fn test_hebbian_weight_enhancement() {
    let mut engine = engine(vec![(BrainId::reasoning(), 0.5), (BrainId::memory(), 0.5)]);

    let active = vec![BrainId::reasoning(), BrainId::memory()];
    for _ in 0..4 {
        let changes = engine.record_round_co_activation(&active);
        apply(&mut engine, changes);
    }

    let r = weight(&engine, &BrainId::reasoning());
    let m = weight(&engine, &BrainId::memory());
    assert!(r > 0.5);
    assert!(m > 0.5);
}

#[test]
fn test_history_trimming() {
    let mut engine = engine(vec![(BrainId::reasoning(), 0.5)]);
    engine.max_history = 10;

    for _ in 0..20 {
        engine.record_performance(
            &BrainId::reasoning(),
            true,
            bits(0.8),
            bits(0.7),
            NOW,
            bits(0.8),
        );
        assert!(engine.history().len() <= 10);
    }
}

#[test]
fn test_co_activation_matrix_top_partners() {
    let mut matrix = CoActivationMatrix::new();
    let active = vec![BrainId::reasoning(), BrainId::memory(), BrainId::motor()];
    for _ in 0..5 {
        matrix.record_co_activation(&active);
    }

    let partners = matrix.top_partners(&BrainId::reasoning(), 3);
    assert_eq!(partners.len(), 2);
    assert!(partners.iter().all(|(_, c)| *c == 5));
}

fn message(content: &str, raw_input: &str) -> BroadcastMessage {
    BroadcastMessage {
        content: content.to_string(),
        raw_input: raw_input.to_string(),
        context: BrainContext {
            current_date: "2026-04-04".to_string(),
            cwd: "/test".to_string(),
            git_branch: None,
            platform: "darwin".to_string(),
        },
        timestamp: NOW,
    }
}

fn fast(from: BrainId, summary: &str, need_slow_think: bool) -> BrainResponse {
    BrainResponse {
        from,
        relevance: bits(0.9),
        confidence: bits(0.85),
        result: BrainResponsePayload::FastThink(FastThinkResult {
            relevant: true,
            confidence: bits(0.85),
            summary: Some(summary.to_string()),
            suggested_tools: vec![],
            matched_experience: None,
        }),
        need_slow_think,
        timestamp: NOW,
    }
}

#[test]
fn test_master_run_once() {
    let mut master = MasterBrain::new(engine(vec![]));
    master.begin(&message("用户查询节假日", "这个月有节假日吗？"), NOW);
    master.receive_fast(fast(BrainId::reasoning(), "根据记忆，4月有清明节(4月4-6日)", false));
    assert!(master.begin_slow().is_empty());
    let (output, _) = master.finish(bits(0.7), &vec![bits(0.85)], NOW + 40).unwrap();

    assert!(output.answer.contains("清明节"));
    assert!(output.participating_brains.contains(&BrainId::reasoning()));
    assert!(output.confidences.iter().map(|c| f64::from_bits(*c)).sum::<f64>() > 0.0);
    assert_eq!(output.duration_ms, 40);
    assert!(master.current_task().is_none());
}

#[test]
fn test_master_no_relevant_responses() {
    let mut master = MasterBrain::new(engine(vec![]));
    master.begin(&message("测试", "测试输入"), NOW);
    master.receive_fast(BrainResponse {
        from: BrainId::motor(),
        relevance: bits(0.1),
        confidence: bits(0.1),
        result: BrainResponsePayload::NotRelevant {
            reason: "not related to tool execution".to_string(),
        },
        need_slow_think: false,
        timestamp: NOW,
    });
    master.begin_slow();
    let answers = master.answers().len();
    let (output, _) = master.finish(bits(0.7), &vec![bits(0.1); answers], NOW).unwrap();
    assert!(output.answer.contains("没有副脑给出相关响应"));
    assert!(output.participating_brains.is_empty());
}

#[test]
fn second_thoughts_take_the_place_of_first_ones() {
    let mut master = MasterBrain::new(engine(vec![]));
    let msg = message("修复代码", "修复代码");
    master.begin(&msg, NOW);
    master.receive_fast(fast(BrainId::reasoning(), "初步看法", true));
    let targets = master.begin_slow();
    assert_eq!(targets, vec![BrainId::reasoning()]);
    let (to_memory, tasks) = dispatch_slow_think(&targets, &msg, NOW);
    assert!(to_memory.is_empty());
    assert_eq!(tasks.len(), 1);
    assert_eq!(tasks[0].to, vec![BrainId::reasoning()]);
    master.dispatched();
    let done = master.receive_slow(BrainResponse {
        from: BrainId::reasoning(),
        relevance: bits(0.9),
        confidence: bits(0.9),
        result: BrainResponsePayload::SlowThink(SlowThinkResult {
            conclusion: "深入结论".to_string(),
            reasoning_path: vec![],
            confidence: bits(0.9),
            sources: vec![],
            new_experience: None,
        }),
        need_slow_think: false,
        timestamp: NOW,
    });
    assert!(done);
    let answers = master.answers();
    assert_eq!(answers.len(), 1);
    let (output, _) = master.finish(bits(0.7), &vec![bits(0.9)], NOW).unwrap();
    assert!(output.answer.contains("深入结论"));
    assert!(!output.answer.contains("初步看法"));
}

#[test]
fn tasks_have_kinds() {
    for (content, kind) in [
        ("调试这段", "code_debugging"),
        ("一个BUG", "code_debugging"),
        ("查找文件", "file_search"),
        ("创建它", "code_editing"),
        ("运行它", "command_execution"),
        ("你好", "general"),
    ] {
        assert_eq!(infer_task_type(content), kind);
    }
}

#[test]
fn errors_have_words() {
    assert_eq!(MasterError::BusError("断".to_string()).message(), "bus error: 断");
    assert_eq!(
        MasterError::NoTaskContext.message(),
        "no task context — run_loop called without broadcast"
    );
    assert_eq!(
        MasterError::FastThinkTimeout("5s".to_string()).message(),
        "fast think timeout — no responses within 5s"
    );
    assert_eq!(MasterError::NoRelevantResponses.message(), "no relevant brain responses");
}

#[test]
fn all_weights_are_told() {
    let e = engine(vec![(BrainId::memory(), 0.8), (BrainId::motor(), 0.4)]);
    let mut all: Vec<(&str, f64)> =
        e.all_weights().iter().map(|w| (w.brain.name.as_str(), f64::from_bits(w.weight))).collect();
    all.sort_by(|a, b| a.0.cmp(b.0));
    assert_eq!(all, [("memory", 0.8), ("motor", 0.4)]);
    let count = e.all_weights().len();
    assert_eq!(MasterBrain::new(e).get_weights().len(), count);
}

#[test]
fn weights_stay_within_their_range() {
    let mut e = engine(vec![(BrainId::memory(), 0.5)]);
    for (given, kept) in [(0.0, 0.1), (-0.0, 0.1), (-3.0, 0.1), (0.05, 0.1), (0.1, 0.1), (0.7, 0.7)] {
        e.set_weight(&BrainId::memory(), bits(given));
        assert_eq!(weight(&e, &BrainId::memory()), kept);
    }
    for given in [1.0, 1.5, f64::INFINITY] {
        e.set_weight(&BrainId::memory(), bits(given));
        assert_eq!(weight(&e, &BrainId::memory()), 1.0);
    }
}
