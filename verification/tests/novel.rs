use ai_brain::json::Json;
use ai_brain::memory::novel::consistency::check_consistency;
use ai_brain::memory::novel::lifecycle::{
    NovelLifecycleActor, NovelLifecycleStore, NovelPublicationRecord, NovelPublicationStatus,
    NovelTaskCheckpoint, NovelTaskEvent, NovelTaskPhase,
};
use ai_brain::memory::novel::schema::{
    CanonStatus, ConflictRecord, ExperienceCandidate, NovelFact, NovelFactKind, NovelMemoryDelta,
    NovelProject, NovelProjectProgress, NovelProjectStatus, NovelTaskType, ProposedFact,
    StateChange,
};
use ai_brain::memory::novel::store::{mirror_to_graph, NovelMemoryStore};

const NOW: i64 = 1_775_260_800_000;

fn text(s: &str) -> String {
    s.to_string()
}

fn json(s: &str) -> Json {
    Json::parse(s).unwrap()
}

fn value(j: &Json) -> serde_json::Value {
    serde_json::from_str(&j.to_text()).unwrap()
}

fn project(id: &str, title: &str) -> NovelProject {
    NovelProject::new(id, title, NOW)
}

#[test]
fn reports_unresolved_conflict_and_overdue_foreshadowing() {
    let mut project = project("dark-city", "暗城");
    project.current_chapter = Some(20);
    project.conflicts.push(ConflictRecord {
        conflict_id: text("conflict-1"),
        subject_key: text("character:linmo:location"),
        existing_fact_id: text("old"),
        proposed_fact_id: text("new"),
        reason: text("地点冲突"),
        created_at: 1,
        resolved: false,
        resolution: None,
    });
    project.facts.push(NovelFact {
        fact_id: text("foreshadow-key"),
        kind: NovelFactKind::Foreshadowing,
        subject_key: text("foreshadow:key"),
        title: text("铜钥匙"),
        summary: text("铜钥匙来源未揭示"),
        data: json(r#"{"target_chapter": 10}"#),
        status: CanonStatus::Confirmed,
        branch_id: text("main"),
        valid_from_chapter: Some(1),
        valid_to_chapter: None,
        source_refs: vec![],
        confidence: 0.9f64.to_bits(),
        reinforcements: vec![],
        revision: 1,
        created_at: NOW,
        updated_at: NOW,
    });

    let report = check_consistency(&project);
    assert!(report.has_errors());
    assert!(report.issues.iter().any(|issue| issue.code == "overdue_foreshadowing"));
}

fn checkpoint(
    task_id: &str,
    project_id: &str,
    phase: NovelTaskPhase,
    updated_at: i64,
) -> NovelTaskCheckpoint {
    NovelTaskCheckpoint {
        task_id: text(task_id),
        project_id: text(project_id),
        phase,
        draft_version: 1,
        canon_revision: 0,
        output_path: text("chapters/0001.md"),
        state: json(r#"{"summary": "working"}"#),
        updated_at,
    }
}

fn publication(id: &str, project_id: &str) -> NovelPublicationRecord {
    let mut d = delta(project_id, 0, Vec::new());
    d.source_ref = format!("chapters/{id}.md");
    NovelPublicationRecord::pending(
        id,
        &format!("task-{id}"),
        1,
        &format!("chapters/{id}.md"),
        &format!("sha256-{id}"),
        d,
        NOW,
    )
}

#[test]
fn task_event_and_checkpoint_roundtrip() {
    let mut store = NovelLifecycleStore::new("/base");
    let event = NovelTaskEvent {
        event_id: text("event-1"),
        task_id: text("task-1"),
        project_id: text("project-1"),
        actor: NovelLifecycleActor::Main,
        phase: NovelTaskPhase::Preparing,
        summary: text("任务合同已创建"),
        details: json(r#"{"expected_revision": 0}"#),
        created_at: 10,
    };
    let saved_checkpoint =
        checkpoint("task-1", "project-1", NovelTaskPhase::AwaitingMainReview, 20);

    store.append_event(&event).unwrap();
    store.save_checkpoint(&saved_checkpoint).unwrap();

    let events = store.load_events("task-1").unwrap();
    assert_eq!(events.len(), 1);
    assert_eq!(events[0].event_id, "event-1");
    assert_eq!(value(&events[0].details)["expected_revision"], 0);
    let loaded = store.load_checkpoint("task-1").unwrap().unwrap();
    assert_eq!(loaded.phase, NovelTaskPhase::AwaitingMainReview);
    assert_eq!(value(&loaded.state)["summary"], "working");

    let replacement = checkpoint("task-1", "project-1", NovelTaskPhase::Completed, 30);
    store.save_checkpoint(&replacement).unwrap();
    let loaded = store.load_checkpoint("task-1").unwrap().unwrap();
    assert_eq!(loaded.phase, NovelTaskPhase::Completed);
    assert_eq!(loaded.updated_at, 30);
}

#[test]
fn active_checkpoint_filters_terminal_tasks_and_returns_latest() {
    let mut store = NovelLifecycleStore::new("/base");
    store.save_checkpoint(&checkpoint("task-old", "project-1", NovelTaskPhase::Drafting, 10)).unwrap();
    store
        .save_checkpoint(&checkpoint("task-complete", "project-1", NovelTaskPhase::Completed, 30))
        .unwrap();
    store
        .save_checkpoint(&checkpoint(
            "task-current",
            "project-1",
            NovelTaskPhase::AwaitingUserDecision,
            20,
        ))
        .unwrap();

    let active = store.active_checkpoint_for_project("project-1").unwrap().unwrap();
    assert_eq!(active.task_id, "task-current");
    assert_eq!(active.phase, NovelTaskPhase::AwaitingUserDecision);
}

#[test]
fn project_allows_only_one_pending_publication() {
    let mut store = NovelLifecycleStore::new("/base");
    let first = publication("publication-1", "project-1");
    let second = publication("publication-2", "project-1");

    store.begin_publication(&first).unwrap();
    let error = store.begin_publication(&second).unwrap_err();
    assert!(error.message().contains("已有未完成"));

    let mut first = store.load_publication("publication-1").unwrap();
    first.status = NovelPublicationStatus::Aborted;
    store.save_publication(&first).unwrap();
    store.begin_publication(&second).unwrap();
    assert_eq!(store.pending_publications().len(), 1);
}

fn fact(id: &str, subject: &str, summary: &str) -> ProposedFact {
    ProposedFact {
        fact_id: text(id),
        kind: NovelFactKind::CharacterState,
        subject_key: text(subject),
        title: text(subject),
        summary: text(summary),
        data: Json::Null,
        status: CanonStatus::Confirmed,
        valid_from_chapter: Some(1),
        valid_to_chapter: None,
        source_refs: Vec::new(),
        confidence: 0.9f64.to_bits(),
    }
}

fn delta(project_id: &str, revision: u64, facts: Vec<ProposedFact>) -> NovelMemoryDelta {
    NovelMemoryDelta {
        project_id: text(project_id),
        branch_id: text("main"),
        expected_revision: revision,
        task_type: NovelTaskType::Body,
        source_ref: text("chapters/0001.md"),
        progress: None,
        proposed_facts: facts,
        state_changes: Vec::new(),
        plot_updates: Vec::new(),
        foreshadowing_updates: Vec::new(),
        feedback: Vec::new(),
        experience_candidates: Vec::new(),
    }
}

fn store_with_dark_city() -> NovelMemoryStore {
    let mut store = NovelMemoryStore::new("/base", None);
    store.create_project(&project("dark-city", "暗城")).unwrap();
    store
}

#[test]
fn project_is_isolated_and_delta_is_committed() {
    let mut store = NovelMemoryStore::new("/base", None);
    let mut project = project("dark-city", "暗城");
    project.status = NovelProjectStatus::Writing;
    store.create_project(&project).unwrap();

    let report = store
        .commit_delta(
            &delta(
                "dark-city",
                0,
                vec![fact("linmo-location-1", "character:linmo:location", "林默位于旧港")],
            ),
            NOW,
        )
        .unwrap();
    assert_eq!(report.new_revision, 1);
    assert_eq!(report.accepted_fact_ids, vec!["linmo-location-1"]);
    assert_eq!(store.load_project("dark-city").unwrap().facts.len(), 1);
}

#[test]
fn conflicting_canon_is_reported_not_overwritten() {
    let mut store = store_with_dark_city();
    store
        .commit_delta(
            &delta(
                "dark-city",
                0,
                vec![fact("location-a", "character:linmo:location", "林默位于旧港")],
            ),
            NOW,
        )
        .unwrap();
    let report = store
        .commit_delta(
            &delta(
                "dark-city",
                1,
                vec![fact("location-b", "character:linmo:location", "林默位于王城")],
            ),
            NOW,
        )
        .unwrap();
    assert!(report.accepted_fact_ids.is_empty());
    assert_eq!(report.conflicts.len(), 1);
    assert_eq!(report.new_revision, 1);
    let project = store.load_project("dark-city").unwrap();
    assert_eq!(project.facts.len(), 1);
    assert_eq!(project.facts[0].summary, "林默位于旧港");
    assert_eq!(project.conflicts.len(), 1);
    assert!(!project.conflicts[0].resolved);
    store
        .resolve_conflict("dark-city", &project.conflicts[0].conflict_id, "保留旧港设定", NOW)
        .unwrap();
    assert!(store.load_project("dark-city").unwrap().conflicts[0].resolved);
}

#[test]
fn stale_revision_is_rejected() {
    let mut store = store_with_dark_city();
    let error = store.commit_delta(&delta("dark-city", 3, Vec::new()), NOW).unwrap_err();
    assert!(error.message().contains("revision"));
}

#[test]
fn explicit_state_change_supersedes_old_canon() {
    let mut store = store_with_dark_city();
    store
        .commit_delta(
            &delta(
                "dark-city",
                0,
                vec![fact("location-a", "character:linmo:location", "林默位于旧港")],
            ),
            NOW,
        )
        .unwrap();
    let mut update = delta("dark-city", 1, Vec::new());
    update.state_changes.push(StateChange {
        fact: fact("location-b", "character:linmo:location", "林默抵达王城"),
        supersedes_fact_id: Some(text("location-a")),
    });
    let report = store.commit_delta(&update, NOW).unwrap();
    assert_eq!(report.accepted_fact_ids, vec!["location-b"]);
    assert!(report.conflicts.is_empty());
    let project = store.load_project("dark-city").unwrap();
    assert_eq!(project.facts.len(), 2);
    assert_eq!(project.facts[0].status, CanonStatus::Superseded);
    assert_eq!(project.facts[1].status, CanonStatus::Confirmed);
}

#[test]
fn progress_is_committed_with_revision() {
    let mut store = store_with_dark_city();
    let mut update = delta("dark-city", 0, Vec::new());
    update.progress = Some(NovelProjectProgress {
        current_volume: Some(text("第一卷")),
        current_chapter: Some(12),
    });
    let report = store.commit_delta(&update, NOW).unwrap();
    assert_eq!(report.new_revision, 1);
    let project = store.load_project("dark-city").unwrap();
    assert_eq!(project.current_volume.as_deref(), Some("第一卷"));
    assert_eq!(project.current_chapter, Some(12));
}

fn confidence(fact: &NovelFact) -> f64 {
    fact.reinforcements.iter().fold(f64::from_bits(fact.confidence), |c, r| {
        1.0 - (1.0 - c) * (1.0 - f64::from_bits(*r) * 0.25)
    })
}

#[test]
fn repeated_experience_is_promoted_and_reinforced() {
    let mut store = store_with_dark_city();
    let mut experience = fact("style-short-dialogue-1", "style:dialogue:length", "对白保持简短");
    experience.kind = NovelFactKind::WritingExperience;
    experience.status = CanonStatus::Draft;
    let mut first = delta("dark-city", 0, Vec::new());
    first.experience_candidates.push(ExperienceCandidate { fact: experience, evidence_count: 2 });
    store.commit_delta(&first, NOW).unwrap();
    let project = store.load_project("dark-city").unwrap();
    assert_eq!(project.facts[0].status, CanonStatus::Confirmed);
    let initial_confidence = confidence(&project.facts[0]);

    let mut repeated = fact("style-short-dialogue-2", "style:dialogue:length", "对白保持简短");
    repeated.kind = NovelFactKind::WritingExperience;
    let mut second = delta("dark-city", 1, Vec::new());
    second.experience_candidates.push(ExperienceCandidate { fact: repeated, evidence_count: 1 });
    store.commit_delta(&second, NOW).unwrap();
    let project = store.load_project("dark-city").unwrap();
    assert_eq!(project.facts.len(), 1);
    assert!(confidence(&project.facts[0]) > initial_confidence);
    assert_eq!(project.canon_revision, 2);
}

#[test]
fn publication_commit_is_idempotent() {
    let mut store = store_with_dark_city();
    let update = delta(
        "dark-city",
        0,
        vec![fact("location-a", "character:linmo:location", "林默位于旧港")],
    );

    let first = store.commit_delta_for_publication(&update, "publication-1", NOW).unwrap();
    let retry = store.commit_delta_for_publication(&update, "publication-1", NOW).unwrap();

    assert_eq!(first.new_revision, 1);
    assert_eq!(retry.new_revision, 1);
    let project = store.load_project("dark-city").unwrap();
    assert_eq!(project.facts.len(), 1);
    assert_eq!(project.applied_publications, vec!["publication-1"]);
}

#[test]
fn what_cannot_be_committed_is_refused() {
    let mut store = store_with_dark_city();
    let mut other_branch = delta("dark-city", 0, Vec::new());
    other_branch.branch_id = text("draft");
    let twice = delta("dark-city", 0, vec![fact("a", "s", "x"), fact("a", "t", "y")]);
    for d in [other_branch, twice, delta("nowhere", 0, Vec::new())] {
        assert!(store.commit_delta(&d, NOW).is_err());
    }
    assert!(store.create_project(&project("dark-city", "重名")).is_err());
    assert!(store.create_project(&project("../x", "越界")).is_err());
    assert!(store.commit_delta_for_publication(&delta("dark-city", 0, Vec::new()), "", NOW).is_err());
    assert_eq!(store.load_project("dark-city").unwrap().canon_revision, 0);
}

#[test]
fn the_graph_mirrors_a_project() {
    let mut store = store_with_dark_city();
    store
        .commit_delta(&delta("dark-city", 0, vec![fact("location-a", "地点", "旧港")]), NOW)
        .unwrap();
    let project = store.load_project("dark-city").unwrap();
    let (nodes, edges) = mirror_to_graph(&project, &vec![0.9f64.to_bits()], NOW);
    assert_eq!(nodes.len(), 2);
    assert_eq!(nodes[0].id, "novel_entity_project_dark-city");
    assert_eq!(value(&nodes[0].props)["summary"], "小说项目：暗城");
    assert_eq!(edges.len(), 1);
    assert_eq!(edges[0].src, nodes[0].id);
    assert_eq!(edges[0].dst, nodes[1].id);
}

#[test]
fn the_project_changed_last_comes_first() {
    let mut store = NovelMemoryStore::new("/base", None);
    for (id, time) in [("a", 1), ("b", 3), ("c", 2)] {
        let mut p = project(id, id);
        p.updated_at = time;
        store.create_project(&p).unwrap();
    }
    let ids: Vec<String> = store.list_projects().into_iter().map(|p| p.project_id).collect();
    assert_eq!(ids, ["b", "c", "a"]);
}

#[test]
fn facts_are_accepted_or_in_conflict() {
    let mut store = store_with_dark_city();
    let first = delta("dark-city", 0, vec![fact("f1", "k1", "甲"), fact("f2", "k2", "乙")]);
    let report = store.commit_delta(&first, 1).unwrap();
    assert_eq!(report.accepted_fact_ids, ["f1", "f2"]);
    assert!(report.conflicts.is_empty());
    let next = delta("dark-city", 1, vec![fact("f3", "k1", "丙"), fact("f4", "k4", "丁")]);
    let report = store.commit_delta(&next, 2).unwrap();
    assert_eq!(report.accepted_fact_ids, ["f4"]);
    let against: Vec<&str> =
        report.conflicts.iter().map(|c| c.proposed_fact_id.as_str()).collect();
    assert_eq!(against, ["f3"]);
}

#[test]
fn reports_say_whether_the_graph_is_behind() {
    let update = delta("dark-city", 0, vec![fact("a", "地点", "旧港")]);
    let nothing = delta("dark-city", 1, Vec::new());
    for (path, mirrored) in [(None, true), (Some(text("/graph.db")), false)] {
        let mut store = NovelMemoryStore::new("/base", path);
        store.create_project(&project("dark-city", "暗城")).unwrap();
        assert_eq!(store.commit_delta(&update, NOW).unwrap().graph_mirrored, mirrored);
        assert!(store.commit_delta(&nothing, NOW).unwrap().graph_mirrored);
    }
}

#[test]
fn publications_come_again_at_the_last_revision() {
    let mut store = store_with_dark_city();
    store.projects[0].canon_revision = u64::MAX - 1;
    let update = delta("dark-city", u64::MAX - 1, vec![fact("a", "地点", "旧港")]);
    let first = store.commit_delta_for_publication(&update, "p1", NOW).unwrap();
    assert_eq!(first.previous_revision, u64::MAX - 1);
    assert_eq!(first.new_revision, u64::MAX);
    assert_eq!(first.accepted_fact_ids, ["a"]);
    let before = store.load_project("dark-city").unwrap();
    let retry = store.commit_delta_for_publication(&update, "p1", NOW + 1).unwrap();
    assert_eq!(retry.new_revision, u64::MAX);
    assert!(retry.accepted_fact_ids.is_empty() && retry.conflicts.is_empty());
    assert_eq!(store.load_project("dark-city").unwrap(), before);
    assert!(store.commit_delta(&update, NOW).is_err());
}

#[test]
fn the_revision_grows_with_what_is_accepted() {
    let mut store = store_with_dark_city();
    let one = store.commit_delta(&delta("dark-city", 0, vec![fact("a", "s", "x")]), NOW).unwrap();
    assert_eq!((one.previous_revision, one.new_revision), (0, 1));
    let two = store.commit_delta(&delta("dark-city", 1, vec![fact("b", "s", "y")]), NOW).unwrap();
    assert_eq!((two.previous_revision, two.new_revision), (1, 1));
    assert_eq!(two.conflicts[0].proposed_fact_id, "b");
    let project = store.load_project("dark-city").unwrap();
    assert_eq!(project.facts.len(), 1);
    assert_eq!(project.conflicts, two.conflicts);
}
