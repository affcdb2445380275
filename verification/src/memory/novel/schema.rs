//! Novel projects: the facts of the story, their canon, and the changes that
//! are proposed to it.

use crate::json::{Json, JsonView};
use crate::replicate::Replicate;
use crate::seqs::lemma_deep_push;
use vstd::prelude::*;

verus! {

/// How far a project is.
#[derive(Debug, Clone, Copy, PartialEq, Eq, Structural)]
pub enum NovelProjectStatus {
    Planning,
    Writing,
    Paused,
    Completed,
    Archived,
}

impl DeepView for NovelProjectStatus {
    type V = NovelProjectStatus;

    open spec fn deep_view(&self) -> NovelProjectStatus {
        *self
    }
}

impl Replicate for NovelProjectStatus {
    fn replicate(&self) -> (r: Self) {
        *self
    }
}

/// Whether a fact is part of the canon.
#[derive(Debug, Clone, Copy, PartialEq, Eq, Structural)]
pub enum CanonStatus {
    Draft,
    Confirmed,
    Rejected,
    Superseded,
}

impl DeepView for CanonStatus {
    type V = CanonStatus;

    open spec fn deep_view(&self) -> CanonStatus {
        *self
    }
}

impl Replicate for CanonStatus {
    fn replicate(&self) -> (r: Self) {
        *self
    }
}

/// What a fact is about.
#[derive(Debug, Clone, Copy, PartialEq, Eq, Structural)]
pub enum NovelFactKind {
    WorldRule,
    Character,
    CharacterState,
    Location,
    Organization,
    Item,
    Event,
    Timeline,
    PlotThread,
    Foreshadowing,
    Outline,
    ChapterPlan,
    ChapterSummary,
    Decision,
    Feedback,
    WritingExperience,
}

impl DeepView for NovelFactKind {
    type V = NovelFactKind;

    open spec fn deep_view(&self) -> NovelFactKind {
        *self
    }
}

impl Replicate for NovelFactKind {
    fn replicate(&self) -> (r: Self) {
        *self
    }
}

/// What kind of work is done on a project.
#[derive(Debug, Clone, Copy, PartialEq, Eq, Structural)]
pub enum NovelTaskType {
    Outline,
    VolumeOutline,
    ChapterPlan,
    Body,
    Continuation,
    Review,
    Polish,
    Retrospective,
}

impl DeepView for NovelTaskType {
    type V = NovelTaskType;

    open spec fn deep_view(&self) -> NovelTaskType {
        *self
    }
}

impl Replicate for NovelTaskType {
    fn replicate(&self) -> (r: Self) {
        *self
    }
}

/// A fact of the story.
#[derive(Debug, PartialEq)]
pub struct NovelFact {
    pub fact_id: String,
    pub kind: NovelFactKind,
    /// What the fact is about: facts with the same key speak of the same thing.
    pub subject_key: String,
    pub title: String,
    pub summary: String,
    pub data: Json,
    pub status: CanonStatus,
    pub branch_id: String,
    pub valid_from_chapter: Option<u32>,
    pub valid_to_chapter: Option<u32>,
    pub source_refs: Vec<String>,
    /// How sure the fact is: the IEEE 754 bits of a number from 0 to 1.
    pub confidence: u64,
    /// How sure the evidence was that came later, in the same form and in its order.
    pub reinforcements: Vec<u64>,
    pub revision: u64,
    pub created_at: i64,
    pub updated_at: i64,
}

/// What a fact is.
#[verifier::ext_equal]
pub struct NovelFactView {
    pub fact_id: Seq<char>,
    pub kind: NovelFactKind,
    pub subject_key: Seq<char>,
    pub title: Seq<char>,
    pub summary: Seq<char>,
    pub data: JsonView,
    pub status: CanonStatus,
    pub branch_id: Seq<char>,
    pub valid_from_chapter: Option<u32>,
    pub valid_to_chapter: Option<u32>,
    pub source_refs: Seq<Seq<char>>,
    pub confidence: u64,
    pub reinforcements: Seq<u64>,
    pub revision: u64,
    pub created_at: i64,
    pub updated_at: i64,
}

impl DeepView for NovelFact {
    type V = NovelFactView;

    open spec fn deep_view(&self) -> NovelFactView {
        NovelFactView {
            fact_id: self.fact_id@,
            kind: self.kind,
            subject_key: self.subject_key@,
            title: self.title@,
            summary: self.summary@,
            data: self.data.deep_view(),
            status: self.status,
            branch_id: self.branch_id@,
            valid_from_chapter: self.valid_from_chapter.deep_view(),
            valid_to_chapter: self.valid_to_chapter.deep_view(),
            source_refs: self.source_refs.deep_view(),
            confidence: self.confidence,
            reinforcements: self.reinforcements.deep_view(),
            revision: self.revision,
            created_at: self.created_at,
            updated_at: self.updated_at,
        }
    }
}

impl Replicate for NovelFact {
    fn replicate(&self) -> (r: Self) {
        NovelFact {
            fact_id: self.fact_id.clone(),
            kind: self.kind,
            subject_key: self.subject_key.clone(),
            title: self.title.clone(),
            summary: self.summary.clone(),
            data: self.data.replicate(),
            status: self.status,
            branch_id: self.branch_id.clone(),
            valid_from_chapter: self.valid_from_chapter.replicate(),
            valid_to_chapter: self.valid_to_chapter.replicate(),
            source_refs: self.source_refs.replicate(),
            confidence: self.confidence,
            reinforcements: self.reinforcements.replicate(),
            revision: self.revision,
            created_at: self.created_at,
            updated_at: self.updated_at,
        }
    }
}

/// A change that the canon did not take.
#[derive(Debug, PartialEq)]
pub struct ConflictRecord {
    pub conflict_id: String,
    pub subject_key: String,
    pub existing_fact_id: String,
    pub proposed_fact_id: String,
    pub reason: String,
    pub created_at: i64,
    pub resolved: bool,
    pub resolution: Option<String>,
}

/// What a conflict is.
#[verifier::ext_equal]
pub struct ConflictRecordView {
    pub conflict_id: Seq<char>,
    pub subject_key: Seq<char>,
    pub existing_fact_id: Seq<char>,
    pub proposed_fact_id: Seq<char>,
    pub reason: Seq<char>,
    pub created_at: i64,
    pub resolved: bool,
    pub resolution: Option<Seq<char>>,
}

impl DeepView for ConflictRecord {
    type V = ConflictRecordView;

    open spec fn deep_view(&self) -> ConflictRecordView {
        ConflictRecordView {
            conflict_id: self.conflict_id@,
            subject_key: self.subject_key@,
            existing_fact_id: self.existing_fact_id@,
            proposed_fact_id: self.proposed_fact_id@,
            reason: self.reason@,
            created_at: self.created_at,
            resolved: self.resolved,
            resolution: self.resolution.deep_view(),
        }
    }
}

impl Replicate for ConflictRecord {
    fn replicate(&self) -> (r: Self) {
        ConflictRecord {
            conflict_id: self.conflict_id.clone(),
            subject_key: self.subject_key.clone(),
            existing_fact_id: self.existing_fact_id.clone(),
            proposed_fact_id: self.proposed_fact_id.clone(),
            reason: self.reason.clone(),
            created_at: self.created_at,
            resolved: self.resolved,
            resolution: self.resolution.replicate(),
        }
    }
}

/// A novel project.
#[derive(Debug, PartialEq)]
pub struct NovelProject {
    pub project_id: String,
    pub title: String,
    pub aliases: Vec<String>,
    pub genres: Vec<String>,
    pub target_platform: Option<String>,
    pub status: NovelProjectStatus,
    pub active_branch: String,
    pub current_volume: Option<String>,
    pub current_chapter: Option<u32>,
    pub canon_revision: u64,
    pub facts: Vec<NovelFact>,
    /// The conflicts, those that were settled too.
    pub conflicts: Vec<ConflictRecord>,
    /// The publications that were committed.
    pub applied_publications: Vec<String>,
    pub created_at: i64,
    pub updated_at: i64,
}

/// What a project is.
#[verifier::ext_equal]
pub struct NovelProjectView {
    pub project_id: Seq<char>,
    pub title: Seq<char>,
    pub aliases: Seq<Seq<char>>,
    pub genres: Seq<Seq<char>>,
    pub target_platform: Option<Seq<char>>,
    pub status: NovelProjectStatus,
    pub active_branch: Seq<char>,
    pub current_volume: Option<Seq<char>>,
    pub current_chapter: Option<u32>,
    pub canon_revision: u64,
    pub facts: Seq<NovelFactView>,
    pub conflicts: Seq<ConflictRecordView>,
    pub applied_publications: Seq<Seq<char>>,
    pub created_at: i64,
    pub updated_at: i64,
}

impl DeepView for NovelProject {
    type V = NovelProjectView;

    open spec fn deep_view(&self) -> NovelProjectView {
        NovelProjectView {
            project_id: self.project_id@,
            title: self.title@,
            aliases: self.aliases.deep_view(),
            genres: self.genres.deep_view(),
            target_platform: self.target_platform.deep_view(),
            status: self.status,
            active_branch: self.active_branch@,
            current_volume: self.current_volume.deep_view(),
            current_chapter: self.current_chapter.deep_view(),
            canon_revision: self.canon_revision,
            facts: self.facts.deep_view(),
            conflicts: self.conflicts.deep_view(),
            applied_publications: self.applied_publications.deep_view(),
            created_at: self.created_at,
            updated_at: self.updated_at,
        }
    }
}

impl Replicate for NovelProject {
    fn replicate(&self) -> (r: Self) {
        NovelProject {
            project_id: self.project_id.clone(),
            title: self.title.clone(),
            aliases: self.aliases.replicate(),
            genres: self.genres.replicate(),
            target_platform: self.target_platform.replicate(),
            status: self.status,
            active_branch: self.active_branch.clone(),
            current_volume: self.current_volume.replicate(),
            current_chapter: self.current_chapter.replicate(),
            canon_revision: self.canon_revision,
            facts: self.facts.replicate(),
            conflicts: self.conflicts.replicate(),
            applied_publications: self.applied_publications.replicate(),
            created_at: self.created_at,
            updated_at: self.updated_at,
        }
    }
}

/// A fact that is proposed.
#[derive(Debug, PartialEq)]
pub struct ProposedFact {
    pub fact_id: String,
    pub kind: NovelFactKind,
    pub subject_key: String,
    pub title: String,
    pub summary: String,
    pub data: Json,
    pub status: CanonStatus,
    pub valid_from_chapter: Option<u32>,
    pub valid_to_chapter: Option<u32>,
    pub source_refs: Vec<String>,
    /// How sure the fact is: the IEEE 754 bits of a number.
    pub confidence: u64,
}

/// What a proposed fact is.
#[verifier::ext_equal]
pub struct ProposedFactView {
    pub fact_id: Seq<char>,
    pub kind: NovelFactKind,
    pub subject_key: Seq<char>,
    pub title: Seq<char>,
    pub summary: Seq<char>,
    pub data: JsonView,
    pub status: CanonStatus,
    pub valid_from_chapter: Option<u32>,
    pub valid_to_chapter: Option<u32>,
    pub source_refs: Seq<Seq<char>>,
    pub confidence: u64,
}

impl DeepView for ProposedFact {
    type V = ProposedFactView;

    open spec fn deep_view(&self) -> ProposedFactView {
        ProposedFactView {
            fact_id: self.fact_id@,
            kind: self.kind,
            subject_key: self.subject_key@,
            title: self.title@,
            summary: self.summary@,
            data: self.data.deep_view(),
            status: self.status,
            valid_from_chapter: self.valid_from_chapter.deep_view(),
            valid_to_chapter: self.valid_to_chapter.deep_view(),
            source_refs: self.source_refs.deep_view(),
            confidence: self.confidence,
        }
    }
}

impl Replicate for ProposedFact {
    fn replicate(&self) -> (r: Self) {
        ProposedFact {
            fact_id: self.fact_id.clone(),
            kind: self.kind,
            subject_key: self.subject_key.clone(),
            title: self.title.clone(),
            summary: self.summary.clone(),
            data: self.data.replicate(),
            status: self.status,
            valid_from_chapter: self.valid_from_chapter.replicate(),
            valid_to_chapter: self.valid_to_chapter.replicate(),
            source_refs: self.source_refs.replicate(),
            confidence: self.confidence,
        }
    }
}

/// A change of a state, which may take the place of a fact.
#[derive(Debug, PartialEq)]
pub struct StateChange {
    pub fact: ProposedFact,
    pub supersedes_fact_id: Option<String>,
}

/// What a change of a state is.
#[verifier::ext_equal]
pub struct StateChangeView {
    pub fact: ProposedFactView,
    pub supersedes_fact_id: Option<Seq<char>>,
}

impl DeepView for StateChange {
    type V = StateChangeView;

    open spec fn deep_view(&self) -> StateChangeView {
        StateChangeView {
            fact: self.fact.deep_view(),
            supersedes_fact_id: self.supersedes_fact_id.deep_view(),
        }
    }
}

impl Replicate for StateChange {
    fn replicate(&self) -> (r: Self) {
        StateChange {
            fact: self.fact.replicate(),
            supersedes_fact_id: self.supersedes_fact_id.replicate(),
        }
    }
}

/// A change of the plot.
#[derive(Debug, PartialEq)]
pub struct PlotUpdate {
    pub fact: ProposedFact,
}

/// What a change of the plot is.
#[verifier::ext_equal]
pub struct PlotUpdateView {
    pub fact: ProposedFactView,
}

impl DeepView for PlotUpdate {
    type V = PlotUpdateView;

    open spec fn deep_view(&self) -> PlotUpdateView {
        PlotUpdateView {
            fact: self.fact.deep_view(),
        }
    }
}

impl Replicate for PlotUpdate {
    fn replicate(&self) -> (r: Self) {
        PlotUpdate {
            fact: self.fact.replicate(),
        }
    }
}

/// A change of a foreshadowing, which may settle one.
#[derive(Debug, PartialEq)]
pub struct ForeshadowingUpdate {
    pub fact: ProposedFact,
    pub resolves_fact_id: Option<String>,
}

/// What a change of a foreshadowing is.
#[verifier::ext_equal]
pub struct ForeshadowingUpdateView {
    pub fact: ProposedFactView,
    pub resolves_fact_id: Option<Seq<char>>,
}

impl DeepView for ForeshadowingUpdate {
    type V = ForeshadowingUpdateView;

    open spec fn deep_view(&self) -> ForeshadowingUpdateView {
        ForeshadowingUpdateView {
            fact: self.fact.deep_view(),
            resolves_fact_id: self.resolves_fact_id.deep_view(),
        }
    }
}

impl Replicate for ForeshadowingUpdate {
    fn replicate(&self) -> (r: Self) {
        ForeshadowingUpdate {
            fact: self.fact.replicate(),
            resolves_fact_id: self.resolves_fact_id.replicate(),
        }
    }
}

/// Something that was learnt about writing.
#[derive(Debug, PartialEq)]
pub struct ExperienceCandidate {
    pub fact: ProposedFact,
    pub evidence_count: u32,
}

/// What a candidate is.
#[verifier::ext_equal]
pub struct ExperienceCandidateView {
    pub fact: ProposedFactView,
    pub evidence_count: u32,
}

impl DeepView for ExperienceCandidate {
    type V = ExperienceCandidateView;

    open spec fn deep_view(&self) -> ExperienceCandidateView {
        ExperienceCandidateView {
            fact: self.fact.deep_view(),
            evidence_count: self.evidence_count,
        }
    }
}

impl Replicate for ExperienceCandidate {
    fn replicate(&self) -> (r: Self) {
        ExperienceCandidate {
            fact: self.fact.replicate(),
            evidence_count: self.evidence_count,
        }
    }
}

/// How far the writing is.
#[derive(Debug, PartialEq)]
pub struct NovelProjectProgress {
    pub current_volume: Option<String>,
    pub current_chapter: Option<u32>,
}

/// What progress is.
#[verifier::ext_equal]
pub struct NovelProjectProgressView {
    pub current_volume: Option<Seq<char>>,
    pub current_chapter: Option<u32>,
}

impl DeepView for NovelProjectProgress {
    type V = NovelProjectProgressView;

    open spec fn deep_view(&self) -> NovelProjectProgressView {
        NovelProjectProgressView {
            current_volume: self.current_volume.deep_view(),
            current_chapter: self.current_chapter.deep_view(),
        }
    }
}

impl Replicate for NovelProjectProgress {
    fn replicate(&self) -> (r: Self) {
        NovelProjectProgress {
            current_volume: self.current_volume.replicate(),
            current_chapter: self.current_chapter.replicate(),
        }
    }
}

/// A set of changes to a project.
#[derive(Debug, PartialEq)]
pub struct NovelMemoryDelta {
    pub project_id: String,
    pub branch_id: String,
    pub expected_revision: u64,
    pub task_type: NovelTaskType,
    pub source_ref: String,
    pub progress: Option<NovelProjectProgress>,
    pub proposed_facts: Vec<ProposedFact>,
    pub state_changes: Vec<StateChange>,
    pub plot_updates: Vec<PlotUpdate>,
    pub foreshadowing_updates: Vec<ForeshadowingUpdate>,
    pub feedback: Vec<ProposedFact>,
    pub experience_candidates: Vec<ExperienceCandidate>,
}

/// What a set of changes is.
#[verifier::ext_equal]
pub struct NovelMemoryDeltaView {
    pub project_id: Seq<char>,
    pub branch_id: Seq<char>,
    pub expected_revision: u64,
    pub task_type: NovelTaskType,
    pub source_ref: Seq<char>,
    pub progress: Option<NovelProjectProgressView>,
    pub proposed_facts: Seq<ProposedFactView>,
    pub state_changes: Seq<StateChangeView>,
    pub plot_updates: Seq<PlotUpdateView>,
    pub foreshadowing_updates: Seq<ForeshadowingUpdateView>,
    pub feedback: Seq<ProposedFactView>,
    pub experience_candidates: Seq<ExperienceCandidateView>,
}

impl DeepView for NovelMemoryDelta {
    type V = NovelMemoryDeltaView;

    open spec fn deep_view(&self) -> NovelMemoryDeltaView {
        NovelMemoryDeltaView {
            project_id: self.project_id@,
            branch_id: self.branch_id@,
            expected_revision: self.expected_revision,
            task_type: self.task_type,
            source_ref: self.source_ref@,
            progress: self.progress.deep_view(),
            proposed_facts: self.proposed_facts.deep_view(),
            state_changes: self.state_changes.deep_view(),
            plot_updates: self.plot_updates.deep_view(),
            foreshadowing_updates: self.foreshadowing_updates.deep_view(),
            feedback: self.feedback.deep_view(),
            experience_candidates: self.experience_candidates.deep_view(),
        }
    }
}

impl Replicate for NovelMemoryDelta {
    fn replicate(&self) -> (r: Self) {
        NovelMemoryDelta {
            project_id: self.project_id.clone(),
            branch_id: self.branch_id.clone(),
            expected_revision: self.expected_revision,
            task_type: self.task_type,
            source_ref: self.source_ref.clone(),
            progress: self.progress.replicate(),
            proposed_facts: self.proposed_facts.replicate(),
            state_changes: self.state_changes.replicate(),
            plot_updates: self.plot_updates.replicate(),
            foreshadowing_updates: self.foreshadowing_updates.replicate(),
            feedback: self.feedback.replicate(),
            experience_candidates: self.experience_candidates.replicate(),
        }
    }
}

/// What a commit came to.
#[derive(Debug, PartialEq)]
pub struct CommitReport {
    pub project_id: String,
    pub previous_revision: u64,
    pub new_revision: u64,
    pub accepted_fact_ids: Vec<String>,
    pub conflicts: Vec<ConflictRecord>,
    pub graph_mirrored: bool,
}

/// What a report is.
#[verifier::ext_equal]
pub struct CommitReportView {
    pub project_id: Seq<char>,
    pub previous_revision: u64,
    pub new_revision: u64,
    pub accepted_fact_ids: Seq<Seq<char>>,
    pub conflicts: Seq<ConflictRecordView>,
    pub graph_mirrored: bool,
}

impl DeepView for CommitReport {
    type V = CommitReportView;

    open spec fn deep_view(&self) -> CommitReportView {
        CommitReportView {
            project_id: self.project_id@,
            previous_revision: self.previous_revision,
            new_revision: self.new_revision,
            accepted_fact_ids: self.accepted_fact_ids.deep_view(),
            conflicts: self.conflicts.deep_view(),
            graph_mirrored: self.graph_mirrored,
        }
    }
}

impl Replicate for CommitReport {
    fn replicate(&self) -> (r: Self) {
        CommitReport {
            project_id: self.project_id.clone(),
            previous_revision: self.previous_revision,
            new_revision: self.new_revision,
            accepted_fact_ids: self.accepted_fact_ids.replicate(),
            conflicts: self.conflicts.replicate(),
            graph_mirrored: self.graph_mirrored,
        }
    }
}

/// What is recalled of a project for a piece of work.
#[derive(Debug, PartialEq)]
pub struct NovelRecallPack {
    pub project_id: String,
    pub project_title: String,
    pub revision: u64,
    pub task_type: NovelTaskType,
    pub branch_id: String,
    pub current_chapter: Option<u32>,
    pub facts: Vec<NovelFact>,
    pub rendered_context: String,
}

/// What a recall is.
#[verifier::ext_equal]
pub struct NovelRecallPackView {
    pub project_id: Seq<char>,
    pub project_title: Seq<char>,
    pub revision: u64,
    pub task_type: NovelTaskType,
    pub branch_id: Seq<char>,
    pub current_chapter: Option<u32>,
    pub facts: Seq<NovelFactView>,
    pub rendered_context: Seq<char>,
}

impl DeepView for NovelRecallPack {
    type V = NovelRecallPackView;

    open spec fn deep_view(&self) -> NovelRecallPackView {
        NovelRecallPackView {
            project_id: self.project_id@,
            project_title: self.project_title@,
            revision: self.revision,
            task_type: self.task_type,
            branch_id: self.branch_id@,
            current_chapter: self.current_chapter.deep_view(),
            facts: self.facts.deep_view(),
            rendered_context: self.rendered_context@,
        }
    }
}

impl Replicate for NovelRecallPack {
    fn replicate(&self) -> (r: Self) {
        NovelRecallPack {
            project_id: self.project_id.clone(),
            project_title: self.project_title.clone(),
            revision: self.revision,
            task_type: self.task_type,
            branch_id: self.branch_id.clone(),
            current_chapter: self.current_chapter.replicate(),
            facts: self.facts.replicate(),
            rendered_context: self.rendered_context.clone(),
        }
    }
}

/// A project in which nothing is settled yet.
pub open spec fn new_project(project_id: Seq<char>, title: Seq<char>, now: i64) -> NovelProjectView {
    NovelProjectView {
        project_id,
        title,
        aliases: Seq::empty(),
        genres: Seq::empty(),
        target_platform: None,
        status: NovelProjectStatus::Planning,
        active_branch: "main"@,
        current_volume: None,
        current_chapter: None,
        canon_revision: 0,
        facts: Seq::empty(),
        conflicts: Seq::empty(),
        applied_publications: Seq::empty(),
        created_at: now,
        updated_at: now,
    }
}

/// The branch that a project starts on.
pub fn default_branch() -> (r: String)
    ensures
        r@ == "main"@,
{
    "main".to_owned()
}

/// What a proposed fact is where nothing else is said.
pub fn default_canon_status() -> (r: CanonStatus)
    ensures
        r == CanonStatus::Draft,
{
    CanonStatus::Draft
}

impl NovelProject {
    /// A project in which nothing is settled yet.
    pub fn new(project_id: &str, title: &str, now: i64) -> (r: Self)
        ensures
            r.deep_view() == new_project(project_id@, title@, now),
    {
        let r = NovelProject {
            project_id: project_id.to_owned(),
            title: title.to_owned(),
            aliases: Vec::new(),
            genres: Vec::new(),
            target_platform: None,
            status: NovelProjectStatus::Planning,
            active_branch: default_branch(),
            current_volume: None,
            current_chapter: None,
            canon_revision: 0,
            facts: Vec::new(),
            conflicts: Vec::new(),
            applied_publications: Vec::new(),
            created_at: now,
            updated_at: now,
        };
        assert(r.deep_view() =~= new_project(project_id@, title@, now));
        r
    }
}

/// All facts of a set of changes: those proposed, those of changed states, of
/// the plot and of foreshadowings, the feedback and what was learnt.
pub open spec fn all_facts_of(d: NovelMemoryDeltaView) -> Seq<ProposedFactView> {
    d.proposed_facts + d.state_changes.map_values(|x: StateChangeView| x.fact)
        + d.plot_updates.map_values(|x: PlotUpdateView| x.fact)
        + d.foreshadowing_updates.map_values(|x: ForeshadowingUpdateView| x.fact) + d.feedback
        + d.experience_candidates.map_values(|x: ExperienceCandidateView| x.fact)
}

impl NovelMemoryDelta {
    /// All facts of this set of changes.
    pub fn all_facts(&self) -> (r: Vec<&ProposedFact>)
        ensures
            r.deep_view() == all_facts_of(self.deep_view()),
    {
        let ghost d = self.deep_view();
        let mut r: Vec<&ProposedFact> = Vec::new();
        assert(r.deep_view() =~= Seq::<ProposedFactView>::empty() + d.proposed_facts.take(0));
        let mut i: usize = 0;
        while i < self.proposed_facts.len()
            invariant
                i <= self.proposed_facts@.len(),
                d == self.deep_view(),
                r.deep_view() == Seq::<ProposedFactView>::empty() + d.proposed_facts.take(i as int),
            decreases self.proposed_facts@.len() - i,
        {
            let ghost before = r;
            let f = &self.proposed_facts[i];
            r.push(f);
            proof {
                lemma_deep_push(before, r, f);
                assert(Seq::<ProposedFactView>::empty() + d.proposed_facts.take(i + 1) =~= before.deep_view().push(
                    f.deep_view(),
                ));
            }
            i = i + 1;
        }
        assert(d.proposed_facts.take(i as int) =~= d.proposed_facts);
        let ghost s1 = r.deep_view();
        assert(s1 + d.state_changes.map_values(|x: StateChangeView| x.fact).take(0) =~= s1);
        let mut i: usize = 0;
        while i < self.state_changes.len()
            invariant
                i <= self.state_changes@.len(),
                d == self.deep_view(),
                r.deep_view() == s1 + d.state_changes.map_values(|x: StateChangeView| x.fact).take(i as int),
            decreases self.state_changes@.len() - i,
        {
            let ghost before = r;
            let f = &self.state_changes[i].fact;
            r.push(f);
            proof {
                lemma_deep_push(before, r, f);
                assert(s1 + d.state_changes.map_values(|x: StateChangeView| x.fact).take(i + 1) =~= before.deep_view().push(
                    f.deep_view(),
                ));
            }
            i = i + 1;
        }
        assert(d.state_changes.map_values(|x: StateChangeView| x.fact).take(i as int) =~= d.state_changes.map_values(|x: StateChangeView| x.fact));
        let ghost s2 = r.deep_view();
        assert(s2 + d.plot_updates.map_values(|x: PlotUpdateView| x.fact).take(0) =~= s2);
        let mut i: usize = 0;
        while i < self.plot_updates.len()
            invariant
                i <= self.plot_updates@.len(),
                d == self.deep_view(),
                r.deep_view() == s2 + d.plot_updates.map_values(|x: PlotUpdateView| x.fact).take(i as int),
            decreases self.plot_updates@.len() - i,
        {
            let ghost before = r;
            let f = &self.plot_updates[i].fact;
            r.push(f);
            proof {
                lemma_deep_push(before, r, f);
                assert(s2 + d.plot_updates.map_values(|x: PlotUpdateView| x.fact).take(i + 1) =~= before.deep_view().push(
                    f.deep_view(),
                ));
            }
            i = i + 1;
        }
        assert(d.plot_updates.map_values(|x: PlotUpdateView| x.fact).take(i as int) =~= d.plot_updates.map_values(|x: PlotUpdateView| x.fact));
        let ghost s3 = r.deep_view();
        assert(s3 + d.foreshadowing_updates.map_values(|x: ForeshadowingUpdateView| x.fact).take(0) =~= s3);
        let mut i: usize = 0;
        while i < self.foreshadowing_updates.len()
            invariant
                i <= self.foreshadowing_updates@.len(),
                d == self.deep_view(),
                r.deep_view() == s3 + d.foreshadowing_updates.map_values(|x: ForeshadowingUpdateView| x.fact).take(i as int),
            decreases self.foreshadowing_updates@.len() - i,
        {
            let ghost before = r;
            let f = &self.foreshadowing_updates[i].fact;
            r.push(f);
            proof {
                lemma_deep_push(before, r, f);
                assert(s3 + d.foreshadowing_updates.map_values(|x: ForeshadowingUpdateView| x.fact).take(i + 1) =~= before.deep_view().push(
                    f.deep_view(),
                ));
            }
            i = i + 1;
        }
        assert(d.foreshadowing_updates.map_values(|x: ForeshadowingUpdateView| x.fact).take(i as int) =~= d.foreshadowing_updates.map_values(|x: ForeshadowingUpdateView| x.fact));
        let ghost s4 = r.deep_view();
        assert(s4 + d.feedback.take(0) =~= s4);
        let mut i: usize = 0;
        while i < self.feedback.len()
            invariant
                i <= self.feedback@.len(),
                d == self.deep_view(),
                r.deep_view() == s4 + d.feedback.take(i as int),
            decreases self.feedback@.len() - i,
        {
            let ghost before = r;
            let f = &self.feedback[i];
            r.push(f);
            proof {
                lemma_deep_push(before, r, f);
                assert(s4 + d.feedback.take(i + 1) =~= before.deep_view().push(
                    f.deep_view(),
                ));
            }
            i = i + 1;
        }
        assert(d.feedback.take(i as int) =~= d.feedback);
        let ghost s5 = r.deep_view();
        assert(s5 + d.experience_candidates.map_values(|x: ExperienceCandidateView| x.fact).take(0) =~= s5);
        let mut i: usize = 0;
        while i < self.experience_candidates.len()
            invariant
                i <= self.experience_candidates@.len(),
                d == self.deep_view(),
                r.deep_view() == s5 + d.experience_candidates.map_values(|x: ExperienceCandidateView| x.fact).take(i as int),
            decreases self.experience_candidates@.len() - i,
        {
            let ghost before = r;
            let f = &self.experience_candidates[i].fact;
            r.push(f);
            proof {
                lemma_deep_push(before, r, f);
                assert(s5 + d.experience_candidates.map_values(|x: ExperienceCandidateView| x.fact).take(i + 1) =~= before.deep_view().push(
                    f.deep_view(),
                ));
            }
            i = i + 1;
        }
        assert(d.experience_candidates.map_values(|x: ExperienceCandidateView| x.fact).take(i as int) =~= d.experience_candidates.map_values(|x: ExperienceCandidateView| x.fact));
        assert(s1 =~= d.proposed_facts);
        r
    }
}

} // verus!
