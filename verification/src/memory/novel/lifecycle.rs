//! The life of a writing task: its events, its checkpoints and its publication.

use crate::json::{Json, JsonView};
use crate::memory::error::{MemoryError, MemoryErrorView};
use crate::memory::ids::{bad_id, is_id, validate_id};
use crate::memory::novel::schema::{NovelMemoryDelta, NovelMemoryDeltaView};
use crate::paths::{join_path, path_of};
use crate::replicate::Replicate;
use crate::seqs::{
    first_index, lemma_deep_push, lemma_filter_none, lemma_filter_step, lemma_first_index,
    lemma_first_index_none, lemma_first_index_some, lemma_take_all, lemma_take_step, reorder,
    reordered, stable_order, stably_ordered,
};
use crate::text::same;
use vstd::prelude::*;

verus! {

/// How far a task has come.
#[derive(Debug, Clone, Copy, PartialEq, Eq, Structural)]
pub enum NovelTaskPhase {
    Preparing,
    Drafting,
    AwaitingMainReview,
    AwaitingUserDecision,
    Completed,
}

impl DeepView for NovelTaskPhase {
    type V = NovelTaskPhase;

    open spec fn deep_view(&self) -> NovelTaskPhase {
        *self
    }
}

impl Replicate for NovelTaskPhase {
    fn replicate(&self) -> (r: Self) {
        *self
    }
}

/// Nothing comes after this phase.
pub open spec fn ends_task(p: NovelTaskPhase) -> bool {
    p == NovelTaskPhase::Completed
}

impl NovelTaskPhase {
    /// Whether nothing comes after this phase.
    pub fn is_terminal(&self) -> (r: bool)
        ensures
            r == ends_task(*self),
    {
        *self == NovelTaskPhase::Completed
    }
}

/// Who took a step.
#[derive(Debug, Clone, Copy, PartialEq, Eq, Structural)]
pub enum NovelLifecycleActor {
    Main,
}

impl DeepView for NovelLifecycleActor {
    type V = NovelLifecycleActor;

    open spec fn deep_view(&self) -> NovelLifecycleActor {
        *self
    }
}

impl Replicate for NovelLifecycleActor {
    fn replicate(&self) -> (r: Self) {
        *self
    }
}

/// How far a publication has come.
#[derive(Debug, Clone, Copy, PartialEq, Eq, Structural)]
pub enum NovelPublicationStatus {
    Pending,
    ArtifactSaved,
    Aborted,
}

impl DeepView for NovelPublicationStatus {
    type V = NovelPublicationStatus;

    open spec fn deep_view(&self) -> NovelPublicationStatus {
        *self
    }
}

impl Replicate for NovelPublicationStatus {
    fn replicate(&self) -> (r: Self) {
        *self
    }
}

/// Something that happened in a task.
#[derive(Debug, PartialEq)]
pub struct NovelTaskEvent {
    pub event_id: String,
    pub task_id: String,
    pub project_id: String,
    pub actor: NovelLifecycleActor,
    pub phase: NovelTaskPhase,
    pub summary: String,
    pub details: Json,
    pub created_at: i64,
}

/// What an event is.
#[verifier::ext_equal]
pub struct NovelTaskEventView {
    pub event_id: Seq<char>,
    pub task_id: Seq<char>,
    pub project_id: Seq<char>,
    pub actor: NovelLifecycleActor,
    pub phase: NovelTaskPhase,
    pub summary: Seq<char>,
    pub details: JsonView,
    pub created_at: i64,
}

impl DeepView for NovelTaskEvent {
    type V = NovelTaskEventView;

    open spec fn deep_view(&self) -> NovelTaskEventView {
        NovelTaskEventView {
            event_id: self.event_id@,
            task_id: self.task_id@,
            project_id: self.project_id@,
            actor: self.actor,
            phase: self.phase,
            summary: self.summary@,
            details: self.details.deep_view(),
            created_at: self.created_at,
        }
    }
}

impl Replicate for NovelTaskEvent {
    fn replicate(&self) -> (r: Self) {
        NovelTaskEvent {
            event_id: self.event_id.clone(),
            task_id: self.task_id.clone(),
            project_id: self.project_id.clone(),
            actor: self.actor,
            phase: self.phase,
            summary: self.summary.clone(),
            details: self.details.replicate(),
            created_at: self.created_at,
        }
    }
}

/// Where a task can be taken up again.
#[derive(Debug, PartialEq)]
pub struct NovelTaskCheckpoint {
    pub task_id: String,
    pub project_id: String,
    pub phase: NovelTaskPhase,
    pub draft_version: u32,
    pub canon_revision: u64,
    pub output_path: String,
    pub state: Json,
    pub updated_at: i64,
}

/// What a checkpoint is.
#[verifier::ext_equal]
pub struct NovelTaskCheckpointView {
    pub task_id: Seq<char>,
    pub project_id: Seq<char>,
    pub phase: NovelTaskPhase,
    pub draft_version: u32,
    pub canon_revision: u64,
    pub output_path: Seq<char>,
    pub state: JsonView,
    pub updated_at: i64,
}

impl DeepView for NovelTaskCheckpoint {
    type V = NovelTaskCheckpointView;

    open spec fn deep_view(&self) -> NovelTaskCheckpointView {
        NovelTaskCheckpointView {
            task_id: self.task_id@,
            project_id: self.project_id@,
            phase: self.phase,
            draft_version: self.draft_version,
            canon_revision: self.canon_revision,
            output_path: self.output_path@,
            state: self.state.deep_view(),
            updated_at: self.updated_at,
        }
    }
}

impl Replicate for NovelTaskCheckpoint {
    fn replicate(&self) -> (r: Self) {
        NovelTaskCheckpoint {
            task_id: self.task_id.clone(),
            project_id: self.project_id.clone(),
            phase: self.phase,
            draft_version: self.draft_version,
            canon_revision: self.canon_revision,
            output_path: self.output_path.clone(),
            state: self.state.replicate(),
            updated_at: self.updated_at,
        }
    }
}

/// The publication of a draft: the file and the changes to the memory.
#[derive(Debug, PartialEq)]
pub struct NovelPublicationRecord {
    pub publication_id: String,
    pub task_id: String,
    pub project_id: String,
    pub draft_version: u32,
    pub output_path: String,
    pub content_hash: String,
    pub delta: NovelMemoryDelta,
    pub status: NovelPublicationStatus,
    pub created_at: i64,
    pub updated_at: i64,
}

/// What a publication is.
#[verifier::ext_equal]
pub struct NovelPublicationRecordView {
    pub publication_id: Seq<char>,
    pub task_id: Seq<char>,
    pub project_id: Seq<char>,
    pub draft_version: u32,
    pub output_path: Seq<char>,
    pub content_hash: Seq<char>,
    pub delta: NovelMemoryDeltaView,
    pub status: NovelPublicationStatus,
    pub created_at: i64,
    pub updated_at: i64,
}

impl DeepView for NovelPublicationRecord {
    type V = NovelPublicationRecordView;

    open spec fn deep_view(&self) -> NovelPublicationRecordView {
        NovelPublicationRecordView {
            publication_id: self.publication_id@,
            task_id: self.task_id@,
            project_id: self.project_id@,
            draft_version: self.draft_version,
            output_path: self.output_path@,
            content_hash: self.content_hash@,
            delta: self.delta.deep_view(),
            status: self.status,
            created_at: self.created_at,
            updated_at: self.updated_at,
        }
    }
}

impl Replicate for NovelPublicationRecord {
    fn replicate(&self) -> (r: Self) {
        NovelPublicationRecord {
            publication_id: self.publication_id.clone(),
            task_id: self.task_id.clone(),
            project_id: self.project_id.clone(),
            draft_version: self.draft_version,
            output_path: self.output_path.clone(),
            content_hash: self.content_hash.clone(),
            delta: self.delta.replicate(),
            status: self.status,
            created_at: self.created_at,
            updated_at: self.updated_at,
        }
    }
}

impl NovelPublicationRecord {
    /// A publication that is about to begin, of the project that the changes
    /// are for.
    pub fn pending(
        publication_id: &str,
        task_id: &str,
        draft_version: u32,
        output_path: &str,
        content_hash: &str,
        delta: NovelMemoryDelta,
        now: i64,
    ) -> (r: Self)
        ensures
            r.deep_view() == (NovelPublicationRecordView {
                publication_id: publication_id@,
                task_id: task_id@,
                project_id: delta.project_id@,
                draft_version,
                output_path: output_path@,
                content_hash: content_hash@,
                delta: delta.deep_view(),
                status: NovelPublicationStatus::Pending,
                created_at: now,
                updated_at: now,
            }),
    {
        NovelPublicationRecord {
            publication_id: publication_id.to_owned(),
            task_id: task_id.to_owned(),
            project_id: delta.project_id.clone(),
            draft_version,
            output_path: output_path.to_owned(),
            content_hash: content_hash.to_owned(),
            delta,
            status: NovelPublicationStatus::Pending,
            created_at: now,
            updated_at: now,
        }
    }
}

/// The lives of the tasks that are kept.
pub struct NovelLifecycleStore {
    pub root: String,
    pub events: Vec<NovelTaskEvent>,
    pub checkpoints: Vec<NovelTaskCheckpoint>,
    pub publications: Vec<NovelPublicationRecord>,
}

/// What a store is.
#[verifier::ext_equal]
pub struct NovelLifecycleStoreView {
    pub root: Seq<char>,
    pub events: Seq<NovelTaskEventView>,
    pub checkpoints: Seq<NovelTaskCheckpointView>,
    pub publications: Seq<NovelPublicationRecordView>,
}

impl DeepView for NovelLifecycleStore {
    type V = NovelLifecycleStoreView;

    open spec fn deep_view(&self) -> NovelLifecycleStoreView {
        NovelLifecycleStoreView {
            root: self.root@,
            events: self.events.deep_view(),
            checkpoints: self.checkpoints.deep_view(),
            publications: self.publications.deep_view(),
        }
    }
}

/// Where the checkpoint of a task stands.
pub open spec fn checkpoint_index(s: Seq<NovelTaskCheckpointView>, id: Seq<char>) -> Option<int> {
    first_index(s, |c: NovelTaskCheckpointView| c.task_id == id)
}

/// Where a publication stands.
pub open spec fn publication_index(
    s: Seq<NovelPublicationRecordView>,
    id: Seq<char>,
) -> Option<int> {
    first_index(s, |p: NovelPublicationRecordView| p.publication_id == id)
}

/// The items with the one at `i` replaced, or with one more.
pub open spec fn put_at<A>(s: Seq<A>, i: Option<int>, x: A) -> Seq<A> {
    match i {
        Some(i) => s.update(i, x),
        None => s.push(x),
    }
}

/// A task of the project that is not at its end.
pub open spec fn is_active(c: NovelTaskCheckpointView, project: Seq<char>) -> bool {
    c.project_id == project && !ends_task(c.phase)
}

/// The active checkpoint of a project that was saved last; of several that
/// were saved at one time, the first.
pub open spec fn latest_active(
    s: Seq<NovelTaskCheckpointView>,
    project: Seq<char>,
) -> Option<NovelTaskCheckpointView>
    decreases s.len(),
{
    if s.len() == 0 {
        None
    } else {
        let before = latest_active(s.drop_last(), project);
        if is_active(s.last(), project) && (before is None || s.last().updated_at
            > before->0.updated_at) {
            Some(s.last())
        } else {
            before
        }
    }
}

/// A publication that has begun and has not come to its end.
pub open spec fn is_pending(p: NovelPublicationRecordView) -> bool {
    p.status == NovelPublicationStatus::Pending || p.status == NovelPublicationStatus::ArtifactSaved
}

/// A pending publication of the project.
pub open spec fn is_pending_of(p: NovelPublicationRecordView, project: Seq<char>) -> bool {
    is_pending(p) && p.project_id == project
}

/// The publications after one has begun, or why it cannot.
pub open spec fn begin_of(
    s: Seq<NovelPublicationRecordView>,
    p: NovelPublicationRecordView,
) -> Result<Seq<NovelPublicationRecordView>, MemoryErrorView> {
    if !is_id(p.publication_id) {
        Err(bad_id("publication_id"@, p.publication_id))
    } else if !is_id(p.task_id) {
        Err(bad_id("task_id"@, p.task_id))
    } else if !is_id(p.project_id) {
        Err(bad_id("project_id"@, p.project_id))
    } else if p.status != NovelPublicationStatus::Pending {
        Err(MemoryErrorView::Conflict("new publication record must be pending"@))
    } else if publication_index(s, p.publication_id) is Some {
        Err(MemoryErrorView::Conflict("小说发布事务已存在: "@ + p.publication_id))
    } else if exists|i: int| 0 <= i < s.len() && is_pending_of(#[trigger] s[i], p.project_id) {
        Err(MemoryErrorView::Conflict("项目 "@ + p.project_id + " 已有未完成的发布事务"@))
    } else {
        Ok(s.push(p))
    }
}

/// No project has two pending publications.
pub open spec fn one_pending(s: Seq<NovelPublicationRecordView>) -> bool {
    forall|i: int, j: int|
        0 <= i < j < s.len() && is_pending(#[trigger] s[i]) && is_pending(#[trigger] s[j])
            ==> s[i].project_id != s[j].project_id
}

impl NovelLifecycleStore {
    /// A store below `base_dir` with nothing in it yet.
    pub fn new(base_dir: &str) -> (r: Self)
        ensures
            r.deep_view() == (NovelLifecycleStoreView {
                root: path_of(path_of(base_dir@, "novel"@), "lifecycle"@),
                events: Seq::empty(),
                checkpoints: Seq::empty(),
                publications: Seq::empty(),
            }),
    {
        let novel = join_path(base_dir, "novel");
        let r = NovelLifecycleStore {
            root: join_path(novel.as_str(), "lifecycle"),
            events: Vec::new(),
            checkpoints: Vec::new(),
            publications: Vec::new(),
        };
        assert(r.events.deep_view() =~= Seq::<NovelTaskEventView>::empty());
        assert(r.checkpoints.deep_view() =~= Seq::<NovelTaskCheckpointView>::empty());
        assert(r.publications.deep_view() =~= Seq::<NovelPublicationRecordView>::empty());
        r
    }

    /// Keeps one event more.
    pub fn append_event(&mut self, event: &NovelTaskEvent) -> (r: Result<(), MemoryError>)
        ensures
            ({
                let e = event.deep_view();
                let before = old(self).deep_view();
                if !is_id(e.task_id) {
                    r is Err && r->Err_0.deep_view() == bad_id("task_id"@, e.task_id)
                } else if !is_id(e.project_id) {
                    r is Err && r->Err_0.deep_view() == bad_id("project_id"@, e.project_id)
                } else {
                    r is Ok && final(self).deep_view() == NovelLifecycleStoreView {
                        events: before.events.push(e),
                        ..before
                    }
                }
            }),
            r is Err ==> final(self).deep_view() == old(self).deep_view(),
    {
        if let Err(e) = validate_id("task_id", event.task_id.as_str()) {
            return Err(e);
        }
        if let Err(e) = validate_id("project_id", event.project_id.as_str()) {
            return Err(e);
        }
        let ghost before = self.events;
        let copy = event.replicate();
        self.events.push(copy);
        proof {
            lemma_deep_push(before, self.events, copy);
        }
        Ok(())
    }

    /// The events of a task, in the order in which they happened.
    pub fn load_events(&self, task_id: &str) -> (r: Result<Vec<NovelTaskEvent>, MemoryError>)
        ensures
            if is_id(task_id@) {
                r is Ok && r->Ok_0.deep_view() == self.deep_view().events.filter(
                    |e: NovelTaskEventView| e.task_id == task_id@,
                )
            } else {
                r is Err && r->Err_0.deep_view() == bad_id("task_id"@, task_id@)
            },
    {
        if let Err(e) = validate_id("task_id", task_id) {
            return Err(e);
        }
        let ghost all = self.deep_view().events;
        let ghost p = |e: NovelTaskEventView| e.task_id == task_id@;
        let mut r: Vec<NovelTaskEvent> = Vec::new();
        let mut i: usize = 0;
        proof {
            lemma_filter_none(all, p);
            assert(r.deep_view() =~= Seq::<NovelTaskEventView>::empty());
        }
        while i < self.events.len()
            invariant
                i <= self.events@.len(),
                all == self.deep_view().events,
                p == (|e: NovelTaskEventView| e.task_id == task_id@),
                r.deep_view() == all.take(i as int).filter(p),
            decreases self.events@.len() - i,
        {
            let ghost before = r;
            proof {
                lemma_filter_step(all, i as int, p);
                assert(all[i as int] == self.events@[i as int].deep_view());
            }
            if same(self.events[i].task_id.as_str(), task_id) {
                let copy = self.events[i].replicate();
                r.push(copy);
                proof {
                    lemma_deep_push(before, r, copy);
                }
            }
            i = i + 1;
        }
        proof {
            lemma_take_all(all);
        }
        Ok(r)
    }

    fn find_checkpoint(&self, id: &str) -> (r: Option<usize>)
        ensures
            match r {
                Some(i) => i < self.checkpoints@.len() && checkpoint_index(
                    self.deep_view().checkpoints,
                    id@,
                ) == Some(i as int),
                None => checkpoint_index(self.deep_view().checkpoints, id@) is None,
            },
    {
        let ghost all = self.deep_view().checkpoints;
        let ghost p = |c: NovelTaskCheckpointView| c.task_id == id@;
        let mut i: usize = 0;
        while i < self.checkpoints.len()
            invariant
                i <= self.checkpoints@.len(),
                all == self.deep_view().checkpoints,
                p == (|c: NovelTaskCheckpointView| c.task_id == id@),
                forall|k: int| 0 <= k < i ==> !p(#[trigger] all[k]),
            decreases self.checkpoints@.len() - i,
        {
            assert(all[i as int] == self.checkpoints@[i as int].deep_view());
            if same(self.checkpoints[i].task_id.as_str(), id) {
                proof {
                    lemma_first_index_some(all, p, i as int);
                }
                return Some(i);
            }
            i = i + 1;
        }
        proof {
            lemma_first_index_none(all, p);
        }
        None
    }

    /// Keeps a checkpoint in place of the one that its task had.
    pub fn save_checkpoint(&mut self, checkpoint: &NovelTaskCheckpoint) -> (r: Result<
        (),
        MemoryError,
    >)
        ensures
            ({
                let c = checkpoint.deep_view();
                let before = old(self).deep_view();
                if !is_id(c.task_id) {
                    r is Err && r->Err_0.deep_view() == bad_id("task_id"@, c.task_id)
                } else if !is_id(c.project_id) {
                    r is Err && r->Err_0.deep_view() == bad_id("project_id"@, c.project_id)
                } else {
                    r is Ok && final(self).deep_view() == NovelLifecycleStoreView {
                        checkpoints: put_at(
                            before.checkpoints,
                            checkpoint_index(before.checkpoints, c.task_id),
                            c,
                        ),
                        ..before
                    }
                }
            }),
            r is Err ==> final(self).deep_view() == old(self).deep_view(),
    {
        if let Err(e) = validate_id("task_id", checkpoint.task_id.as_str()) {
            return Err(e);
        }
        if let Err(e) = validate_id("project_id", checkpoint.project_id.as_str()) {
            return Err(e);
        }
        let ghost before = self.deep_view().checkpoints;
        let copy = checkpoint.replicate();
        match self.find_checkpoint(checkpoint.task_id.as_str()) {
            Some(i) => {
                self.checkpoints.set(i, copy);
                assert(self.checkpoints.deep_view() =~= before.update(i as int, copy.deep_view()));
            },
            None => {
                self.checkpoints.push(copy);
                assert(self.checkpoints.deep_view() =~= before.push(copy.deep_view()));
            },
        }
        Ok(())
    }

    /// The checkpoint of a task.
    pub fn load_checkpoint(&self, task_id: &str) -> (r: Result<
        Option<NovelTaskCheckpoint>,
        MemoryError,
    >)
        ensures
            if is_id(task_id@) {
                r is Ok && r->Ok_0.deep_view() == match checkpoint_index(
                    self.deep_view().checkpoints,
                    task_id@,
                ) {
                    Some(i) => Some(self.deep_view().checkpoints[i]),
                    None => None,
                }
            } else {
                r is Err && r->Err_0.deep_view() == bad_id("task_id"@, task_id@)
            },
    {
        if let Err(e) = validate_id("task_id", task_id) {
            return Err(e);
        }
        match self.find_checkpoint(task_id) {
            Some(i) => Ok(Some(self.checkpoints[i].replicate())),
            None => Ok(None),
        }
    }

    /// The task of a project that is not at its end and was saved last.
    pub fn active_checkpoint_for_project(&self, project_id: &str) -> (r: Result<
        Option<NovelTaskCheckpoint>,
        MemoryError,
    >)
        ensures
            if is_id(project_id@) {
                r is Ok && r->Ok_0.deep_view() == latest_active(
                    self.deep_view().checkpoints,
                    project_id@,
                )
            } else {
                r is Err && r->Err_0.deep_view() == bad_id("project_id"@, project_id@)
            },
    {
        if let Err(e) = validate_id("project_id", project_id) {
            return Err(e);
        }
        let ghost all = self.deep_view().checkpoints;
        let mut best: Option<usize> = None;
        let mut i: usize = 0;
        while i < self.checkpoints.len()
            invariant
                i <= self.checkpoints@.len(),
                all == self.deep_view().checkpoints,
                match best {
                    Some(b) => b < i && latest_active(all.take(i as int), project_id@) == Some(
                        all[b as int],
                    ),
                    None => latest_active(all.take(i as int), project_id@) is None,
                },
            decreases self.checkpoints@.len() - i,
        {
            let c = &self.checkpoints[i];
            proof {
                lemma_take_step(all, i as int);
                assert(all[i as int] == c.deep_view());
            }
            if same(c.project_id.as_str(), project_id) && !c.phase.is_terminal() {
                let later = match best {
                    Some(b) => c.updated_at > self.checkpoints[b].updated_at,
                    None => true,
                };
                if later {
                    best = Some(i);
                }
            }
            i = i + 1;
        }
        proof {
            lemma_take_all(all);
        }
        match best {
            Some(b) => Ok(Some(self.checkpoints[b].replicate())),
            None => Ok(None),
        }
    }

    fn find_publication(&self, id: &str) -> (r: Option<usize>)
        ensures
            match r {
                Some(i) => i < self.publications@.len() && publication_index(
                    self.deep_view().publications,
                    id@,
                ) == Some(i as int),
                None => publication_index(self.deep_view().publications, id@) is None,
            },
    {
        let ghost all = self.deep_view().publications;
        let ghost p = |c: NovelPublicationRecordView| c.publication_id == id@;
        let mut i: usize = 0;
        while i < self.publications.len()
            invariant
                i <= self.publications@.len(),
                all == self.deep_view().publications,
                p == (|c: NovelPublicationRecordView| c.publication_id == id@),
                forall|k: int| 0 <= k < i ==> !p(#[trigger] all[k]),
            decreases self.publications@.len() - i,
        {
            assert(all[i as int] == self.publications@[i as int].deep_view());
            if same(self.publications[i].publication_id.as_str(), id) {
                proof {
                    lemma_first_index_some(all, p, i as int);
                }
                return Some(i);
            }
            i = i + 1;
        }
        proof {
            lemma_first_index_none(all, p);
        }
        None
    }

    fn has_pending(&self, project_id: &str) -> (r: bool)
        ensures
            r == exists|i: int|
                0 <= i < self.deep_view().publications.len() && is_pending_of(
                    #[trigger] self.deep_view().publications[i],
                    project_id@,
                ),
    {
        let ghost all = self.deep_view().publications;
        let mut i: usize = 0;
        while i < self.publications.len()
            invariant
                i <= self.publications@.len(),
                all == self.deep_view().publications,
                forall|k: int| 0 <= k < i ==> !is_pending_of(#[trigger] all[k], project_id@),
            decreases self.publications@.len() - i,
        {
            let p = &self.publications[i];
            assert(all[i as int] == p.deep_view());
            if (p.status == NovelPublicationStatus::Pending || p.status
                == NovelPublicationStatus::ArtifactSaved) && same(
                p.project_id.as_str(),
                project_id,
            ) {
                assert(is_pending_of(all[i as int], project_id@));
                return true;
            }
            i = i + 1;
        }
        false
    }

    /// Begins a publication; a project has one at a time.
    pub fn begin_publication(&mut self, record: &NovelPublicationRecord) -> (r: Result<
        (),
        MemoryError,
    >)
        ensures
            match begin_of(old(self).deep_view().publications, record.deep_view()) {
                Ok(s) => r is Ok && final(self).deep_view() == (NovelLifecycleStoreView {
                    publications: s,
                    ..old(self).deep_view()
                }),
                Err(e) => r is Err && r->Err_0.deep_view() == e && final(self).deep_view() == old(
                    self,
                ).deep_view(),
            },
    {
        if let Err(e) = validate_id("publication_id", record.publication_id.as_str()) {
            return Err(e);
        }
        if let Err(e) = validate_id("task_id", record.task_id.as_str()) {
            return Err(e);
        }
        if let Err(e) = validate_id("project_id", record.project_id.as_str()) {
            return Err(e);
        }
        if record.status != NovelPublicationStatus::Pending {
            return Err(MemoryError::Conflict("new publication record must be pending".to_owned()));
        }
        if self.find_publication(record.publication_id.as_str()).is_some() {
            let mut text = "小说发布事务已存在: ".to_owned();
            text.append(record.publication_id.as_str());
            return Err(MemoryError::Conflict(text));
        }
        if self.has_pending(record.project_id.as_str()) {
            let mut text = "项目 ".to_owned();
            text.append(record.project_id.as_str());
            text.append(" 已有未完成的发布事务");
            return Err(MemoryError::Conflict(text));
        }
        let ghost before = self.publications;
        let copy = record.replicate();
        self.publications.push(copy);
        proof {
            lemma_deep_push(before, self.publications, copy);
        }
        Ok(())
    }

    /// A publication.
    pub fn load_publication(&self, publication_id: &str) -> (r: Result<
        NovelPublicationRecord,
        MemoryError,
    >)
        ensures
            if !is_id(publication_id@) {
                r is Err && r->Err_0.deep_view() == bad_id("publication_id"@, publication_id@)
            } else {
                match publication_index(self.deep_view().publications, publication_id@) {
                    Some(i) => r is Ok && r->Ok_0.deep_view()
                        == self.deep_view().publications[i],
                    None => r is Err && r->Err_0.deep_view() == MemoryErrorView::NotFound(
                        "小说发布事务不存在: "@ + publication_id@,
                    ),
                }
            },
    {
        if let Err(e) = validate_id("publication_id", publication_id) {
            return Err(e);
        }
        match self.find_publication(publication_id) {
            Some(i) => Ok(self.publications[i].replicate()),
            None => {
                let mut text = "小说发布事务不存在: ".to_owned();
                text.append(publication_id);
                Err(MemoryError::NotFound(text))
            },
        }
    }

    /// Keeps a publication in place of the one with its id.
    pub fn save_publication(&mut self, record: &NovelPublicationRecord) -> (r: Result<
        (),
        MemoryError,
    >)
        ensures
            ({
                let p = record.deep_view();
                let before = old(self).deep_view();
                if !is_id(p.publication_id) {
                    r is Err && r->Err_0.deep_view() == bad_id("publication_id"@, p.publication_id)
                        && final(self).deep_view() == before
                } else {
                    r is Ok && final(self).deep_view() == NovelLifecycleStoreView {
                        publications: put_at(
                            before.publications,
                            publication_index(before.publications, p.publication_id),
                            p,
                        ),
                        ..before
                    }
                }
            }),
    {
        if let Err(e) = validate_id("publication_id", record.publication_id.as_str()) {
            return Err(e);
        }
        let ghost before = self.deep_view().publications;
        let copy = record.replicate();
        match self.find_publication(record.publication_id.as_str()) {
            Some(i) => {
                self.publications.set(i, copy);
                assert(self.publications.deep_view() =~= before.update(i as int, copy.deep_view()));
            },
            None => {
                self.publications.push(copy);
                assert(self.publications.deep_view() =~= before.push(copy.deep_view()));
            },
        }
        Ok(())
    }

    /// The publications that have not come to their end, the oldest first.
    pub fn pending_publications(&self) -> (r: Vec<NovelPublicationRecord>)
        ensures
            ({
                let pending = self.deep_view().publications.filter(
                    |p: NovelPublicationRecordView| is_pending(p),
                );
                exists|order: Seq<usize>|
                    #![trigger reordered(pending, order)]
                    stably_ordered(
                        pending.map_values(|p: NovelPublicationRecordView| p.created_at),
                        false,
                        order,
                    ) && r.deep_view() == reordered(pending, order)
            }),
    {
        let ghost all = self.deep_view().publications;
        let ghost p = |p: NovelPublicationRecordView| is_pending(p);
        let mut items: Vec<NovelPublicationRecord> = Vec::new();
        let mut keys: Vec<i64> = Vec::new();
        let mut i: usize = 0;
        proof {
            lemma_filter_none(all, p);
            assert(items.deep_view() =~= Seq::<NovelPublicationRecordView>::empty());
        }
        while i < self.publications.len()
            invariant
                i <= self.publications@.len(),
                all == self.deep_view().publications,
                p == (|p: NovelPublicationRecordView| is_pending(p)),
                items.deep_view() == all.take(i as int).filter(p),
                keys@.len() == items@.len(),
                forall|k: int|
                    0 <= k < keys@.len() ==> #[trigger] keys@[k] == items@[k].created_at,
            decreases self.publications@.len() - i,
        {
            let ghost before = items;
            let x = &self.publications[i];
            proof {
                lemma_filter_step(all, i as int, p);
                assert(all[i as int] == x.deep_view());
            }
            if x.status == NovelPublicationStatus::Pending || x.status
                == NovelPublicationStatus::ArtifactSaved {
                let copy = x.replicate();
                keys.push(copy.created_at);
                items.push(copy);
                proof {
                    lemma_deep_push(before, items, copy);
                }
            }
            i = i + 1;
        }
        proof {
            lemma_take_all(all);
        }
        let ghost pending = all.filter(p);
        assert forall|k: int| 0 <= k < keys@.len() implies #[trigger] keys@[k]
            == pending[k].created_at by {
            assert(pending[k] == items@[k].deep_view());
        }
        assert(keys@ =~= pending.map_values(|p: NovelPublicationRecordView| p.created_at));
        let order = stable_order(&keys, false);
        let slice = items.as_slice();
        assert(slice.deep_view() =~= pending);
        reorder(slice, &order)
    }

    /// The file of a checkpoint.
    pub fn checkpoint_path(&self, task_id: &str) -> (r: String)
        ensures
            r@ == path_of(path_of(self.root@, "checkpoints"@), task_id@ + ".json"@),
    {
        let dir = join_path(self.root.as_str(), "checkpoints");
        let mut name = task_id.to_owned();
        name.append(".json");
        join_path(dir.as_str(), name.as_str())
    }

    /// The file of the events of a task.
    pub fn event_path(&self, task_id: &str) -> (r: String)
        ensures
            r@ == path_of(path_of(self.root@, "events"@), task_id@ + ".jsonl"@),
    {
        let dir = join_path(self.root.as_str(), "events");
        let mut name = task_id.to_owned();
        name.append(".jsonl");
        join_path(dir.as_str(), name.as_str())
    }

    /// The file of a publication.
    pub fn publication_path(&self, publication_id: &str) -> (r: String)
        ensures
            r@ == path_of(path_of(self.root@, "publications"@), publication_id@ + ".json"@),
    {
        let dir = join_path(self.root.as_str(), "publications");
        let mut name = publication_id.to_owned();
        name.append(".json");
        join_path(dir.as_str(), name.as_str())
    }
}

/// Where no project has two pending publications, beginning one leaves none
/// with two.
pub proof fn law_one_publication_at_a_time(
    s: Seq<NovelPublicationRecordView>,
    p: NovelPublicationRecordView,
)
    requires
        one_pending(s),
        begin_of(s, p) is Ok,
    ensures
        one_pending(begin_of(s, p)->Ok_0),
{
    let after = s.push(p);
    assert forall|i: int, j: int|
        0 <= i < j < after.len() && is_pending(#[trigger] after[i]) && is_pending(
            #[trigger] after[j],
        ) implies after[i].project_id != after[j].project_id by {
        assert(after[i] == s[i]);
        if j < s.len() {
            assert(after[j] == s[j]);
        } else {
            assert(!is_pending_of(s[i], p.project_id));
        }
    }
}

/// A checkpoint that was saved is the one that is loaded.
pub proof fn law_saved_checkpoint_is_loaded(
    s: Seq<NovelTaskCheckpointView>,
    c: NovelTaskCheckpointView,
)
    ensures
        ({
            let after = put_at(s, checkpoint_index(s, c.task_id), c);
            checkpoint_index(after, c.task_id) is Some && after[checkpoint_index(
                after,
                c.task_id,
            )->0] == c
        }),
{
    let p = |x: NovelTaskCheckpointView| x.task_id == c.task_id;
    lemma_first_index(s, p);
    let i = checkpoint_index(s, c.task_id);
    let after = put_at(s, i, c);
    let at = if i is Some {
        i->0
    } else {
        s.len() as int
    };
    assert forall|k: int| 0 <= k < at implies !p(#[trigger] after[k]) by {
        assert(!p(s[k]));
    }
    lemma_first_index_some(after, p, at);
}

/// A publication that was saved is the one that is loaded.
pub proof fn law_saved_publication_is_loaded(
    s: Seq<NovelPublicationRecordView>,
    c: NovelPublicationRecordView,
)
    ensures
        ({
            let after = put_at(s, publication_index(s, c.publication_id), c);
            publication_index(after, c.publication_id) is Some && after[publication_index(
                after,
                c.publication_id,
            )->0] == c
        }),
{
    let p = |x: NovelPublicationRecordView| x.publication_id == c.publication_id;
    lemma_first_index(s, p);
    let i = publication_index(s, c.publication_id);
    let after = put_at(s, i, c);
    let at = if i is Some {
        i->0
    } else {
        s.len() as int
    };
    assert forall|k: int| 0 <= k < at implies !p(#[trigger] after[k]) by {
        assert(!p(s[k]));
    }
    lemma_first_index_some(after, p, at);
}

} // verus!
