//! The projects that are kept, and the graph that mirrors them.

use crate::json::{text_array, texts_view, Json, JsonFields, JsonNumber, JsonView};
use crate::memory::error::{MemoryError, MemoryErrorView};
use crate::memory::ids::{bad_id, is_id, validate_id};
use crate::memory::novel::canon::{
    clamp_unit, commit, commit_of, delta_problem, has_room, unit_of, validate_delta, ONE_BITS,
};
use crate::memory::novel::consistency::{check_consistency, report_of, ConsistencyReport};
use crate::memory::novel::laws::law_publication_is_committed_once;
use crate::memory::novel::schema::{
    CanonStatus, CommitReport, CommitReportView, ConflictRecordView, NovelFact, NovelFactKind,
    NovelFactView, NovelMemoryDelta, NovelMemoryDeltaView, NovelProject, NovelProjectView,
};
use crate::paths::{join_path, path_of};
use crate::replicate::Replicate;
use crate::seqs::{
    first_index, lemma_deep_push, lemma_first_index, lemma_first_index_none,
    lemma_first_index_some, reorder, reordered, stable_order, stably_ordered,
};
use crate::text::{
    fnv_of, hex, hex_of, is_blank, occurs_at, same, stable_hash, starts_with, trimmed,
};
use vstd::prelude::*;

verus! {

/// The name of a kind of facts.
pub open spec fn kind_name(k: NovelFactKind) -> Seq<char> {
    match k {
        NovelFactKind::WorldRule => "world_rule"@,
        NovelFactKind::Character => "character"@,
        NovelFactKind::CharacterState => "character_state"@,
        NovelFactKind::Location => "location"@,
        NovelFactKind::Organization => "organization"@,
        NovelFactKind::Item => "item"@,
        NovelFactKind::Event => "event"@,
        NovelFactKind::Timeline => "timeline"@,
        NovelFactKind::PlotThread => "plot_thread"@,
        NovelFactKind::Foreshadowing => "foreshadowing"@,
        NovelFactKind::Outline => "outline"@,
        NovelFactKind::ChapterPlan => "chapter_plan"@,
        NovelFactKind::ChapterSummary => "chapter_summary"@,
        NovelFactKind::Decision => "decision"@,
        NovelFactKind::Feedback => "feedback"@,
        NovelFactKind::WritingExperience => "writing_experience"@,
    }
}

/// The name of a kind of facts.
pub fn name_of_kind(k: NovelFactKind) -> (r: &'static str)
    ensures
        r@ == kind_name(k),
{
    match k {
        NovelFactKind::WorldRule => "world_rule",
        NovelFactKind::Character => "character",
        NovelFactKind::CharacterState => "character_state",
        NovelFactKind::Location => "location",
        NovelFactKind::Organization => "organization",
        NovelFactKind::Item => "item",
        NovelFactKind::Event => "event",
        NovelFactKind::Timeline => "timeline",
        NovelFactKind::PlotThread => "plot_thread",
        NovelFactKind::Foreshadowing => "foreshadowing",
        NovelFactKind::Outline => "outline",
        NovelFactKind::ChapterPlan => "chapter_plan",
        NovelFactKind::ChapterSummary => "chapter_summary",
        NovelFactKind::Decision => "decision",
        NovelFactKind::Feedback => "feedback",
        NovelFactKind::WritingExperience => "writing_experience",
    }
}

/// The name of a status.
pub open spec fn status_name(s: CanonStatus) -> Seq<char> {
    match s {
        CanonStatus::Draft => "draft"@,
        CanonStatus::Confirmed => "confirmed"@,
        CanonStatus::Rejected => "rejected"@,
        CanonStatus::Superseded => "superseded"@,
    }
}

/// The name of a status.
pub fn name_of_status(s: CanonStatus) -> (r: &'static str)
    ensures
        r@ == status_name(s),
{
    match s {
        CanonStatus::Draft => "draft",
        CanonStatus::Confirmed => "confirmed",
        CanonStatus::Rejected => "rejected",
        CanonStatus::Superseded => "superseded",
    }
}

// ---------------------------------------------------------------------------
// The graph
// ---------------------------------------------------------------------------

/// What a node of the graph stands for.
#[derive(Debug, Clone, Copy, PartialEq, Eq, Structural)]
pub enum GraphNodeKind {
    Entity,
    Memory,
}

impl DeepView for GraphNodeKind {
    type V = GraphNodeKind;

    open spec fn deep_view(&self) -> GraphNodeKind {
        *self
    }
}

impl Replicate for GraphNodeKind {
    fn replicate(&self) -> (r: Self) {
        *self
    }
}

/// A node of the graph.
#[derive(Debug, PartialEq)]
pub struct GraphNode {
    pub id: String,
    pub kind: GraphNodeKind,
    pub props: Json,
    /// The bits of the importance.
    pub importance: u64,
    pub created_at: i64,
    pub last_accessed: i64,
    pub superseded: bool,
}

/// What a node is.
#[verifier::ext_equal]
pub struct GraphNodeView {
    pub id: Seq<char>,
    pub kind: GraphNodeKind,
    pub props: JsonView,
    pub importance: u64,
    pub created_at: i64,
    pub last_accessed: i64,
    pub superseded: bool,
}

impl DeepView for GraphNode {
    type V = GraphNodeView;

    open spec fn deep_view(&self) -> GraphNodeView {
        GraphNodeView {
            id: self.id@,
            kind: self.kind,
            props: self.props.deep_view(),
            importance: self.importance,
            created_at: self.created_at,
            last_accessed: self.last_accessed,
            superseded: self.superseded,
        }
    }
}

impl Replicate for GraphNode {
    fn replicate(&self) -> (r: Self) {
        GraphNode {
            id: self.id.clone(),
            kind: self.kind,
            props: self.props.replicate(),
            importance: self.importance,
            created_at: self.created_at,
            last_accessed: self.last_accessed,
            superseded: self.superseded,
        }
    }
}

/// An edge of the graph, from what contains to what is contained.
#[derive(Debug, PartialEq)]
pub struct GraphEdge {
    pub src: String,
    pub dst: String,
    pub props: Json,
    pub created_at: i64,
    /// The bits of the weight.
    pub weight: u64,
}

/// What an edge is.
#[verifier::ext_equal]
pub struct GraphEdgeView {
    pub src: Seq<char>,
    pub dst: Seq<char>,
    pub props: JsonView,
    pub created_at: i64,
    pub weight: u64,
}

impl DeepView for GraphEdge {
    type V = GraphEdgeView;

    open spec fn deep_view(&self) -> GraphEdgeView {
        GraphEdgeView {
            src: self.src@,
            dst: self.dst@,
            props: self.props.deep_view(),
            created_at: self.created_at,
            weight: self.weight,
        }
    }
}

impl Replicate for GraphEdge {
    fn replicate(&self) -> (r: Self) {
        GraphEdge {
            src: self.src.clone(),
            dst: self.dst.clone(),
            props: self.props.replicate(),
            created_at: self.created_at,
            weight: self.weight,
        }
    }
}

/// The id of the node of a fact.
pub open spec fn fact_node_id(fact_id: Seq<char>) -> Seq<char> {
    if occurs_at(fact_id, "novel_"@, 0) {
        fact_id
    } else {
        "novel_memory_"@ + hex_of(fnv_of(vstd::utf8::encode_utf8(fact_id)) as nat, 16)
    }
}

/// The id of the node of a fact.
pub fn graph_fact_id(fact_id: &str) -> (r: String)
    ensures
        r@ == fact_node_id(fact_id@),
{
    if starts_with(fact_id, "novel_") {
        fact_id.to_owned()
    } else {
        let mut r = "novel_memory_".to_owned();
        let digits = hex(stable_hash(fact_id), 16);
        r.append(digits.as_str());
        r
    }
}

/// The id of the node of a project.
pub open spec fn project_node_id(project_id: Seq<char>) -> Seq<char> {
    "novel_entity_project_"@ + project_id
}

/// The node of a project.
pub open spec fn project_node_of(p: NovelProjectView, now: i64) -> GraphNodeView {
    GraphNodeView {
        id: project_node_id(p.project_id),
        kind: GraphNodeKind::Entity,
        props: JsonView::Object(
            seq![
                ("name"@, JsonView::Str(p.title)),
                ("title"@, JsonView::Str(p.title)),
                ("project_id"@, JsonView::Str(p.project_id)),
                ("novel_kind"@, JsonView::Str("project"@)),
                ("catalog_type"@, JsonView::Str("novel_project"@)),
                ("catalog_keywords"@, texts_view(seq![p.project_id, p.title])),
                ("summary"@, JsonView::Str("小说项目："@ + p.title)),
            ],
        ),
        importance: ONE_BITS,
        created_at: p.created_at,
        last_accessed: now,
        superseded: false,
    }
}

/// The node of a fact that is held with the confidence of the bits.
pub open spec fn fact_node_of(
    p: NovelProjectView,
    f: NovelFactView,
    id: Seq<char>,
    confidence: u64,
) -> GraphNodeView {
    GraphNodeView {
        id,
        kind: GraphNodeKind::Memory,
        props: JsonView::Object(
            seq![
                ("name"@, JsonView::Str(f.title)),
                ("title"@, JsonView::Str(f.title)),
                ("summary"@, JsonView::Str(f.summary)),
                ("project_id"@, JsonView::Str(p.project_id)),
                ("fact_id"@, JsonView::Str(f.fact_id)),
                ("novel_kind"@, JsonView::Str(kind_name(f.kind))),
                ("catalog_type"@, JsonView::Str("novel_fact"@)),
                (
                    "catalog_keywords"@,
                    texts_view(seq![p.project_id, p.title, f.subject_key, f.title]),
                ),
                ("source_refs"@, texts_view(f.source_refs)),
                ("data"@, f.data),
                ("status"@, JsonView::Str(status_name(f.status))),
                ("branch_id"@, JsonView::Str(f.branch_id)),
                ("revision"@, JsonView::Unsigned(f.revision)),
            ],
        ),
        importance: unit_of(confidence),
        created_at: f.created_at,
        last_accessed: f.updated_at,
        superseded: f.status == CanonStatus::Superseded,
    }
}

/// The edge from a project to a fact.
pub open spec fn fact_edge_of(
    p: NovelProjectView,
    f: NovelFactView,
    confidence: u64,
    now: i64,
) -> GraphEdgeView {
    GraphEdgeView {
        src: project_node_id(p.project_id),
        dst: fact_node_id(f.fact_id),
        props: JsonView::Object(seq![("project_id"@, JsonView::Str(p.project_id))]),
        created_at: now,
        weight: unit_of(confidence),
    }
}

fn node_id_of_project(project_id: &str) -> (r: String)
    ensures
        r@ == project_node_id(project_id@),
{
    let mut r = "novel_entity_project_".to_owned();
    r.append(project_id);
    r
}

/// The node of a project.
pub fn project_node(project: &NovelProject, now: i64) -> (r: GraphNode)
    ensures
        r.deep_view() == project_node_of(project.deep_view(), now),
{
    let keywords: Vec<String> = vec![project.project_id.clone(), project.title.clone()];
    assert(keywords.deep_view() =~= seq![project.project_id@, project.title@]);
    let mut summary = "小说项目：".to_owned();
    summary.append(project.title.as_str());
    let mut props = JsonFields::new();
    props.put_text("name", project.title.as_str());
    props.put_text("title", project.title.as_str());
    props.put_text("project_id", project.project_id.as_str());
    props.put_text("novel_kind", "project");
    props.put_text("catalog_type", "novel_project");
    props.put("catalog_keywords", text_array(&keywords));
    props.put_text("summary", summary.as_str());
    assert(props@ =~= project_node_of(project.deep_view(), now).props->Object_0);
    GraphNode {
        id: node_id_of_project(project.project_id.as_str()),
        kind: GraphNodeKind::Entity,
        props: props.done(),
        importance: ONE_BITS,
        created_at: project.created_at,
        last_accessed: now,
        superseded: false,
    }
}

/// The node of a fact that is held with the confidence of the bits.
pub fn fact_node(
    project: &NovelProject,
    fact: &NovelFact,
    node_id: &str,
    confidence: u64,
) -> (r: GraphNode)
    ensures
        r.deep_view() == fact_node_of(
            project.deep_view(),
            fact.deep_view(),
            node_id@,
            confidence,
        ),
{
    let keywords: Vec<String> = vec![
        project.project_id.clone(),
        project.title.clone(),
        fact.subject_key.clone(),
        fact.title.clone(),
    ];
    assert(keywords.deep_view() =~= seq![
        project.project_id@,
        project.title@,
        fact.subject_key@,
        fact.title@,
    ]);
    let mut props = JsonFields::new();
    props.put_text("name", fact.title.as_str());
    props.put_text("title", fact.title.as_str());
    props.put_text("summary", fact.summary.as_str());
    props.put_text("project_id", project.project_id.as_str());
    props.put_text("fact_id", fact.fact_id.as_str());
    props.put_text("novel_kind", name_of_kind(fact.kind));
    props.put_text("catalog_type", "novel_fact");
    props.put("catalog_keywords", text_array(&keywords));
    props.put("source_refs", text_array(&fact.source_refs));
    props.put("data", fact.data.replicate());
    props.put_text("status", name_of_status(fact.status));
    props.put_text("branch_id", fact.branch_id.as_str());
    props.put("revision", Json::Number(JsonNumber::Unsigned(fact.revision)));
    assert(props@ =~= fact_node_of(
        project.deep_view(),
        fact.deep_view(),
        node_id@,
        confidence,
    ).props->Object_0);
    GraphNode {
        id: node_id.to_owned(),
        kind: GraphNodeKind::Memory,
        props: props.done(),
        importance: clamp_unit(confidence),
        created_at: fact.created_at,
        last_accessed: fact.updated_at,
        superseded: fact.status == CanonStatus::Superseded,
    }
}

/// What mirrors a project in the graph: its node and one for each fact, and an
/// edge from it to each fact. `confidences` has the bits of the confidence
/// that each fact is held with.
pub fn mirror_to_graph(project: &NovelProject, confidences: &Vec<u64>, now: i64) -> (r: (
    Vec<GraphNode>,
    Vec<GraphEdge>,
))
    requires
        confidences@.len() == project.facts@.len(),
    ensures
        r.0.deep_view() == seq![project_node_of(project.deep_view(), now)] + Seq::new(
            project.facts@.len(),
            |i: int|
                fact_node_of(
                    project.deep_view(),
                    project.deep_view().facts[i],
                    fact_node_id(project.deep_view().facts[i].fact_id),
                    confidences@[i],
                ),
        ),
        r.1.deep_view() == Seq::new(
            project.facts@.len(),
            |i: int|
                fact_edge_of(
                    project.deep_view(),
                    project.deep_view().facts[i],
                    confidences@[i],
                    now,
                ),
        ),
{
    let ghost p = project.deep_view();
    let mut nodes: Vec<GraphNode> = Vec::new();
    let mut edges: Vec<GraphEdge> = Vec::new();
    nodes.push(project_node(project, now));
    let mut i: usize = 0;
    while i < project.facts.len()
        invariant
            i <= project.facts@.len(),
            confidences@.len() == project.facts@.len(),
            p == project.deep_view(),
            nodes@.len() == i + 1,
            edges@.len() == i,
            nodes@[0].deep_view() == project_node_of(p, now),
            forall|k: int|
                0 <= k < i ==> (#[trigger] edges@[k]).deep_view() == fact_edge_of(
                    p,
                    p.facts[k],
                    confidences@[k],
                    now,
                ),
            forall|k: int|
                1 <= k < i + 1 ==> (#[trigger] nodes@[k]).deep_view() == fact_node_of(
                    p,
                    p.facts[k - 1],
                    fact_node_id(p.facts[k - 1].fact_id),
                    confidences@[k - 1],
                ),
        decreases project.facts@.len() - i,
    {
        let fact = &project.facts[i];
        assert(p.facts[i as int] == fact.deep_view());
        let id = graph_fact_id(fact.fact_id.as_str());
        let mut props = JsonFields::new();
        props.put_text("project_id", project.project_id.as_str());
        assert(props@ =~= seq![("project_id"@, JsonView::Str(project.project_id@))]);
        nodes.push(fact_node(project, fact, id.as_str(), confidences[i]));
        edges.push(
            GraphEdge {
                src: node_id_of_project(project.project_id.as_str()),
                dst: id,
                props: props.done(),
                created_at: now,
                weight: clamp_unit(confidences[i]),
            },
        );
        i = i + 1;
    }
    assert(nodes.deep_view() =~= seq![project_node_of(p, now)] + Seq::new(
        project.facts@.len(),
        |i: int|
            fact_node_of(p, p.facts[i], fact_node_id(p.facts[i].fact_id), confidences@[i]),
    ));
    assert(edges.deep_view() =~= Seq::new(
        project.facts@.len(),
        |i: int| fact_edge_of(p, p.facts[i], confidences@[i], now),
    ));
    (nodes, edges)
}

// ---------------------------------------------------------------------------
// The projects
// ---------------------------------------------------------------------------

/// The projects that are kept, under ids of their own.
pub struct NovelMemoryStore {
    pub root: String,
    pub graph_db_path: Option<String>,
    pub projects: Vec<NovelProject>,
}

/// What a store is.
#[verifier::ext_equal]
pub struct NovelMemoryStoreView {
    pub root: Seq<char>,
    pub graph_db_path: Option<Seq<char>>,
    pub projects: Seq<NovelProjectView>,
}

impl DeepView for NovelMemoryStore {
    type V = NovelMemoryStoreView;

    open spec fn deep_view(&self) -> NovelMemoryStoreView {
        NovelMemoryStoreView {
            root: self.root@,
            graph_db_path: self.graph_db_path.deep_view(),
            projects: self.projects.deep_view(),
        }
    }
}

/// Where the project with this id stands.
pub open spec fn project_index(projects: Seq<NovelProjectView>, id: Seq<char>) -> Option<int> {
    first_index(projects, |p: NovelProjectView| p.project_id == id)
}

/// No two projects have one id.
pub open spec fn distinct_projects(projects: Seq<NovelProjectView>) -> bool {
    forall|i: int, j: int|
        0 <= i < j < projects.len() ==> (#[trigger] projects[i]).project_id != (
        #[trigger] projects[j]).project_id
}

/// What is said of a project that is not there.
pub open spec fn no_project(id: Seq<char>) -> MemoryErrorView {
    MemoryErrorView::NotFound("小说项目不存在: "@ + id)
}

/// Where a project is looked up, or what is wrong with looking.
pub open spec fn lookup_of(projects: Seq<NovelProjectView>, id: Seq<char>) -> Result<
    int,
    MemoryErrorView,
> {
    if !is_id(id) {
        Err(bad_id("project_id"@, id))
    } else {
        match project_index(projects, id) {
            Some(i) => Ok(i),
            None => Err(no_project(id)),
        }
    }
}

/// Where a conflict stands.
pub open spec fn conflict_index(p: NovelProjectView, id: Seq<char>) -> Option<int> {
    first_index(p.conflicts, |c: ConflictRecordView| c.conflict_id == id)
}

impl NovelMemoryStoreView {
    /// The store with the project at `i` replaced.
    pub open spec fn with_project(self, i: int, p: NovelProjectView) -> NovelMemoryStoreView {
        NovelMemoryStoreView { projects: self.projects.update(i, p), ..self }
    }
}

/// The store with a new project, which has an id, a title and no namesake.
pub open spec fn created(s: NovelMemoryStoreView, p: NovelProjectView) -> Result<
    NovelMemoryStoreView,
    MemoryErrorView,
> {
    if !is_id(p.project_id) {
        Err(bad_id("project_id"@, p.project_id))
    } else if trimmed(p.title).len() == 0 {
        Err(MemoryErrorView::Conflict("小说项目标题不能为空"@))
    } else if project_index(s.projects, p.project_id) is Some {
        Err(MemoryErrorView::Conflict("小说项目已存在: "@ + p.project_id))
    } else {
        Ok(NovelMemoryStoreView { projects: s.projects.push(p), ..s })
    }
}

/// The project with the conflict at `k` settled.
pub open spec fn with_settled(
    p: NovelProjectView,
    k: int,
    resolution: Seq<char>,
    now: i64,
) -> NovelProjectView {
    NovelProjectView {
        conflicts: p.conflicts.update(
            k,
            ConflictRecordView {
                resolved: true,
                resolution: Some(resolution),
                ..p.conflicts[k]
            },
        ),
        updated_at: now,
        ..p
    }
}

/// The store with a conflict of a project settled, and how.
pub open spec fn settled(
    s: NovelMemoryStoreView,
    project_id: Seq<char>,
    conflict_id: Seq<char>,
    resolution: Seq<char>,
    now: i64,
) -> Result<NovelMemoryStoreView, MemoryErrorView> {
    if trimmed(resolution).len() == 0 {
        Err(MemoryErrorView::Conflict("冲突处理说明不能为空"@))
    } else {
        match lookup_of(s.projects, project_id) {
            Err(e) => Err(e),
            Ok(i) => match conflict_index(s.projects[i], conflict_id) {
                None => Err(MemoryErrorView::NotFound("冲突不存在: "@ + conflict_id)),
                Some(k) => Ok(
                    s.with_project(i, with_settled(s.projects[i], k, resolution, now)),
                ),
            },
        }
    }
}

impl NovelMemoryStore {
    /// No two projects have one id.
    pub open spec fn wf(self) -> bool {
        distinct_projects(self.deep_view().projects)
    }

    /// A store below `base_dir` with no projects yet.
    pub fn new(base_dir: &str, graph_db_path: Option<String>) -> (r: Self)
        ensures
            r.wf(),
            r.deep_view() == (NovelMemoryStoreView {
                root: path_of(path_of(base_dir@, "novel"@), "projects"@),
                graph_db_path: graph_db_path.deep_view(),
                projects: Seq::empty(),
            }),
    {
        let novel = join_path(base_dir, "novel");
        let r = NovelMemoryStore {
            root: join_path(novel.as_str(), "projects"),
            graph_db_path,
            projects: Vec::new(),
        };
        assert(r.projects.deep_view() =~= Seq::<NovelProjectView>::empty());
        r
    }

    fn find(&self, id: &str) -> (r: Option<usize>)
        ensures
            match r {
                Some(i) => i < self.projects@.len() && project_index(
                    self.deep_view().projects,
                    id@,
                ) == Some(i as int),
                None => project_index(self.deep_view().projects, id@) is None,
            },
    {
        let ghost all = self.deep_view().projects;
        let ghost p = |p: NovelProjectView| p.project_id == id@;
        let mut i: usize = 0;
        while i < self.projects.len()
            invariant
                i <= self.projects@.len(),
                all == self.deep_view().projects,
                p == (|p: NovelProjectView| p.project_id == id@),
                forall|k: int| 0 <= k < i ==> !p(#[trigger] all[k]),
            decreases self.projects@.len() - i,
        {
            assert(all[i as int] == self.projects@[i as int].deep_view());
            if same(self.projects[i].project_id.as_str(), id) {
                proof {
                    lemma_first_index_some(all, p, i as int);
                }
                return Some(i);
            }
            i = i + 1;
        }
        proof {
            lemma_first_index_none(all, p);
        }
        None
    }

    fn lookup(&self, id: &str) -> (r: Result<usize, MemoryError>)
        ensures
            match r {
                Ok(i) => i < self.projects@.len() && lookup_of(self.deep_view().projects, id@)
                    == Ok::<int, MemoryErrorView>(i as int),
                Err(e) => lookup_of(self.deep_view().projects, id@) == Err::<int, MemoryErrorView>(
                    e.deep_view(),
                ),
            },
    {
        if let Err(e) = validate_id("project_id", id) {
            return Err(e);
        }
        match self.find(id) {
            Some(i) => Ok(i),
            None => {
                let mut text = "小说项目不存在: ".to_owned();
                text.append(id);
                Err(MemoryError::NotFound(text))
            },
        }
    }

    /// The file of a project.
    pub fn project_path(&self, project_id: &str) -> (r: String)
        ensures
            r@ == path_of(self.root@, project_id@ + ".json"@),
    {
        let mut name = project_id.to_owned();
        name.append(".json");
        join_path(self.root.as_str(), name.as_str())
    }

    /// Keeps a new project, under an id that is not taken.
    pub fn create_project(&mut self, project: &NovelProject) -> (r: Result<(), MemoryError>)
        requires
            old(self).wf(),
        ensures
            final(self).wf(),
            match created(old(self).deep_view(), project.deep_view()) {
                Ok(s) => r is Ok && final(self).deep_view() == s,
                Err(e) => r is Err && r->Err_0.deep_view() == e,
            },
            r is Err ==> final(self).deep_view() == old(self).deep_view(),
    {
        if let Err(e) = validate_id("project_id", project.project_id.as_str()) {
            return Err(e);
        }
        if is_blank(project.title.as_str()) {
            return Err(MemoryError::Conflict("小说项目标题不能为空".to_owned()));
        }
        if self.find(project.project_id.as_str()).is_some() {
            let mut text = "小说项目已存在: ".to_owned();
            text.append(project.project_id.as_str());
            return Err(MemoryError::Conflict(text));
        }
        let ghost before = self.projects;
        let copy = project.replicate();
        self.projects.push(copy);
        proof {
            lemma_deep_push(before, self.projects, copy);
            let all = before.deep_view();
            let p = |p: NovelProjectView| p.project_id == project.project_id@;
            lemma_first_index(all, p);
            let after = self.deep_view().projects;
            assert forall|i: int, j: int| 0 <= i < j < after.len() implies (
            #[trigger] after[i]).project_id != (#[trigger] after[j]).project_id by {
                if j == all.len() {
                    assert(!p(all[i]));
                } else {
                    assert(after[i] == all[i] && after[j] == all[j]);
                }
            }
        }
        Ok(())
    }

    /// The project with this id.
    pub fn load_project(&self, project_id: &str) -> (r: Result<NovelProject, MemoryError>)
        ensures
            match lookup_of(self.deep_view().projects, project_id@) {
                Ok(i) => r is Ok && r->Ok_0.deep_view() == self.deep_view().projects[i],
                Err(e) => r is Err && r->Err_0.deep_view() == e,
            },
    {
        match self.lookup(project_id) {
            Ok(i) => Ok(self.projects[i].replicate()),
            Err(e) => Err(e),
        }
    }

    /// The projects, the one changed last first.
    pub fn list_projects(&self) -> (r: Vec<NovelProject>)
        ensures
            exists|order: Seq<usize>|
                #![trigger reordered(self.deep_view().projects, order)]
                stably_ordered(
                    self.deep_view().projects.map_values(|p: NovelProjectView| p.updated_at),
                    true,
                    order,
                ) && r.deep_view() == reordered(self.deep_view().projects, order),
    {
        let mut keys: Vec<i64> = Vec::new();
        let mut i: usize = 0;
        while i < self.projects.len()
            invariant
                i <= self.projects@.len(),
                keys@.len() == i,
                forall|k: int| 0 <= k < i ==> #[trigger] keys@[k] == self.projects@[k].updated_at,
            decreases self.projects@.len() - i,
        {
            keys.push(self.projects[i].updated_at);
            i = i + 1;
        }
        let ghost all = self.deep_view().projects;
        assert(keys@ =~= all.map_values(|p: NovelProjectView| p.updated_at));
        let order = stable_order(&keys, true);
        let items = self.projects.as_slice();
        assert(items.deep_view() =~= all);
        reorder(items, &order)
    }

    /// Marks a conflict as settled; the facts stay as they are.
    pub fn resolve_conflict(
        &mut self,
        project_id: &str,
        conflict_id: &str,
        resolution: &str,
        now: i64,
    ) -> (r: Result<(), MemoryError>)
        requires
            old(self).wf(),
        ensures
            final(self).wf(),
            match settled(
                old(self).deep_view(),
                project_id@,
                conflict_id@,
                resolution@,
                now,
            ) {
                Ok(s) => r is Ok && final(self).deep_view() == s,
                Err(e) => r is Err && r->Err_0.deep_view() == e,
            },
            r is Err ==> final(self).deep_view() == old(self).deep_view(),
    {
        if is_blank(resolution) {
            return Err(MemoryError::Conflict("冲突处理说明不能为空".to_owned()));
        }
        let i: usize = match self.lookup(project_id) {
            Ok(i) => i,
            Err(e) => {
                return Err(e);
            },
        };
        let ghost before = self.deep_view();
        let mut project = self.projects[i].replicate();
        let ghost p0 = project.deep_view();
        assert(p0 == before.projects[i as int]);
        let ghost p = |c: ConflictRecordView| c.conflict_id == conflict_id@;
        let mut k: usize = 0;
        while k < project.conflicts.len()
            invariant
                k <= project.conflicts@.len(),
                p0 == project.deep_view(),
                before == self.deep_view(),
                self.wf(),
                i < self.projects@.len(),
                lookup_of(before.projects, project_id@) == Ok::<int, MemoryErrorView>(i as int),
                p0 == before.projects[i as int],
                *self == *old(self),
                trimmed(resolution@).len() > 0,
                p == (|c: ConflictRecordView| c.conflict_id == conflict_id@),
                forall|j: int| 0 <= j < k ==> !p(#[trigger] p0.conflicts[j]),
            decreases project.conflicts@.len() - k,
        {
            assert(p0.conflicts[k as int] == project.conflicts@[k as int].deep_view());
            if same(project.conflicts[k].conflict_id.as_str(), conflict_id) {
                proof {
                    lemma_first_index_some(p0.conflicts, p, k as int);
                }
                let mut c = project.conflicts[k].replicate();
                c.resolved = true;
                c.resolution = Some(resolution.to_owned());
                project.conflicts.set(k, c);
                project.updated_at = now;
                let ghost c1 = ConflictRecordView {
                    resolved: true,
                    resolution: Some(resolution@),
                    ..p0.conflicts[k as int]
                };
                let ghost p1 = NovelProjectView {
                    conflicts: p0.conflicts.update(k as int, c1),
                    updated_at: now,
                    ..p0
                };
                assert(c.deep_view() =~= c1);
                assert(project.conflicts.deep_view() =~= p0.conflicts.update(k as int, c1));
                assert(project.deep_view() =~= p1);
                self.projects.set(i, project);
                proof {
                    assert(self.projects.deep_view() =~= before.projects.update(i as int, p1));
                    lemma_same_ids(before.projects, i as int, p1);
                }
                return Ok(());
            }
            k = k + 1;
        }
        proof {
            lemma_first_index_none(p0.conflicts, p);
        }
        let mut text = "冲突不存在: ".to_owned();
        text.append(conflict_id);
        Err(MemoryError::NotFound(text))
    }

    /// The problems of a project.
    pub fn check_consistency(&self, project_id: &str) -> (r: Result<
        ConsistencyReport,
        MemoryError,
    >)
        ensures
            match lookup_of(self.deep_view().projects, project_id@) {
                Ok(i) => r is Ok && r->Ok_0.deep_view() == report_of(
                    self.deep_view().projects[i],
                ),
                Err(e) => r is Err && r->Err_0.deep_view() == e,
            },
    {
        match self.lookup(project_id) {
            Ok(i) => {
                assert(self.deep_view().projects[i as int] == self.projects@[i as int].deep_view());
                Ok(check_consistency(&self.projects[i]))
            },
            Err(e) => Err(e),
        }
    }

    fn commit_delta_internal(
        &mut self,
        delta: &NovelMemoryDelta,
        publication_id: Option<&str>,
        now: i64,
    ) -> (r: Result<CommitReport, MemoryError>)
        requires
            old(self).wf(),
            room_for(old(self).deep_view(), delta.deep_view(), publication_id.deep_view()),
        ensures
            final(self).wf(),
            stored_commit(
                old(self).deep_view(),
                delta.deep_view(),
                publication_id.deep_view(),
                now,
                final(self).deep_view(),
                result_view(r),
            ),
    {
        let ghost before = self.deep_view();
        if let Err(e) = validate_delta(delta) {
            return Err(e);
        }
        let i: usize = match self.lookup(delta.project_id.as_str()) {
            Ok(i) => i,
            Err(e) => {
                return Err(e);
            },
        };
        let mut project = self.projects[i].replicate();
        assert(project.deep_view() == before.projects[i as int]);
        let mut r = commit(&mut project, delta, publication_id, now);
        if self.graph_db_path.is_none() {
            if let Ok(report) = &mut r {
                report.graph_mirrored = true;
            }
        }
        let ghost after = project.deep_view();
        proof {
            let q = |p: NovelProjectView| p.project_id == delta.project_id@;
            lemma_first_index(before.projects, q);
        }
        self.projects.set(i, project);
        assert(self.projects.deep_view() =~= before.projects.update(i as int, after));
        proof {
            if r is Err {
                assert(before.projects.update(i as int, after) =~= before.projects);
            }
            lemma_same_ids(before.projects, i as int, after);
        }
        r
    }

    /// Checks a set of changes and commits it. Facts in conflict do not enter
    /// the canon; the others do, all at once. The report says that the graph is
    /// up to date where the canon did not change or there is no graph.
    pub fn commit_delta(&mut self, delta: &NovelMemoryDelta, now: i64) -> (r: Result<
        CommitReport,
        MemoryError,
    >)
        requires
            old(self).wf(),
            room_for(old(self).deep_view(), delta.deep_view(), None),
        ensures
            final(self).wf(),
            stored_commit(
                old(self).deep_view(),
                delta.deep_view(),
                None,
                now,
                final(self).deep_view(),
                result_view(r),
            ),
    {
        self.commit_delta_internal(delta, None, now)
    }

    /// Checks the changes of a publication and commits them, once.
    pub fn commit_delta_for_publication(
        &mut self,
        delta: &NovelMemoryDelta,
        publication_id: &str,
        now: i64,
    ) -> (r: Result<CommitReport, MemoryError>)
        requires
            old(self).wf(),
            is_id(publication_id@) ==> room_for(
                old(self).deep_view(),
                delta.deep_view(),
                Some(publication_id@),
            ),
        ensures
            final(self).wf(),
            if is_id(publication_id@) {
                stored_commit(
                    old(self).deep_view(),
                    delta.deep_view(),
                    Some(publication_id@),
                    now,
                    final(self).deep_view(),
                    result_view(r),
                )
            } else {
                r is Err && r->Err_0.deep_view() == bad_id("project_id"@, publication_id@)
                    && final(self).deep_view() == old(self).deep_view()
            },
    {
        if let Err(e) = validate_id("project_id", publication_id) {
            return Err(e);
        }
        self.commit_delta_internal(delta, Some(publication_id), now)
    }
}

/// Changes can be counted: nothing comes to be committed, or the project is not
/// at its last revision.
pub open spec fn room_for(
    s: NovelMemoryStoreView,
    d: NovelMemoryDeltaView,
    publication: Option<Seq<char>>,
) -> bool {
    delta_problem(d) is Some || match lookup_of(s.projects, d.project_id) {
        Ok(i) => has_room(s.projects[i], d, publication),
        Err(_) => true,
    }
}

/// The report of a store on a commit: with no graph to keep, that is never
/// behind.
pub open spec fn reported(s: NovelMemoryStoreView, report: CommitReportView) -> CommitReportView {
    CommitReportView {
        graph_mirrored: report.graph_mirrored || s.graph_db_path is None,
        ..report
    }
}

/// What a result is.
pub open spec fn result_view(r: Result<CommitReport, MemoryError>) -> Result<
    CommitReportView,
    MemoryErrorView,
> {
    match r {
        Ok(x) => Ok(x.deep_view()),
        Err(e) => Err(e.deep_view()),
    }
}

/// The result of a commit, and the store after it.
pub open spec fn stored_commit(
    before: NovelMemoryStoreView,
    d: NovelMemoryDeltaView,
    publication: Option<Seq<char>>,
    now: i64,
    after: NovelMemoryStoreView,
    r: Result<CommitReportView, MemoryErrorView>,
) -> bool {
    if delta_problem(d) is Some {
        r == Err::<CommitReportView, MemoryErrorView>(delta_problem(d)->0) && after == before
    } else {
        match lookup_of(before.projects, d.project_id) {
            Err(e) => r == Err::<CommitReportView, MemoryErrorView>(e) && after == before,
            Ok(i) => match commit_of(before.projects[i], d, publication, now) {
                Err(e) => r == Err::<CommitReportView, MemoryErrorView>(e) && after == before,
                Ok((p, report)) => r == Ok::<CommitReportView, MemoryErrorView>(
                    reported(before, report),
                ) && after == before.with_project(i, p),
            },
        }
    }
}

proof fn lemma_same_ids(projects: Seq<NovelProjectView>, i: int, p: NovelProjectView)
    requires
        0 <= i < projects.len(),
        distinct_projects(projects),
        p.project_id == projects[i].project_id,
    ensures
        distinct_projects(projects.update(i, p)),
{
    let after = projects.update(i, p);
    assert forall|a: int, b: int| 0 <= a < b < after.len() implies (
    #[trigger] after[a]).project_id != (#[trigger] after[b]).project_id by {
        assert(projects[a].project_id != projects[b].project_id);
    }
}

/// A project is found again under its id as it was when it was created.
pub proof fn law_created_project_is_found(
    s: NovelMemoryStoreView,
    p: NovelProjectView,
)
    requires
        is_id(p.project_id),
        project_index(s.projects, p.project_id) is None,
    ensures
        lookup_of(s.projects.push(p), p.project_id) == Ok::<int, MemoryErrorView>(
            s.projects.len() as int,
        ),
        s.projects.push(p)[s.projects.len() as int] == p,
{
    let q = |x: NovelProjectView| x.project_id == p.project_id;
    lemma_first_index(s.projects, q);
    let after = s.projects.push(p);
    assert forall|k: int| 0 <= k < s.projects.len() implies !q(#[trigger] after[k]) by {
        assert(!q(s.projects[k]));
    }
    lemma_first_index_some(after, q, s.projects.len() as int);
}

/// The changes of a publication are stored once: when they come again, although
/// the revision they were made for is past by then, there is room for them, the
/// store stays as it is, and the report gives the revision that the first commit
/// led to, with nothing accepted and nothing in conflict.
pub proof fn law_publication_is_stored_once(
    before: NovelMemoryStoreView,
    d: NovelMemoryDeltaView,
    publication: Seq<char>,
    now: i64,
    stored: NovelMemoryStoreView,
    first: CommitReportView,
    later: i64,
    after: NovelMemoryStoreView,
    r: Result<CommitReportView, MemoryErrorView>,
)
    requires
        stored_commit(
            before,
            d,
            Some(publication),
            now,
            stored,
            Ok::<CommitReportView, MemoryErrorView>(first),
        ),
        stored_commit(stored, d, Some(publication), later, after, r),
    ensures
        room_for(stored, d, Some(publication)),
        after == stored,
        r is Ok,
        r->Ok_0.project_id == first.project_id,
        r->Ok_0.new_revision == first.new_revision,
        r->Ok_0.accepted_fact_ids.len() == 0,
        r->Ok_0.conflicts.len() == 0,
        r->Ok_0.graph_mirrored,
{
    let q = |x: NovelProjectView| x.project_id == d.project_id;
    lemma_first_index(before.projects, q);
    let i = project_index(before.projects, d.project_id)->0;
    let p = before.projects[i];
    let p1 = commit_of(p, d, Some(publication), now)->Ok_0.0;
    assert(stored.projects[i] == p1);
    assert forall|k: int| 0 <= k < i implies !q(#[trigger] stored.projects[k]) by {
        assert(!q(before.projects[k]));
    }
    lemma_first_index_some(stored.projects, q, i);
    law_publication_is_committed_once(p, d, d, publication, now, later);
    assert(stored.projects.update(i, p1) =~= stored.projects);
}

/// A commit to one project leaves every other project as it is.
pub proof fn law_projects_are_isolated(
    before: NovelMemoryStoreView,
    d: NovelMemoryDeltaView,
    publication: Option<Seq<char>>,
    now: i64,
    after: NovelMemoryStoreView,
    r: Result<CommitReportView, MemoryErrorView>,
    k: int,
)
    requires
        stored_commit(before, d, publication, now, after, r),
        0 <= k < before.projects.len(),
        before.projects[k].project_id != d.project_id,
    ensures
        after.projects.len() == before.projects.len(),
        after.projects[k] == before.projects[k],
{
    let q = |x: NovelProjectView| x.project_id == d.project_id;
    lemma_first_index(before.projects, q);
}

} // verus!
