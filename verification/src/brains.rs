//! What the brains say to each other.

use crate::json::{Json, JsonView};
use crate::replicate::Replicate;
use vstd::prelude::*;

verus! {

/// The name of a brain.
#[derive(Debug, PartialEq)]
pub struct BrainId {
    pub name: String,
}

/// What a name is.
#[verifier::ext_equal]
pub struct BrainIdView {
    pub name: Seq<char>,
}

impl DeepView for BrainId {
    type V = BrainIdView;

    open spec fn deep_view(&self) -> BrainIdView {
        BrainIdView {
            name: self.name@,
        }
    }
}

impl Replicate for BrainId {
    fn replicate(&self) -> (r: Self) {
        BrainId {
            name: self.name.clone(),
        }
    }
}

impl BrainId {
    /// The brain that judges and dispatches.
    pub fn master() -> (r: Self)
        ensures
            r.deep_view().name == "master"@,
    {
        BrainId { name: "master".to_owned() }
    }

    /// The brain that remembers.
    pub fn memory() -> (r: Self)
        ensures
            r.deep_view().name == "memory"@,
    {
        BrainId { name: "memory".to_owned() }
    }

    /// The brain that reasons.
    pub fn reasoning() -> (r: Self)
        ensures
            r.deep_view().name == "reasoning"@,
    {
        BrainId { name: "reasoning".to_owned() }
    }

    /// The brain that acts.
    pub fn motor() -> (r: Self)
        ensures
            r.deep_view().name == "motor"@,
    {
        BrainId { name: "motor".to_owned() }
    }
}

/// A layer of the memory.
#[derive(Debug, Clone, Copy, PartialEq, Eq, Structural)]
pub enum MemoryLayer {
    TaskSummary,
    EventIndex,
    ShortTerm,
    Raw,
}

impl DeepView for MemoryLayer {
    type V = MemoryLayer;

    open spec fn deep_view(&self) -> MemoryLayer {
        *self
    }
}

impl Replicate for MemoryLayer {
    fn replicate(&self) -> (r: Self) {
        *self
    }
}

/// What a message between brains is for.
#[derive(Debug, Clone, Copy, PartialEq, Eq, Structural)]
pub enum CollaborationKind {
    Request,
    Response,
    Dispatch,
}

impl DeepView for CollaborationKind {
    type V = CollaborationKind;

    open spec fn deep_view(&self) -> CollaborationKind {
        *self
    }
}

impl Replicate for CollaborationKind {
    fn replicate(&self) -> (r: Self) {
        *self
    }
}

/// How urgent a message is.
#[derive(Debug, Clone, Copy, PartialEq, Eq, Structural)]
pub enum MessagePriority {
    Normal,
    High,
}

impl DeepView for MessagePriority {
    type V = MessagePriority;

    open spec fn deep_view(&self) -> MessagePriority {
        *self
    }
}

impl Replicate for MessagePriority {
    fn replicate(&self) -> (r: Self) {
        *self
    }
}

/// How far the task at hand has come.
#[derive(Debug, Clone, Copy, PartialEq, Eq, Structural)]
pub enum TaskPhase {
    WaitingFastThink,
    DispatchingSlowThink,
    WaitingSlowThink,
}

impl DeepView for TaskPhase {
    type V = TaskPhase;

    open spec fn deep_view(&self) -> TaskPhase {
        *self
    }
}

impl Replicate for TaskPhase {
    fn replicate(&self) -> (r: Self) {
        *self
    }
}

/// Where something known comes from: an entry of the memory.
#[derive(Debug, PartialEq)]
pub struct KnowledgeSource {
    pub memory_id: String,
    pub layer: MemoryLayer,
}

/// What a source is.
#[verifier::ext_equal]
pub struct KnowledgeSourceView {
    pub memory_id: Seq<char>,
    pub layer: MemoryLayer,
}

impl DeepView for KnowledgeSource {
    type V = KnowledgeSourceView;

    open spec fn deep_view(&self) -> KnowledgeSourceView {
        KnowledgeSourceView {
            memory_id: self.memory_id@,
            layer: self.layer,
        }
    }
}

impl Replicate for KnowledgeSource {
    fn replicate(&self) -> (r: Self) {
        KnowledgeSource {
            memory_id: self.memory_id.clone(),
            layer: self.layer,
        }
    }
}

/// An entry of the memory.
#[derive(Debug, PartialEq)]
pub struct MemoryEntry {
    pub id: String,
    pub content: String,
    pub tags: Vec<String>,
    pub layer: MemoryLayer,
    /// The bits of the importance.
    pub importance: u64,
    pub source: KnowledgeSource,
    /// The bits of the confidence.
    pub confidence: u64,
    pub reference_count: u32,
    pub created_at: i64,
    pub last_accessed: i64,
    pub consolidated: bool,
}

/// What an entry is.
#[verifier::ext_equal]
pub struct MemoryEntryView {
    pub id: Seq<char>,
    pub content: Seq<char>,
    pub tags: Seq<Seq<char>>,
    pub layer: MemoryLayer,
    pub importance: u64,
    pub source: KnowledgeSourceView,
    pub confidence: u64,
    pub reference_count: u32,
    pub created_at: i64,
    pub last_accessed: i64,
    pub consolidated: bool,
}

impl DeepView for MemoryEntry {
    type V = MemoryEntryView;

    open spec fn deep_view(&self) -> MemoryEntryView {
        MemoryEntryView {
            id: self.id@,
            content: self.content@,
            tags: self.tags.deep_view(),
            layer: self.layer,
            importance: self.importance,
            source: self.source.deep_view(),
            confidence: self.confidence,
            reference_count: self.reference_count,
            created_at: self.created_at,
            last_accessed: self.last_accessed,
            consolidated: self.consolidated,
        }
    }
}

impl Replicate for MemoryEntry {
    fn replicate(&self) -> (r: Self) {
        MemoryEntry {
            id: self.id.clone(),
            content: self.content.clone(),
            tags: self.tags.replicate(),
            layer: self.layer,
            importance: self.importance,
            source: self.source.replicate(),
            confidence: self.confidence,
            reference_count: self.reference_count,
            created_at: self.created_at,
            last_accessed: self.last_accessed,
            consolidated: self.consolidated,
        }
    }
}

/// Where the user is.
#[derive(Debug, PartialEq)]
pub struct BrainContext {
    pub current_date: String,
    pub cwd: String,
    pub git_branch: Option<String>,
    pub platform: String,
}

/// What a context is.
#[verifier::ext_equal]
pub struct BrainContextView {
    pub current_date: Seq<char>,
    pub cwd: Seq<char>,
    pub git_branch: Option<Seq<char>>,
    pub platform: Seq<char>,
}

impl DeepView for BrainContext {
    type V = BrainContextView;

    open spec fn deep_view(&self) -> BrainContextView {
        BrainContextView {
            current_date: self.current_date@,
            cwd: self.cwd@,
            git_branch: self.git_branch.deep_view(),
            platform: self.platform@,
        }
    }
}

impl Replicate for BrainContext {
    fn replicate(&self) -> (r: Self) {
        BrainContext {
            current_date: self.current_date.clone(),
            cwd: self.cwd.clone(),
            git_branch: self.git_branch.replicate(),
            platform: self.platform.clone(),
        }
    }
}

/// What the user said, for every brain to hear.
#[derive(Debug, PartialEq)]
pub struct BroadcastMessage {
    pub content: String,
    pub raw_input: String,
    pub context: BrainContext,
    pub timestamp: i64,
}

/// What a message is.
#[verifier::ext_equal]
pub struct BroadcastMessageView {
    pub content: Seq<char>,
    pub raw_input: Seq<char>,
    pub context: BrainContextView,
    pub timestamp: i64,
}

impl DeepView for BroadcastMessage {
    type V = BroadcastMessageView;

    open spec fn deep_view(&self) -> BroadcastMessageView {
        BroadcastMessageView {
            content: self.content@,
            raw_input: self.raw_input@,
            context: self.context.deep_view(),
            timestamp: self.timestamp,
        }
    }
}

impl Replicate for BroadcastMessage {
    fn replicate(&self) -> (r: Self) {
        BroadcastMessage {
            content: self.content.clone(),
            raw_input: self.raw_input.clone(),
            context: self.context.replicate(),
            timestamp: self.timestamp,
        }
    }
}

/// A message from one brain to others.
#[derive(Debug, PartialEq)]
pub struct CollaborationMessage {
    pub id: String,
    pub from: BrainId,
    pub to: Vec<BrainId>,
    pub correlation_id: Option<String>,
    pub hop_count: u32,
    pub priority: MessagePriority,
    pub content: String,
    pub kind: CollaborationKind,
}

/// What a message is.
#[verifier::ext_equal]
pub struct CollaborationMessageView {
    pub id: Seq<char>,
    pub from: BrainIdView,
    pub to: Seq<BrainIdView>,
    pub correlation_id: Option<Seq<char>>,
    pub hop_count: u32,
    pub priority: MessagePriority,
    pub content: Seq<char>,
    pub kind: CollaborationKind,
}

impl DeepView for CollaborationMessage {
    type V = CollaborationMessageView;

    open spec fn deep_view(&self) -> CollaborationMessageView {
        CollaborationMessageView {
            id: self.id@,
            from: self.from.deep_view(),
            to: self.to.deep_view(),
            correlation_id: self.correlation_id.deep_view(),
            hop_count: self.hop_count,
            priority: self.priority,
            content: self.content@,
            kind: self.kind,
        }
    }
}

impl Replicate for CollaborationMessage {
    fn replicate(&self) -> (r: Self) {
        CollaborationMessage {
            id: self.id.clone(),
            from: self.from.replicate(),
            to: self.to.replicate(),
            correlation_id: self.correlation_id.replicate(),
            hop_count: self.hop_count,
            priority: self.priority,
            content: self.content.clone(),
            kind: self.kind,
        }
    }
}

/// What a brain thinks at once.
#[derive(Debug, PartialEq)]
pub struct FastThinkResult {
    pub relevant: bool,
    /// The bits of the confidence.
    pub confidence: u64,
    pub summary: Option<String>,
    pub suggested_tools: Vec<String>,
    pub matched_experience: Option<String>,
}

/// What such a thought is.
#[verifier::ext_equal]
pub struct FastThinkResultView {
    pub relevant: bool,
    pub confidence: u64,
    pub summary: Option<Seq<char>>,
    pub suggested_tools: Seq<Seq<char>>,
    pub matched_experience: Option<Seq<char>>,
}

impl DeepView for FastThinkResult {
    type V = FastThinkResultView;

    open spec fn deep_view(&self) -> FastThinkResultView {
        FastThinkResultView {
            relevant: self.relevant,
            confidence: self.confidence,
            summary: self.summary.deep_view(),
            suggested_tools: self.suggested_tools.deep_view(),
            matched_experience: self.matched_experience.deep_view(),
        }
    }
}

impl Replicate for FastThinkResult {
    fn replicate(&self) -> (r: Self) {
        FastThinkResult {
            relevant: self.relevant,
            confidence: self.confidence,
            summary: self.summary.replicate(),
            suggested_tools: self.suggested_tools.replicate(),
            matched_experience: self.matched_experience.replicate(),
        }
    }
}

/// What a brain thinks after a while.
#[derive(Debug, PartialEq)]
pub struct SlowThinkResult {
    pub conclusion: String,
    pub reasoning_path: Vec<String>,
    /// The bits of the confidence.
    pub confidence: u64,
    pub sources: Vec<KnowledgeSource>,
    pub new_experience: Option<String>,
}

/// What such a thought is.
#[verifier::ext_equal]
pub struct SlowThinkResultView {
    pub conclusion: Seq<char>,
    pub reasoning_path: Seq<Seq<char>>,
    pub confidence: u64,
    pub sources: Seq<KnowledgeSourceView>,
    pub new_experience: Option<Seq<char>>,
}

impl DeepView for SlowThinkResult {
    type V = SlowThinkResultView;

    open spec fn deep_view(&self) -> SlowThinkResultView {
        SlowThinkResultView {
            conclusion: self.conclusion@,
            reasoning_path: self.reasoning_path.deep_view(),
            confidence: self.confidence,
            sources: self.sources.deep_view(),
            new_experience: self.new_experience.deep_view(),
        }
    }
}

impl Replicate for SlowThinkResult {
    fn replicate(&self) -> (r: Self) {
        SlowThinkResult {
            conclusion: self.conclusion.clone(),
            reasoning_path: self.reasoning_path.replicate(),
            confidence: self.confidence,
            sources: self.sources.replicate(),
            new_experience: self.new_experience.replicate(),
        }
    }
}

/// What a brain answers.
#[derive(Debug, PartialEq)]
pub enum BrainResponsePayload {
    FastThink(FastThinkResult),
    SlowThink(SlowThinkResult),
    MemoryRecall(Vec<MemoryEntry>),
    /// What a tool gave out.
    ToolResult(String),
    SafetyCheck(Json),
    TruthfulnessCheck(Json),
    Evaluation(Json),
    /// The answer is still to come.
    Processing,
    NotRelevant { reason: String },
}

/// What an answer is.
#[verifier::ext_equal]
pub enum BrainResponsePayloadView {
    FastThink(FastThinkResultView),
    SlowThink(SlowThinkResultView),
    MemoryRecall(Seq<MemoryEntryView>),
    ToolResult(Seq<char>),
    SafetyCheck(JsonView),
    TruthfulnessCheck(JsonView),
    Evaluation(JsonView),
    Processing,
    NotRelevant { reason: Seq<char> },
}

impl DeepView for BrainResponsePayload {
    type V = BrainResponsePayloadView;

    open spec fn deep_view(&self) -> BrainResponsePayloadView {
        match self {
            BrainResponsePayload::FastThink(t) => BrainResponsePayloadView::FastThink(
                t.deep_view(),
            ),
            BrainResponsePayload::SlowThink(t) => BrainResponsePayloadView::SlowThink(
                t.deep_view(),
            ),
            BrainResponsePayload::MemoryRecall(v) => BrainResponsePayloadView::MemoryRecall(
                v.deep_view(),
            ),
            BrainResponsePayload::ToolResult(s) => BrainResponsePayloadView::ToolResult(s@),
            BrainResponsePayload::SafetyCheck(j) => BrainResponsePayloadView::SafetyCheck(
                j.deep_view(),
            ),
            BrainResponsePayload::TruthfulnessCheck(j) =>
                BrainResponsePayloadView::TruthfulnessCheck(j.deep_view()),
            BrainResponsePayload::Evaluation(j) => BrainResponsePayloadView::Evaluation(
                j.deep_view(),
            ),
            BrainResponsePayload::Processing => BrainResponsePayloadView::Processing,
            BrainResponsePayload::NotRelevant { reason } => BrainResponsePayloadView::NotRelevant {
                reason: reason@,
            },
        }
    }
}

impl Replicate for BrainResponsePayload {
    fn replicate(&self) -> (r: Self) {
        match self {
            BrainResponsePayload::FastThink(t) => BrainResponsePayload::FastThink(t.replicate()),
            BrainResponsePayload::SlowThink(t) => BrainResponsePayload::SlowThink(t.replicate()),
            BrainResponsePayload::MemoryRecall(v) => BrainResponsePayload::MemoryRecall(
                v.replicate(),
            ),
            BrainResponsePayload::ToolResult(s) => BrainResponsePayload::ToolResult(s.clone()),
            BrainResponsePayload::SafetyCheck(j) => BrainResponsePayload::SafetyCheck(
                j.replicate(),
            ),
            BrainResponsePayload::TruthfulnessCheck(j) => BrainResponsePayload::TruthfulnessCheck(
                j.replicate(),
            ),
            BrainResponsePayload::Evaluation(j) => BrainResponsePayload::Evaluation(j.replicate()),
            BrainResponsePayload::Processing => BrainResponsePayload::Processing,
            BrainResponsePayload::NotRelevant { reason } => BrainResponsePayload::NotRelevant {
                reason: reason.clone(),
            },
        }
    }
}

/// The answer of a brain.
#[derive(Debug, PartialEq)]
pub struct BrainResponse {
    pub from: BrainId,
    /// The bits of the relevance.
    pub relevance: u64,
    /// The bits of the confidence.
    pub confidence: u64,
    pub result: BrainResponsePayload,
    pub need_slow_think: bool,
    pub timestamp: i64,
}

/// What such an answer is.
#[verifier::ext_equal]
pub struct BrainResponseView {
    pub from: BrainIdView,
    pub relevance: u64,
    pub confidence: u64,
    pub result: BrainResponsePayloadView,
    pub need_slow_think: bool,
    pub timestamp: i64,
}

impl DeepView for BrainResponse {
    type V = BrainResponseView;

    open spec fn deep_view(&self) -> BrainResponseView {
        BrainResponseView {
            from: self.from.deep_view(),
            relevance: self.relevance,
            confidence: self.confidence,
            result: self.result.deep_view(),
            need_slow_think: self.need_slow_think,
            timestamp: self.timestamp,
        }
    }
}

impl Replicate for BrainResponse {
    fn replicate(&self) -> (r: Self) {
        BrainResponse {
            from: self.from.replicate(),
            relevance: self.relevance,
            confidence: self.confidence,
            result: self.result.replicate(),
            need_slow_think: self.need_slow_think,
            timestamp: self.timestamp,
        }
    }
}

} // verus!
