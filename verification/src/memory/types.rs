//! What the memory brain keeps of past sessions, as the other brains see it.

use crate::brains::{BrainContext, BrainContextView};
use crate::replicate::Replicate;
use vstd::prelude::*;

verus! {

/// What kind of mistake a pitfall is.
#[derive(Debug, Clone, Copy, PartialEq, Eq, Structural)]
pub enum PitfallCategory {
    ToolFailure,
    WrongAnswer,
    LazyBehavior,
    FormatIssue,
    Other,
}

impl DeepView for PitfallCategory {
    type V = PitfallCategory;

    open spec fn deep_view(&self) -> PitfallCategory {
        *self
    }
}

impl Replicate for PitfallCategory {
    fn replicate(&self) -> (r: Self) {
        *self
    }
}

/// The name of a category.
pub open spec fn category_name(c: PitfallCategory) -> Seq<char> {
    match c {
        PitfallCategory::ToolFailure => "ToolFailure"@,
        PitfallCategory::WrongAnswer => "WrongAnswer"@,
        PitfallCategory::LazyBehavior => "LazyBehavior"@,
        PitfallCategory::FormatIssue => "FormatIssue"@,
        PitfallCategory::Other => "Other"@,
    }
}

impl PitfallCategory {
    /// The name of this category.
    pub fn name(&self) -> (r: &'static str)
        ensures
            r@ == category_name(*self),
    {
        match self {
            PitfallCategory::ToolFailure => "ToolFailure",
            PitfallCategory::WrongAnswer => "WrongAnswer",
            PitfallCategory::LazyBehavior => "LazyBehavior",
            PitfallCategory::FormatIssue => "FormatIssue",
            PitfallCategory::Other => "Other",
        }
    }
}

/// The line of a mistake: its category and what happened.
pub open spec fn pitfall_line(category: PitfallCategory, description: Seq<char>) -> Seq<char> {
    "- ["@ + category_name(category) + "] "@ + description
}

/// The line of a mistake: its category and what happened.
pub fn write_pitfall_line(category: PitfallCategory, description: &str) -> (r: String)
    ensures
        r@ == pitfall_line(category, description@),
{
    let mut line = "- [".to_owned();
    line.append(category.name());
    line.append("] ");
    line.append(description);
    line
}

/// A mistake that was made before.
#[derive(Debug, PartialEq)]
pub struct PitfallRecord {
    pub id: String,
    pub category: PitfallCategory,
    pub description: String,
    /// How the user put it right, where they did.
    pub user_correction: Option<String>,
    /// When it happened, in milliseconds of Unix time.
    pub occurred_at: i64,
    pub occurrence_count: u32,
    pub superseded: bool,
}

/// What a pitfall is.
#[verifier::ext_equal]
pub struct PitfallRecordView {
    pub id: Seq<char>,
    pub category: PitfallCategory,
    pub description: Seq<char>,
    pub user_correction: Option<Seq<char>>,
    pub occurred_at: i64,
    pub occurrence_count: u32,
    pub superseded: bool,
}

impl DeepView for PitfallRecord {
    type V = PitfallRecordView;

    open spec fn deep_view(&self) -> PitfallRecordView {
        PitfallRecordView {
            id: self.id@,
            category: self.category,
            description: self.description@,
            user_correction: self.user_correction.deep_view(),
            occurred_at: self.occurred_at,
            occurrence_count: self.occurrence_count,
            superseded: self.superseded,
        }
    }
}

impl Replicate for PitfallRecord {
    fn replicate(&self) -> (r: Self) {
        PitfallRecord {
            id: self.id.clone(),
            category: self.category,
            description: self.description.clone(),
            user_correction: self.user_correction.replicate(),
            occurred_at: self.occurred_at,
            occurrence_count: self.occurrence_count,
            superseded: self.superseded,
        }
    }
}

/// A rule that was learnt from mistakes.
#[derive(Debug, PartialEq)]
pub struct EvolutionRule {
    pub id: String,
    pub rule: String,
    pub source_pitfall_ids: Vec<String>,
    pub priority: u8,
    pub created_at: i64,
    pub superseded: bool,
}

/// What a rule is.
#[verifier::ext_equal]
pub struct EvolutionRuleView {
    pub id: Seq<char>,
    pub rule: Seq<char>,
    pub source_pitfall_ids: Seq<Seq<char>>,
    pub priority: u8,
    pub created_at: i64,
    pub superseded: bool,
}

impl DeepView for EvolutionRule {
    type V = EvolutionRuleView;

    open spec fn deep_view(&self) -> EvolutionRuleView {
        EvolutionRuleView {
            id: self.id@,
            rule: self.rule@,
            source_pitfall_ids: self.source_pitfall_ids.deep_view(),
            priority: self.priority,
            created_at: self.created_at,
            superseded: self.superseded,
        }
    }
}

impl Replicate for EvolutionRule {
    fn replicate(&self) -> (r: Self) {
        EvolutionRule {
            id: self.id.clone(),
            rule: self.rule.clone(),
            source_pitfall_ids: self.source_pitfall_ids.replicate(),
            priority: self.priority,
            created_at: self.created_at,
            superseded: self.superseded,
        }
    }
}

/// What the user asks of the evaluation of answers.
#[derive(Debug, PartialEq)]
pub struct EvalRequirement {
    pub id: String,
    pub content: String,
    pub source: String,
    pub created_at: i64,
    pub superseded: bool,
}

/// What a requirement is.
#[verifier::ext_equal]
pub struct EvalRequirementView {
    pub id: Seq<char>,
    pub content: Seq<char>,
    pub source: Seq<char>,
    pub created_at: i64,
    pub superseded: bool,
}

impl DeepView for EvalRequirement {
    type V = EvalRequirementView;

    open spec fn deep_view(&self) -> EvalRequirementView {
        EvalRequirementView {
            id: self.id@,
            content: self.content@,
            source: self.source@,
            created_at: self.created_at,
            superseded: self.superseded,
        }
    }
}

impl Replicate for EvalRequirement {
    fn replicate(&self) -> (r: Self) {
        EvalRequirement {
            id: self.id.clone(),
            content: self.content.clone(),
            source: self.source.clone(),
            created_at: self.created_at,
            superseded: self.superseded,
        }
    }
}

/// What is known of the user.
#[derive(Debug, PartialEq)]
pub struct UserProfile {
    pub explicit_preferences: Vec<String>,
    pub implicit_preferences: Vec<String>,
    pub taboos: Vec<String>,
    pub habits: Vec<String>,
}

/// What a profile is.
#[verifier::ext_equal]
pub struct UserProfileView {
    pub explicit_preferences: Seq<Seq<char>>,
    pub implicit_preferences: Seq<Seq<char>>,
    pub taboos: Seq<Seq<char>>,
    pub habits: Seq<Seq<char>>,
}

impl DeepView for UserProfile {
    type V = UserProfileView;

    open spec fn deep_view(&self) -> UserProfileView {
        UserProfileView {
            explicit_preferences: self.explicit_preferences.deep_view(),
            implicit_preferences: self.implicit_preferences.deep_view(),
            taboos: self.taboos.deep_view(),
            habits: self.habits.deep_view(),
        }
    }
}

impl Replicate for UserProfile {
    fn replicate(&self) -> (r: Self) {
        UserProfile {
            explicit_preferences: self.explicit_preferences.replicate(),
            implicit_preferences: self.implicit_preferences.replicate(),
            taboos: self.taboos.replicate(),
            habits: self.habits.replicate(),
        }
    }
}

/// What a source reference points to.
#[derive(Debug, Clone, Copy, PartialEq, Eq, Structural)]
pub enum SourceRefKind {
    Message,
}

impl DeepView for SourceRefKind {
    type V = SourceRefKind;

    open spec fn deep_view(&self) -> SourceRefKind {
        *self
    }
}

impl Replicate for SourceRefKind {
    fn replicate(&self) -> (r: Self) {
        *self
    }
}

/// Where something in a snapshot comes from.
#[derive(Debug, PartialEq)]
pub struct StateSourceRef {
    pub kind: SourceRefKind,
    pub reference: String,
    pub storage_id: String,
}

/// What a source reference is.
#[verifier::ext_equal]
pub struct StateSourceRefView {
    pub kind: SourceRefKind,
    pub reference: Seq<char>,
    pub storage_id: Seq<char>,
}

impl DeepView for StateSourceRef {
    type V = StateSourceRefView;

    open spec fn deep_view(&self) -> StateSourceRefView {
        StateSourceRefView {
            kind: self.kind,
            reference: self.reference@,
            storage_id: self.storage_id@,
        }
    }
}

impl Replicate for StateSourceRef {
    fn replicate(&self) -> (r: Self) {
        StateSourceRef {
            kind: self.kind,
            reference: self.reference.clone(),
            storage_id: self.storage_id.clone(),
        }
    }
}

/// A snapshot of the memory for the other brains.
#[derive(Debug, PartialEq)]
pub struct BrainState {
    pub fact_summary: String,
    pub user_profile: UserProfile,
    pub active_pitfalls: Vec<PitfallRecord>,
    pub evolution_rules: Vec<EvolutionRule>,
    pub index_entries: Vec<StateSourceRef>,
    pub snapshot_at: i64,
}

/// What a snapshot is.
#[verifier::ext_equal]
pub struct BrainStateView {
    pub fact_summary: Seq<char>,
    pub user_profile: UserProfileView,
    pub active_pitfalls: Seq<PitfallRecordView>,
    pub evolution_rules: Seq<EvolutionRuleView>,
    pub index_entries: Seq<StateSourceRefView>,
    pub snapshot_at: i64,
}

impl DeepView for BrainState {
    type V = BrainStateView;

    open spec fn deep_view(&self) -> BrainStateView {
        BrainStateView {
            fact_summary: self.fact_summary@,
            user_profile: self.user_profile.deep_view(),
            active_pitfalls: self.active_pitfalls.deep_view(),
            evolution_rules: self.evolution_rules.deep_view(),
            index_entries: self.index_entries.deep_view(),
            snapshot_at: self.snapshot_at,
        }
    }
}

impl Replicate for BrainState {
    fn replicate(&self) -> (r: Self) {
        BrainState {
            fact_summary: self.fact_summary.clone(),
            user_profile: self.user_profile.replicate(),
            active_pitfalls: self.active_pitfalls.replicate(),
            evolution_rules: self.evolution_rules.replicate(),
            index_entries: self.index_entries.replicate(),
            snapshot_at: self.snapshot_at,
        }
    }
}

/// The summary of a session.
#[derive(Debug, PartialEq)]
pub struct SessionSummary {
    pub session_id: String,
    pub session_start: i64,
    pub session_end: i64,
    pub fact_summary: String,
    pub tags: Vec<String>,
    pub pitfalls: Vec<String>,
    pub decisions: Vec<String>,
    pub archived: bool,
    pub superseded: bool,
    pub created_at: i64,
}

/// What a summary is.
#[verifier::ext_equal]
pub struct SessionSummaryView {
    pub session_id: Seq<char>,
    pub session_start: i64,
    pub session_end: i64,
    pub fact_summary: Seq<char>,
    pub tags: Seq<Seq<char>>,
    pub pitfalls: Seq<Seq<char>>,
    pub decisions: Seq<Seq<char>>,
    pub archived: bool,
    pub superseded: bool,
    pub created_at: i64,
}

impl DeepView for SessionSummary {
    type V = SessionSummaryView;

    open spec fn deep_view(&self) -> SessionSummaryView {
        SessionSummaryView {
            session_id: self.session_id@,
            session_start: self.session_start,
            session_end: self.session_end,
            fact_summary: self.fact_summary@,
            tags: self.tags.deep_view(),
            pitfalls: self.pitfalls.deep_view(),
            decisions: self.decisions.deep_view(),
            archived: self.archived,
            superseded: self.superseded,
            created_at: self.created_at,
        }
    }
}

impl Replicate for SessionSummary {
    fn replicate(&self) -> (r: Self) {
        SessionSummary {
            session_id: self.session_id.clone(),
            session_start: self.session_start,
            session_end: self.session_end,
            fact_summary: self.fact_summary.clone(),
            tags: self.tags.replicate(),
            pitfalls: self.pitfalls.replicate(),
            decisions: self.decisions.replicate(),
            archived: self.archived,
            superseded: self.superseded,
            created_at: self.created_at,
        }
    }
}

/// An impression: the outermost index of the memory.
#[derive(Debug, PartialEq)]
pub struct SubconsciousEntry {
    pub id: String,
    pub topic: String,
    pub impression: String,
    pub trigger_keywords: Vec<String>,
    /// The bits of the importance.
    pub importance: u64,
    pub created_at: i64,
}

/// What an impression is.
#[verifier::ext_equal]
pub struct SubconsciousEntryView {
    pub id: Seq<char>,
    pub topic: Seq<char>,
    pub impression: Seq<char>,
    pub trigger_keywords: Seq<Seq<char>>,
    pub importance: u64,
    pub created_at: i64,
}

impl DeepView for SubconsciousEntry {
    type V = SubconsciousEntryView;

    open spec fn deep_view(&self) -> SubconsciousEntryView {
        SubconsciousEntryView {
            id: self.id@,
            topic: self.topic@,
            impression: self.impression@,
            trigger_keywords: self.trigger_keywords.deep_view(),
            importance: self.importance,
            created_at: self.created_at,
        }
    }
}

impl Replicate for SubconsciousEntry {
    fn replicate(&self) -> (r: Self) {
        SubconsciousEntry {
            id: self.id.clone(),
            topic: self.topic.clone(),
            impression: self.impression.clone(),
            trigger_keywords: self.trigger_keywords.replicate(),
            importance: self.importance,
            created_at: self.created_at,
        }
    }
}

/// Something that was said, as it was said.
#[derive(Debug, PartialEq)]
pub struct RawEntry {
    pub id: String,
    pub content: String,
    pub raw_input: String,
    pub context: BrainContext,
    pub timestamp: i64,
}

/// What such an entry is.
#[verifier::ext_equal]
pub struct RawEntryView {
    pub id: Seq<char>,
    pub content: Seq<char>,
    pub raw_input: Seq<char>,
    pub context: BrainContextView,
    pub timestamp: i64,
}

impl DeepView for RawEntry {
    type V = RawEntryView;

    open spec fn deep_view(&self) -> RawEntryView {
        RawEntryView {
            id: self.id@,
            content: self.content@,
            raw_input: self.raw_input@,
            context: self.context.deep_view(),
            timestamp: self.timestamp,
        }
    }
}

impl Replicate for RawEntry {
    fn replicate(&self) -> (r: Self) {
        RawEntry {
            id: self.id.clone(),
            content: self.content.clone(),
            raw_input: self.raw_input.clone(),
            context: self.context.replicate(),
            timestamp: self.timestamp,
        }
    }
}

} // verus!
