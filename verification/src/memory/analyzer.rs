//! The analysis of a conversation, step by step: facts, what they replace,
//! the user, pitfalls, rules, the narrative, the summary and what the user asks
//! of evaluations. A model is asked in each step; this says what is made of
//! each reply, and which step comes next.

use crate::json::{
    array, json_of_text, pretty_text_of_json, reads_back, text_of_json, Json, JsonFields, JsonView,
    DEEPEST,
};
use crate::memory::eval_requirement::{active_requirements, find_active_requirements};
use crate::memory::evolution::{
    active_rules, find_active_rules, NewEvolutionRule, NewEvolutionRuleView,
};
use crate::memory::memory_brain::stored_summary;
use crate::memory::memory_iteration::{
    find_iterations, iterations_of, marked_by, resolve_iterations, ExistingMemory,
    ExistingMemoryView, IterationResultView, MemoryStoreType,
};
use crate::memory::pitfall::{
    active_pitfalls, find_active_pitfalls, NewPitfall, NewPitfallView,
};
use crate::memory::replies::{extract_json, json_in};
use crate::memory::types::{
    category_name, pitfall_line, write_pitfall_line, EvalRequirement, EvalRequirementView,
    EvolutionRule, EvolutionRuleView, PitfallCategory, PitfallRecord, PitfallRecordView,
    SessionSummary, SessionSummaryView,
};
use crate::order::text_less;
use crate::replicate::Replicate;
use crate::text::{decimal, is_blank, join, joined, number, same, trim, trimmed};
use crate::times::{rfc3339_of, write_time};
use crate::walk::{append_all, filter_each, filter_map_each, map_each, no_items};
use vstd::prelude::*;

verus! {

/// A step of the analysis.
#[derive(Debug, Clone, Copy, PartialEq, Eq, Structural)]
pub enum AnalysisStep {
    /// What happened.
    Facts,
    /// Which memories what happened replaces.
    Iteration,
    /// What it says of the user.
    Profile,
    /// What went wrong.
    Pitfalls,
    /// What is to be done better.
    Rules,
    /// How the whole is told.
    Narrative,
    /// The summary of the session.
    Summary,
    /// What the user asks of evaluations.
    Requirements,
    /// Nothing is left to ask.
    Done,
}

impl DeepView for AnalysisStep {
    type V = AnalysisStep;

    open spec fn deep_view(&self) -> AnalysisStep {
        *self
    }
}

impl Replicate for AnalysisStep {
    fn replicate(&self) -> (r: Self) {
        *self
    }
}

/// What an analysis brought.
#[derive(Debug, PartialEq)]
pub struct AnalysisReport {
    pub fact_summary: String,
    pub profile_entries_added: usize,
    pub pitfalls_found: usize,
    pub rules_created: usize,
    pub subconscious_updated: bool,
    /// Whether the session has got its summary.
    pub summary_generated: bool,
    /// How many memories were replaced.
    pub step0_iterations: usize,
    pub eval_requirements_added: usize,
}

/// What a report is.
#[verifier::ext_equal]
pub struct AnalysisReportView {
    pub fact_summary: Seq<char>,
    pub profile_entries_added: usize,
    pub pitfalls_found: usize,
    pub rules_created: usize,
    pub subconscious_updated: bool,
    pub summary_generated: bool,
    pub step0_iterations: usize,
    pub eval_requirements_added: usize,
}

impl DeepView for AnalysisReport {
    type V = AnalysisReportView;

    open spec fn deep_view(&self) -> AnalysisReportView {
        AnalysisReportView {
            fact_summary: self.fact_summary@,
            profile_entries_added: self.profile_entries_added,
            pitfalls_found: self.pitfalls_found,
            rules_created: self.rules_created,
            subconscious_updated: self.subconscious_updated,
            summary_generated: self.summary_generated,
            step0_iterations: self.step0_iterations,
            eval_requirements_added: self.eval_requirements_added,
        }
    }
}

impl Replicate for AnalysisReport {
    fn replicate(&self) -> (r: Self) {
        AnalysisReport {
            fact_summary: self.fact_summary.clone(),
            profile_entries_added: self.profile_entries_added,
            pitfalls_found: self.pitfalls_found,
            rules_created: self.rules_created,
            subconscious_updated: self.subconscious_updated,
            summary_generated: self.summary_generated,
            step0_iterations: self.step0_iterations,
            eval_requirements_added: self.eval_requirements_added,
        }
    }
}

/// Nothing was brought yet.
pub open spec fn empty_report() -> AnalysisReportView {
    AnalysisReportView {
        fact_summary: ""@,
        profile_entries_added: 0,
        pitfalls_found: 0,
        rules_created: 0,
        subconscious_updated: false,
        summary_generated: false,
        step0_iterations: 0,
        eval_requirements_added: 0,
    }
}

impl Default for AnalysisReport {
    fn default() -> (r: Self)
        ensures
            r.deep_view() == empty_report(),
    {
        AnalysisReport {
            fact_summary: "".to_owned(),
            profile_entries_added: 0,
            pitfalls_found: 0,
            rules_created: 0,
            subconscious_updated: false,
            summary_generated: false,
            step0_iterations: 0,
            eval_requirements_added: 0,
        }
    }
}

/// What came of a step.
#[derive(Debug, PartialEq)]
pub enum StepOutcome {
    Failed,
    Facts(String),
    Count(usize),
    Pitfalls(Vec<NewPitfall>),
    Rules(Vec<NewEvolutionRule>),
    Flag(bool),
}

/// What such an outcome is.
#[verifier::ext_equal]
pub enum StepOutcomeView {
    Failed,
    Facts(Seq<char>),
    Count(usize),
    Pitfalls(Seq<NewPitfallView>),
    Rules(Seq<NewEvolutionRuleView>),
    Flag(bool),
}

impl DeepView for StepOutcome {
    type V = StepOutcomeView;

    open spec fn deep_view(&self) -> StepOutcomeView {
        match self {
            StepOutcome::Failed => StepOutcomeView::Failed,
            StepOutcome::Facts(s) => StepOutcomeView::Facts(s@),
            StepOutcome::Count(n) => StepOutcomeView::Count(*n),
            StepOutcome::Pitfalls(v) => StepOutcomeView::Pitfalls(v.deep_view()),
            StepOutcome::Rules(v) => StepOutcomeView::Rules(v.deep_view()),
            StepOutcome::Flag(b) => StepOutcomeView::Flag(*b),
        }
    }
}

/// An analysis that is under way.
#[derive(Debug, PartialEq)]
pub struct FourStepAnalyzer {
    pub session_id: String,
    pub step: AnalysisStep,
    pub report: AnalysisReport,
    pub new_pitfalls: Vec<NewPitfall>,
    pub evolution_text: String,
}

/// What an analysis is.
#[verifier::ext_equal]
pub struct FourStepAnalyzerView {
    pub session_id: Seq<char>,
    pub step: AnalysisStep,
    pub report: AnalysisReportView,
    pub new_pitfalls: Seq<NewPitfallView>,
    pub evolution_text: Seq<char>,
}

impl DeepView for FourStepAnalyzer {
    type V = FourStepAnalyzerView;

    open spec fn deep_view(&self) -> FourStepAnalyzerView {
        FourStepAnalyzerView {
            session_id: self.session_id@,
            step: self.step,
            report: self.report.deep_view(),
            new_pitfalls: self.new_pitfalls.deep_view(),
            evolution_text: self.evolution_text@,
        }
    }
}

/// The lines of the rules that were found.
pub open spec fn new_rule_lines(rules: Seq<NewEvolutionRuleView>) -> Seq<char> {
    joined(rules.map_values(|r: NewEvolutionRuleView| "- "@ + r.rule), "\n"@)
}

/// The step after one, by what the analysis knows.
pub open spec fn step_after(step: AnalysisStep, found_pitfalls: bool) -> AnalysisStep {
    match step {
        AnalysisStep::Facts => AnalysisStep::Iteration,
        AnalysisStep::Iteration => AnalysisStep::Profile,
        AnalysisStep::Profile => AnalysisStep::Pitfalls,
        AnalysisStep::Pitfalls => if found_pitfalls {
            AnalysisStep::Rules
        } else {
            AnalysisStep::Narrative
        },
        AnalysisStep::Rules => AnalysisStep::Narrative,
        AnalysisStep::Narrative => AnalysisStep::Summary,
        AnalysisStep::Summary => AnalysisStep::Requirements,
        AnalysisStep::Requirements => AnalysisStep::Done,
        AnalysisStep::Done => AnalysisStep::Done,
    }
}

/// The analysis with the next step ahead.
pub open spec fn advanced(a: FourStepAnalyzerView) -> FourStepAnalyzerView {
    FourStepAnalyzerView { step: step_after(a.step, a.new_pitfalls.len() > 0), ..a }
}

/// The analysis after the step ahead. Without facts it ends; any other step
/// may fail without stopping those after it.
pub open spec fn after_step(a: FourStepAnalyzerView, o: StepOutcomeView) -> FourStepAnalyzerView {
    let r = a.report;
    match (a.step, o) {
        (AnalysisStep::Facts, StepOutcomeView::Facts(s)) => advanced(
            FourStepAnalyzerView { report: AnalysisReportView { fact_summary: s, ..r }, ..a },
        ),
        (AnalysisStep::Facts, _) => FourStepAnalyzerView { step: AnalysisStep::Done, ..a },
        (AnalysisStep::Iteration, StepOutcomeView::Count(n)) => advanced(
            FourStepAnalyzerView { report: AnalysisReportView { step0_iterations: n, ..r }, ..a },
        ),
        (AnalysisStep::Profile, StepOutcomeView::Count(n)) => advanced(
            FourStepAnalyzerView {
                report: AnalysisReportView { profile_entries_added: n, ..r },
                ..a
            },
        ),
        (AnalysisStep::Pitfalls, StepOutcomeView::Pitfalls(p)) => advanced(
            FourStepAnalyzerView {
                report: AnalysisReportView { pitfalls_found: p.len() as usize, ..r },
                new_pitfalls: p,
                ..a
            },
        ),
        (AnalysisStep::Rules, StepOutcomeView::Rules(v)) => advanced(
            FourStepAnalyzerView {
                report: AnalysisReportView { rules_created: v.len() as usize, ..r },
                evolution_text: new_rule_lines(v),
                ..a
            },
        ),
        (AnalysisStep::Narrative, StepOutcomeView::Flag(b)) => advanced(
            FourStepAnalyzerView {
                report: AnalysisReportView { subconscious_updated: b, ..r },
                ..a
            },
        ),
        (AnalysisStep::Summary, StepOutcomeView::Flag(b)) => advanced(
            FourStepAnalyzerView {
                report: AnalysisReportView { summary_generated: b, ..r },
                ..a
            },
        ),
        (AnalysisStep::Requirements, StepOutcomeView::Count(n)) => advanced(
            FourStepAnalyzerView {
                report: AnalysisReportView { eval_requirements_added: n, ..r },
                ..a
            },
        ),
        _ => advanced(a),
    }
}

fn next_step(step: AnalysisStep, found_pitfalls: bool) -> (r: AnalysisStep)
    ensures
        r == step_after(step, found_pitfalls),
{
    match step {
        AnalysisStep::Facts => AnalysisStep::Iteration,
        AnalysisStep::Iteration => AnalysisStep::Profile,
        AnalysisStep::Profile => AnalysisStep::Pitfalls,
        AnalysisStep::Pitfalls => if found_pitfalls {
            AnalysisStep::Rules
        } else {
            AnalysisStep::Narrative
        },
        AnalysisStep::Rules => AnalysisStep::Narrative,
        AnalysisStep::Narrative => AnalysisStep::Summary,
        AnalysisStep::Summary => AnalysisStep::Requirements,
        AnalysisStep::Requirements => AnalysisStep::Done,
        AnalysisStep::Done => AnalysisStep::Done,
    }
}

fn write_new_rules(rules: &Vec<NewEvolutionRule>) -> (r: String)
    ensures
        r@ == new_rule_lines(rules.deep_view()),
{
    let f = |x: &NewEvolutionRule| -> (r: String)
        ensures r@ == "- "@ + x.deep_view().rule
    {
        let mut line = "- ".to_owned();
        line.append(x.rule.as_str());
        line
    };
    let lines = map_each(
        rules.as_slice(),
        f,
        Ghost(|r: NewEvolutionRuleView| "- "@ + r.rule),
    );
    join(lines.as_slice(), "\n")
}

impl FourStepAnalyzer {
    /// An analysis that is about to begin.
    pub fn new(session_id: &str) -> (r: Self)
        ensures
            r.deep_view() == (FourStepAnalyzerView {
                session_id: session_id@,
                step: AnalysisStep::Facts,
                report: empty_report(),
                new_pitfalls: Seq::empty(),
                evolution_text: ""@,
            }),
    {
        FourStepAnalyzer {
            session_id: session_id.to_owned(),
            step: AnalysisStep::Facts,
            report: AnalysisReport::default(),
            new_pitfalls: no_items(),
            evolution_text: "".to_owned(),
        }
    }

    /// Takes over what came of the step ahead, and goes on to the next.
    pub fn accept(&mut self, outcome: StepOutcome)
        ensures
            final(self).deep_view() == after_step(old(self).deep_view(), outcome.deep_view()),
    {
        let step = self.step;
        if step == AnalysisStep::Facts {
            match outcome {
                StepOutcome::Facts(s) => {
                    self.report.fact_summary = s;
                },
                _ => {
                    self.step = AnalysisStep::Done;
                    return ;
                },
            }
        } else {
            match outcome {
                StepOutcome::Count(n) => {
                    if step == AnalysisStep::Iteration {
                        self.report.step0_iterations = n;
                    } else if step == AnalysisStep::Profile {
                        self.report.profile_entries_added = n;
                    } else if step == AnalysisStep::Requirements {
                        self.report.eval_requirements_added = n;
                    }
                },
                StepOutcome::Pitfalls(p) => {
                    if step == AnalysisStep::Pitfalls {
                        self.report.pitfalls_found = p.len();
                        self.new_pitfalls = p;
                    }
                },
                StepOutcome::Rules(v) => {
                    if step == AnalysisStep::Rules {
                        self.report.rules_created = v.len();
                        self.evolution_text = write_new_rules(&v);
                    }
                },
                StepOutcome::Flag(b) => {
                    if step == AnalysisStep::Narrative {
                        self.report.subconscious_updated = b;
                    } else if step == AnalysisStep::Summary {
                        self.report.summary_generated = b;
                    }
                },
                _ => {},
            }
        }
        assert(self.new_pitfalls.deep_view().len() == self.new_pitfalls@.len());
        self.step = next_step(step, self.new_pitfalls.len() > 0);
    }
}

// ---------------------------------------------------------------------------
// What a model is shown
// ---------------------------------------------------------------------------

/// The memories that new facts are held against: the summaries that may be
/// recalled, the pitfalls that are active, and the rules that are, by falling
/// priority.
pub open spec fn memories_of(
    summaries: Seq<SessionSummaryView>,
    pitfalls: Seq<PitfallRecordView>,
    rules: Seq<EvolutionRuleView>,
) -> Seq<ExistingMemoryView> {
    recallable_summaries(summaries).map_values(|s: SessionSummaryView| summary_memory(s))
        + active_pitfalls(pitfalls).map_values(|p: PitfallRecordView| pitfall_memory(p))
        + active_rules(rules).map_values(|r: EvolutionRuleView| rule_memory(r))
}

/// A summary as a memory.
pub open spec fn summary_memory(s: SessionSummaryView) -> ExistingMemoryView {
    ExistingMemoryView {
        id: s.session_id,
        store_type: MemoryStoreType::Summary,
        content: s.fact_summary,
        created_at: s.created_at,
    }
}

/// A pitfall as a memory.
pub open spec fn pitfall_memory(p: PitfallRecordView) -> ExistingMemoryView {
    ExistingMemoryView {
        id: p.id,
        store_type: MemoryStoreType::Pitfall,
        content: p.description,
        created_at: p.occurred_at,
    }
}

/// A rule as a memory.
pub open spec fn rule_memory(r: EvolutionRuleView) -> ExistingMemoryView {
    ExistingMemoryView {
        id: r.id,
        store_type: MemoryStoreType::Evolution,
        content: r.rule,
        created_at: r.created_at,
    }
}

/// The summaries that may be recalled: nothing has taken their place.
pub open spec fn recallable_summaries(summaries: Seq<SessionSummaryView>) -> Seq<
    SessionSummaryView,
> {
    summaries.filter(|s: SessionSummaryView| !s.superseded)
}

/// Copies of the summaries that may be recalled.
pub fn find_recallable(summaries: &Vec<SessionSummary>) -> (r: Vec<SessionSummary>)
    ensures
        r.deep_view() == recallable_summaries(summaries.deep_view()),
{
    let f = |s: &SessionSummary| -> (r: bool)
        ensures r == !s.deep_view().superseded
    {
        !s.superseded
    };
    filter_each(summaries.as_slice(), f, Ghost(|s: SessionSummaryView| !s.superseded))
}

/// The summaries once something has taken the place of that of a session.
pub open spec fn superseded_in(s: Seq<SessionSummaryView>, id: Seq<char>) -> Seq<
    SessionSummaryView,
> {
    s.map_values(
        |x: SessionSummaryView|
            if x.session_id == id {
                SessionSummaryView { superseded: true, ..x }
            } else {
                x
            },
    )
}

/// Marks the summary of a session as one whose place something has taken.
pub fn supersede_summary(summaries: &mut Vec<SessionSummary>, id: &str)
    ensures
        final(summaries).deep_view() == superseded_in(old(summaries).deep_view(), id@),
{
    let f = |x: &SessionSummary| -> (r: SessionSummary)
        ensures
            r.deep_view() == (if x.deep_view().session_id == id@ {
                SessionSummaryView { superseded: true, ..x.deep_view() }
            } else {
                x.deep_view()
            })
    {
        let mut y = x.replicate();
        if same(x.session_id.as_str(), id) {
            y.superseded = true;
        }
        y
    };
    let ghost g = id@;
    let marked = map_each(
        summaries.as_slice(),
        f,
        Ghost(
            |x: SessionSummaryView|
                if x.session_id == g {
                    SessionSummaryView { superseded: true, ..x }
                } else {
                    x
                },
        ),
    );
    *summaries = marked;
}

/// The memories that new facts are held against, of all summaries, pitfalls and
/// rules.
pub fn existing_memories(
    summaries: &Vec<SessionSummary>,
    pitfalls: &Vec<PitfallRecord>,
    rules: &Vec<EvolutionRule>,
) -> (r: Vec<ExistingMemory>)
    ensures
        r.deep_view() == memories_of(
            summaries.deep_view(),
            pitfalls.deep_view(),
            rules.deep_view(),
        ),
{
    let recallable = find_recallable(summaries);
    let f = |s: &SessionSummary| -> (r: ExistingMemory)
        ensures r.deep_view() == summary_memory(s.deep_view())
    {
        ExistingMemory {
            id: s.session_id.clone(),
            store_type: MemoryStoreType::Summary,
            content: s.fact_summary.clone(),
            created_at: s.created_at,
        }
    };
    let mut r = map_each(
        recallable.as_slice(),
        f,
        Ghost(|s: SessionSummaryView| summary_memory(s)),
    );
    let active = find_active_pitfalls(pitfalls);
    let f = |p: &PitfallRecord| -> (r: ExistingMemory)
        ensures r.deep_view() == pitfall_memory(p.deep_view())
    {
        ExistingMemory {
            id: p.id.clone(),
            store_type: MemoryStoreType::Pitfall,
            content: p.description.clone(),
            created_at: p.occurred_at,
        }
    };
    append_all(
        &mut r,
        map_each(active.as_slice(), f, Ghost(|p: PitfallRecordView| pitfall_memory(p))),
    );
    let active = find_active_rules(rules);
    let f = |x: &EvolutionRule| -> (r: ExistingMemory)
        ensures r.deep_view() == rule_memory(x.deep_view())
    {
        ExistingMemory {
            id: x.id.clone(),
            store_type: MemoryStoreType::Evolution,
            content: x.rule.clone(),
            created_at: x.created_at,
        }
    };
    append_all(
        &mut r,
        map_each(active.as_slice(), f, Ghost(|x: EvolutionRuleView| rule_memory(x))),
    );
    r
}

/// The lines of the pitfalls that are known.
pub fn known_pitfalls_text(pitfalls: &Vec<PitfallRecord>) -> (r: String)
    ensures
        r@ == joined(
            pitfalls.deep_view().map_values(
                |p: PitfallRecordView| pitfall_line(p.category, p.description),
            ),
            "\n"@,
        ),
{
    let f = |p: &PitfallRecord| -> (r: String)
        ensures r@ == pitfall_line(p.deep_view().category, p.deep_view().description)
    {
        write_pitfall_line(p.category, p.description.as_str())
    };
    let lines = map_each(
        pitfalls.as_slice(),
        f,
        Ghost(|p: PitfallRecordView| pitfall_line(p.category, p.description)),
    );
    join(lines.as_slice(), "\n")
}

/// The lines of the pitfalls that were found, or `none` where there are none.
pub open spec fn found_pitfalls_text(pitfalls: Seq<NewPitfallView>, none: Seq<char>) -> Seq<char> {
    if pitfalls.len() == 0 {
        none
    } else {
        joined(
            pitfalls.map_values(|p: NewPitfallView| pitfall_line(p.category, p.description)),
            "\n"@,
        )
    }
}

/// The lines of the pitfalls that were found, or `none` where there are none.
pub fn new_pitfalls_text(pitfalls: &Vec<NewPitfall>, none: &str) -> (r: String)
    ensures
        r@ == found_pitfalls_text(pitfalls.deep_view(), none@),
{
    if pitfalls.len() == 0 {
        return none.to_owned();
    }
    let f = |p: &NewPitfall| -> (r: String)
        ensures r@ == pitfall_line(p.deep_view().category, p.deep_view().description)
    {
        write_pitfall_line(p.category, p.description.as_str())
    };
    let lines = map_each(
        pitfalls.as_slice(),
        f,
        Ghost(|p: NewPitfallView| pitfall_line(p.category, p.description)),
    );
    join(lines.as_slice(), "\n")
}

impl FourStepAnalyzer {
    /// The pitfalls that the step of the narrative is shown.
    pub fn narrative_pitfalls(&self) -> (r: String)
        ensures
            r@ == found_pitfalls_text(self.deep_view().new_pitfalls, "（无新增）"@),
    {
        new_pitfalls_text(&self.new_pitfalls, "（无新增）")
    }

    /// The pitfalls that the step of the summary is shown.
    pub fn summary_pitfalls(&self) -> (r: String)
        ensures
            r@ == found_pitfalls_text(self.deep_view().new_pitfalls, "（无）"@),
    {
        new_pitfalls_text(&self.new_pitfalls, "（无）")
    }
}

/// The line of a rule that is known.
pub open spec fn known_rule_line(r: EvolutionRuleView) -> Seq<char> {
    "- [P"@ + decimal(r.priority as nat) + "] "@ + r.rule
}

/// The lines of the rules that are known.
pub fn known_rules_text(rules: &Vec<EvolutionRule>) -> (r: String)
    ensures
        r@ == joined(
            rules.deep_view().map_values(|x: EvolutionRuleView| known_rule_line(x)),
            "\n"@,
        ),
{
    let f = |x: &EvolutionRule| -> (r: String)
        ensures r@ == known_rule_line(x.deep_view())
    {
        let mut line = "- [P".to_owned();
        let n = number(x.priority as u64);
        line.append(n.as_str());
        line.append("] ");
        line.append(x.rule.as_str());
        line
    };
    let lines = map_each(
        rules.as_slice(),
        f,
        Ghost(|x: EvolutionRuleView| known_rule_line(x)),
    );
    join(lines.as_slice(), "\n")
}

/// The value of a pitfall that was found.
pub open spec fn new_pitfall_json(p: NewPitfallView) -> JsonView {
    JsonView::Object(
        seq![
            ("category"@, JsonView::Str(category_name(p.category))),
            ("description"@, JsonView::Str(p.description)),
            (
                "user_correction"@,
                match p.user_correction {
                    Some(c) => JsonView::Str(c),
                    None => JsonView::Null,
                },
            ),
        ],
    )
}

/// The pitfalls that were found, as JSON text.
pub fn new_pitfalls_json(pitfalls: &Vec<NewPitfall>) -> (r: String)
    ensures
        r@ == text_of_json(
            JsonView::Array(
                pitfalls.deep_view().map_values(|p: NewPitfallView| new_pitfall_json(p)),
            ),
        ),
{
    let f = |p: &NewPitfall| -> (r: Json)
        ensures r.deep_view() == new_pitfall_json(p.deep_view())
    {
        let mut f = JsonFields::new();
        f.put_text("category", p.category.name());
        f.put_text("description", p.description.as_str());
        match &p.user_correction {
            Some(c) => f.put_text("user_correction", c.as_str()),
            None => f.put("user_correction", Json::Null),
        }
        assert(f@ =~= new_pitfall_json(p.deep_view())->Object_0);
        f.done()
    };
    let values = map_each(
        pitfalls.as_slice(),
        f,
        Ghost(|p: NewPitfallView| new_pitfall_json(p)),
    );
    array(values).to_text()
}

/// The narrative that a model is shown, where there is one.
pub fn narrative_text(narrative: Option<&str>) -> (r: String)
    ensures
        r@ == match narrative {
            Some(n) => n@,
            None => "无，这是首次生成"@,
        },
{
    match narrative {
        Some(n) => n.to_owned(),
        None => "无，这是首次生成".to_owned(),
    }
}

/// The narrative that the step of the summary is shown.
pub fn summary_narrative_text(narrative: Option<&str>) -> (r: String)
    ensures
        r@ == match narrative {
            Some(n) => if n@.len() > 0 {
                n@
            } else {
                "（无）"@
            },
            None => "（无）"@,
        },
{
    if let Some(n) = narrative {
        if !n.is_empty() {
            return n.to_owned();
        }
    }
    "（无）".to_owned()
}

/// The lines of what the user asks of evaluations, of the requirements that were
/// not replaced.
pub fn requirements_text(requirements: &Vec<EvalRequirement>) -> (r: String)
    ensures
        r@ == ({
            let active = active_requirements(requirements.deep_view());
            if active.len() == 0 {
                "（无）"@
            } else {
                joined(active.map_values(|x: EvalRequirementView| "- "@ + x.content), "\n"@)
            }
        }),
{
    let active = find_active_requirements(requirements);
    assert(active.deep_view().len() == active@.len());
    if active.len() == 0 {
        return "（无）".to_owned();
    }
    let f = |x: &EvalRequirement| -> (r: String)
        ensures r@ == "- "@ + x.deep_view().content
    {
        let mut line = "- ".to_owned();
        line.append(x.content.as_str());
        line
    };
    let lines = map_each(
        active.as_slice(),
        f,
        Ghost(|x: EvalRequirementView| "- "@ + x.content),
    );
    join(lines.as_slice(), "\n")
}

// ---------------------------------------------------------------------------
// What is made of a reply
// ---------------------------------------------------------------------------

/// A value that was read from a reply, or what a step says where none was.
pub open spec fn reply_value(
    step: Seq<char>,
    read: Result<JsonView, Seq<char>>,
) -> Result<JsonView, Seq<char>> {
    match read {
        Ok(j) => Ok(j),
        Err(e) => Err(step + " JSON 解析失败: "@ + e),
    }
}

fn read_reply(step: &str, reply: &str) -> (r: Result<Json, String>)
    ensures
        match reply_value(step@, json_of_text(json_in(reply@))) {
            Ok(v) => r is Ok && r->Ok_0.deep_view() == v,
            Err(e) => r is Err && r->Err_0@ == e,
        },
{
    let text = extract_json(reply);
    match Json::parse(text.as_str()) {
        Ok(j) => Ok(j),
        Err(e) => {
            let mut m = step.to_owned();
            m.append(" JSON 解析失败: ");
            m.append(e.as_str());
            Err(m)
        },
    }
}

/// The texts in the list under a key; none where there is no list.
pub open spec fn texts_at(v: JsonView, key: Seq<char>) -> Seq<Seq<char>> {
    match v.array_at(key) {
        Some(items) => items.filter_map(|x: JsonView| x.as_str()),
        None => Seq::empty(),
    }
}

/// The texts in the list under a key that are not blank.
pub open spec fn filled_texts_at(v: JsonView, key: Seq<char>) -> Seq<Seq<char>> {
    texts_at(v, key).filter(|s: Seq<char>| trimmed(s).len() > 0)
}

/// The text under a key, or `other` where there is none.
pub open spec fn text_at_or(v: JsonView, key: Seq<char>, other: Seq<char>) -> Seq<char> {
    match v.str_at(key) {
        Some(s) => s,
        None => other,
    }
}

/// The texts in the list under a key.
pub fn strings_at(value: &Json, key: &str) -> (r: Vec<String>)
    ensures
        r.deep_view() == texts_at(value.deep_view(), key@),
{
    match value.array_at(key) {
        Some(items) => {
            let f = |x: &Json| -> (r: Option<String>)
                ensures r.deep_view() == x.deep_view().as_str()
            {
                match x.as_str() {
                    Some(s) => Some(s.to_owned()),
                    None => None,
                }
            };
            filter_map_each(items.as_slice(), f, Ghost(|x: JsonView| x.as_str()))
        },
        None => no_items(),
    }
}

/// The texts in the list under a key that are not blank.
pub fn parse_string_array(value: &Json, key: &str) -> (r: Vec<String>)
    ensures
        r.deep_view() == filled_texts_at(value.deep_view(), key@),
{
    let all = strings_at(value, key);
    let f = |s: &String| -> (r: bool)
        ensures r == (trimmed(s@).len() > 0)
    {
        !is_blank(s.as_str())
    };
    filter_each(all.as_slice(), f, Ghost(|s: Seq<char>| trimmed(s).len() > 0))
}

/// The text under a key, or `other` where there is none.
pub fn text_or(value: &Json, key: &str, other: &str) -> (r: String)
    ensures
        r@ == text_at_or(value.deep_view(), key@, other@),
{
    match value.str_at(key) {
        Some(s) => s,
        None => other.to_owned(),
    }
}

/// The category that a word stands for.
pub open spec fn category_named(w: Seq<char>) -> PitfallCategory {
    if w == "ToolFailure"@ {
        PitfallCategory::ToolFailure
    } else if w == "WrongAnswer"@ {
        PitfallCategory::WrongAnswer
    } else if w == "LazyBehavior"@ {
        PitfallCategory::LazyBehavior
    } else if w == "FormatIssue"@ {
        PitfallCategory::FormatIssue
    } else {
        PitfallCategory::Other
    }
}

/// The category that a word stands for.
pub fn parse_pitfall_category(s: &str) -> (r: PitfallCategory)
    ensures
        r == category_named(s@),
{
    if same(s, "ToolFailure") {
        PitfallCategory::ToolFailure
    } else if same(s, "WrongAnswer") {
        PitfallCategory::WrongAnswer
    } else if same(s, "LazyBehavior") {
        PitfallCategory::LazyBehavior
    } else if same(s, "FormatIssue") {
        PitfallCategory::FormatIssue
    } else {
        PitfallCategory::Other
    }
}

/// The facts in a reply: it says something.
pub fn step1_fact_summary(reply: &str) -> (r: Result<String, String>)
    ensures
        if trimmed(reply@).len() == 0 {
            r is Err && r->Err_0@ == "LLM 返回空的事实总结"@
        } else {
            r is Ok && r->Ok_0@ == trimmed(reply@)
        },
{
    let summary = trim(reply);
    if summary.as_str().is_empty() {
        Err("LLM 返回空的事实总结".to_owned())
    } else {
        Ok(summary)
    }
}

/// What a value says is to be marked as replaced; nothing where it does not
/// say how every memory is related.
pub open spec fn replaced_memories(
    read: Result<JsonView, Seq<char>>,
    existing: Seq<ExistingMemoryView>,
) -> Seq<(MemoryStoreType, Seq<char>)> {
    match read {
        Ok(v) => match iterations_of(v) {
            Some(items) => items.filter_map(|x: IterationResultView| marked_by(existing, x)),
            None => Seq::empty(),
        },
        Err(_) => Seq::empty(),
    }
}

/// What a value, as it was read, says is to be marked as replaced.
pub fn replaced_by_value(read: &Result<Json, String>, existing: &Vec<ExistingMemory>) -> (r: Vec<
    (MemoryStoreType, String),
>)
    ensures
        r.deep_view() == replaced_memories(
            match read {
                Ok(j) => Ok(j.deep_view()),
                Err(e) => Err(e@),
            },
            existing.deep_view(),
        ),
{
    match read {
        Ok(j) => match find_iterations(j) {
            Some(items) => resolve_iterations(existing, &items),
            None => no_items(),
        },
        Err(_) => no_items(),
    }
}

/// What a reply says is to be marked as replaced.
pub fn step0_memory_iteration(reply: &str, existing: &Vec<ExistingMemory>) -> (r: Vec<
    (MemoryStoreType, String),
>)
    ensures
        r.deep_view() == replaced_memories(
            json_of_text(json_in(reply@)),
            existing.deep_view(),
        ),
{
    let text = extract_json(reply);
    let read = Json::parse(text.as_str());
    replaced_by_value(&read, existing)
}

/// What a reply says of the user.
#[derive(Debug, PartialEq)]
pub struct ProfileUpdate {
    pub explicit: Vec<String>,
    pub implicit: Vec<String>,
    pub taboos: Vec<String>,
    pub habits: Vec<String>,
}

/// What such an update is.
#[verifier::ext_equal]
pub struct ProfileUpdateView {
    pub explicit: Seq<Seq<char>>,
    pub implicit: Seq<Seq<char>>,
    pub taboos: Seq<Seq<char>>,
    pub habits: Seq<Seq<char>>,
}

impl DeepView for ProfileUpdate {
    type V = ProfileUpdateView;

    open spec fn deep_view(&self) -> ProfileUpdateView {
        ProfileUpdateView {
            explicit: self.explicit.deep_view(),
            implicit: self.implicit.deep_view(),
            taboos: self.taboos.deep_view(),
            habits: self.habits.deep_view(),
        }
    }
}

/// What a value says of the user.
pub open spec fn profile_of(v: JsonView) -> ProfileUpdateView {
    ProfileUpdateView {
        explicit: filled_texts_at(v, "explicit_preferences"@),
        implicit: filled_texts_at(v, "implicit_preferences"@),
        taboos: filled_texts_at(v, "taboos"@),
        habits: filled_texts_at(v, "habits"@),
    }
}

/// What a value says of the user.
pub fn profile_in(v: &Json) -> (r: ProfileUpdate)
    ensures
        r.deep_view() == profile_of(v.deep_view()),
{
    ProfileUpdate {
        explicit: parse_string_array(v, "explicit_preferences"),
        implicit: parse_string_array(v, "implicit_preferences"),
        taboos: parse_string_array(v, "taboos"),
        habits: parse_string_array(v, "habits"),
    }
}

/// What a reply says of the user.
pub fn step2_user_profile(reply: &str) -> (r: Result<ProfileUpdate, String>)
    ensures
        match reply_value("Step2"@, json_of_text(json_in(reply@))) {
            Ok(v) => r is Ok && r->Ok_0.deep_view() == profile_of(v),
            Err(e) => r is Err && r->Err_0@ == e,
        },
{
    match read_reply("Step2", reply) {
        Ok(j) => Ok(profile_in(&j)),
        Err(e) => Err(e),
    }
}

/// The pitfall that a value stands for; none where it does not say what
/// happened.
pub open spec fn pitfall_of(v: JsonView) -> Option<NewPitfallView> {
    let description = text_at_or(v, "description"@, ""@);
    if description.len() == 0 {
        None
    } else {
        Some(
            NewPitfallView {
                category: category_named(text_at_or(v, "category"@, "Other"@)),
                description,
                user_correction: v.str_at("user_correction"@),
            },
        )
    }
}

/// The pitfalls that a value lists.
pub open spec fn pitfalls_of(v: JsonView) -> Seq<NewPitfallView> {
    match v.array_at("pitfalls"@) {
        Some(items) => items.filter_map(|x: JsonView| pitfall_of(x)),
        None => Seq::empty(),
    }
}

/// The pitfalls that a value lists.
pub fn pitfalls_in(v: &Json) -> (r: Vec<NewPitfall>)
    ensures
        r.deep_view() == pitfalls_of(v.deep_view()),
{
    match v.array_at("pitfalls") {
        Some(items) => {
            let f = |x: &Json| -> (r: Option<NewPitfall>)
                ensures r.deep_view() == pitfall_of(x.deep_view())
            {
                let description = text_or(x, "description", "");
                if description.as_str().is_empty() {
                    None
                } else {
                    let category = text_or(x, "category", "Other");
                    Some(
                        NewPitfall {
                            category: parse_pitfall_category(category.as_str()),
                            description,
                            user_correction: x.str_at("user_correction"),
                        },
                    )
                }
            };
            filter_map_each(items.as_slice(), f, Ghost(|x: JsonView| pitfall_of(x)))
        },
        None => no_items(),
    }
}

/// The pitfalls that a reply lists.
pub fn step3_pitfall(reply: &str) -> (r: Result<Vec<NewPitfall>, String>)
    ensures
        match reply_value("Step3"@, json_of_text(json_in(reply@))) {
            Ok(v) => r is Ok && r->Ok_0.deep_view() == pitfalls_of(v),
            Err(e) => r is Err && r->Err_0@ == e,
        },
{
    match read_reply("Step3", reply) {
        Ok(j) => Ok(pitfalls_in(&j)),
        Err(e) => Err(e),
    }
}

/// The priority that a value gives: its last eight bits, and 5 at most; 3 where
/// it gives none.
pub open spec fn priority_of(v: JsonView) -> u8 {
    match v.u64_at("priority"@) {
        Some(n) => if n % 256 < 5 {
            (n % 256) as u8
        } else {
            5
        },
        None => 3,
    }
}

/// The rule that a value stands for; none where it has no text.
pub open spec fn rule_of(v: JsonView) -> Option<NewEvolutionRuleView> {
    let rule = text_at_or(v, "rule"@, ""@);
    if rule.len() == 0 {
        None
    } else {
        Some(
            NewEvolutionRuleView {
                rule,
                source_pitfall_ids: texts_at(v, "source_pitfall_ids"@),
                priority: priority_of(v),
            },
        )
    }
}

/// The rules that a value lists.
pub open spec fn rules_of(v: JsonView) -> Seq<NewEvolutionRuleView> {
    match v.array_at("rules"@) {
        Some(items) => items.filter_map(|x: JsonView| rule_of(x)),
        None => Seq::empty(),
    }
}

/// The rules that a value lists.
pub fn rules_in(v: &Json) -> (r: Vec<NewEvolutionRule>)
    ensures
        r.deep_view() == rules_of(v.deep_view()),
{
    match v.array_at("rules") {
        Some(items) => {
            let f = |x: &Json| -> (r: Option<NewEvolutionRule>)
                ensures r.deep_view() == rule_of(x.deep_view())
            {
                let rule = text_or(x, "rule", "");
                if rule.as_str().is_empty() {
                    None
                } else {
                    let priority: u8 = match x.u64_at("priority") {
                        Some(n) => if n % 256 < 5 {
                            (n % 256) as u8
                        } else {
                            5
                        },
                        None => 3,
                    };
                    Some(
                        NewEvolutionRule {
                            rule,
                            source_pitfall_ids: strings_at(x, "source_pitfall_ids"),
                            priority,
                        },
                    )
                }
            };
            filter_map_each(items.as_slice(), f, Ghost(|x: JsonView| rule_of(x)))
        },
        None => no_items(),
    }
}

/// The rules that a reply lists.
pub fn step4_evolution(reply: &str) -> (r: Result<Vec<NewEvolutionRule>, String>)
    ensures
        match reply_value("Step4"@, json_of_text(json_in(reply@))) {
            Ok(v) => r is Ok && r->Ok_0.deep_view() == rules_of(v),
            Err(e) => r is Err && r->Err_0@ == e,
        },
{
    match read_reply("Step4", reply) {
        Ok(j) => Ok(rules_in(&j)),
        Err(e) => Err(e),
    }
}

/// A new narrative.
#[derive(Debug, PartialEq)]
pub struct NarrativeUpdate {
    pub narrative: String,
    pub new_keywords: Vec<String>,
}

/// What such an update is.
#[verifier::ext_equal]
pub struct NarrativeUpdateView {
    pub narrative: Seq<char>,
    pub new_keywords: Seq<Seq<char>>,
}

impl DeepView for NarrativeUpdate {
    type V = NarrativeUpdateView;

    open spec fn deep_view(&self) -> NarrativeUpdateView {
        NarrativeUpdateView {
            narrative: self.narrative@,
            new_keywords: self.new_keywords.deep_view(),
        }
    }
}

/// The narrative that a value gives, where it gives one.
pub open spec fn narrative_of(v: JsonView) -> Option<NarrativeUpdateView> {
    let narrative = trimmed(text_at_or(v, "narrative"@, ""@));
    if narrative.len() == 0 {
        None
    } else {
        Some(NarrativeUpdateView { narrative, new_keywords: filled_texts_at(v, "new_keywords"@) })
    }
}

/// The narrative that a value gives, where it gives one.
pub fn narrative_in(v: &Json) -> (r: Option<NarrativeUpdate>)
    ensures
        r.deep_view() == narrative_of(v.deep_view()),
{
    let text = text_or(v, "narrative", "");
    let narrative = trim(text.as_str());
    if narrative.as_str().is_empty() {
        None
    } else {
        Some(NarrativeUpdate { narrative, new_keywords: parse_string_array(v, "new_keywords") })
    }
}

/// The narrative that a reply gives, where it gives one.
pub fn step5_subconscious(reply: &str) -> (r: Result<Option<NarrativeUpdate>, String>)
    ensures
        match reply_value("Step5"@, json_of_text(json_in(reply@))) {
            Ok(v) => r is Ok && r->Ok_0.deep_view() == narrative_of(v),
            Err(e) => r is Err && r->Err_0@ == e,
        },
{
    match read_reply("Step5", reply) {
        Ok(j) => Ok(narrative_in(&j)),
        Err(e) => Err(e),
    }
}

/// The summary of a session that a value gives.
pub open spec fn session_summary_of(
    v: JsonView,
    session_id: Seq<char>,
    now: i64,
) -> Result<SessionSummaryView, Seq<char>> {
    let fact_summary = text_at_or(v, "fact_summary"@, ""@);
    if fact_summary.len() == 0 {
        Err("Step6 LLM 返回空的 fact_summary"@)
    } else {
        Ok(
            SessionSummaryView {
                session_id,
                session_start: now,
                session_end: now,
                fact_summary,
                tags: texts_at(v, "tags"@),
                pitfalls: texts_at(v, "pitfalls"@),
                decisions: texts_at(v, "decisions"@),
                archived: false,
                superseded: false,
                created_at: now,
            },
        )
    }
}

/// The summary of a session that a value gives.
pub fn session_summary_in(v: &Json, session_id: &str, now: i64) -> (r: Result<
    SessionSummary,
    String,
>)
    ensures
        match session_summary_of(v.deep_view(), session_id@, now) {
            Ok(s) => r is Ok && r->Ok_0.deep_view() == s,
            Err(e) => r is Err && r->Err_0@ == e,
        },
{
    let fact_summary = text_or(v, "fact_summary", "");
    if fact_summary.as_str().is_empty() {
        return Err("Step6 LLM 返回空的 fact_summary".to_owned());
    }
    Ok(
        SessionSummary {
            session_id: session_id.to_owned(),
            session_start: now,
            session_end: now,
            fact_summary,
            tags: strings_at(v, "tags"),
            pitfalls: strings_at(v, "pitfalls"),
            decisions: strings_at(v, "decisions"),
            archived: false,
            superseded: false,
            created_at: now,
        },
    )
}

/// The summary of a session that a reply gives.
pub fn step6_summary(reply: &str, session_id: &str, now: i64) -> (r: Result<
    SessionSummary,
    String,
>)
    ensures
        match reply_value("Step6"@, json_of_text(json_in(reply@))) {
            Ok(v) => match session_summary_of(v, session_id@, now) {
                Ok(s) => r is Ok && r->Ok_0.deep_view() == s,
                Err(e) => r is Err && r->Err_0@ == e,
            },
            Err(e) => r is Err && r->Err_0@ == e,
        },
{
    match read_reply("Step6", reply) {
        Ok(j) => session_summary_in(&j, session_id, now),
        Err(e) => Err(e),
    }
}

/// What the user asks, and where that is taken from; nothing where it is blank.
pub open spec fn requirement_of(v: JsonView) -> Option<(Seq<char>, Seq<char>)> {
    let content = trimmed(text_at_or(v, "content"@, ""@));
    if content.len() == 0 {
        None
    } else {
        Some((content, text_at_or(v, "source"@, "记忆脑分析"@)))
    }
}

/// What a value says the user asks of evaluations.
pub open spec fn requirements_of(v: JsonView) -> Seq<(Seq<char>, Seq<char>)> {
    match v.array_at("requirements"@) {
        Some(items) => items.filter_map(|x: JsonView| requirement_of(x)),
        None => Seq::empty(),
    }
}

/// What a value says the user asks of evaluations, and where that is taken
/// from.
pub fn requirements_in(v: &Json) -> (r: Vec<(String, String)>)
    ensures
        r.deep_view() == requirements_of(v.deep_view()),
{
    match v.array_at("requirements") {
        Some(items) => {
            let f = |x: &Json| -> (r: Option<(String, String)>)
                ensures r.deep_view() == requirement_of(x.deep_view())
            {
                let text = text_or(x, "content", "");
                let content = trim(text.as_str());
                if content.as_str().is_empty() {
                    None
                } else {
                    Some((content, text_or(x, "source", "记忆脑分析")))
                }
            };
            filter_map_each(items.as_slice(), f, Ghost(|x: JsonView| requirement_of(x)))
        },
        None => no_items(),
    }
}

/// What a reply says the user asks of evaluations, and where that is taken
/// from.
pub fn step7_eval_requirements(reply: &str) -> (r: Result<Vec<(String, String)>, String>)
    ensures
        match reply_value("Step7"@, json_of_text(json_in(reply@))) {
            Ok(v) => r is Ok && r->Ok_0.deep_view() == requirements_of(v),
            Err(e) => r is Err && r->Err_0@ == e,
        },
{
    match read_reply("Step7", reply) {
        Ok(j) => Ok(requirements_in(&j)),
        Err(e) => Err(e),
    }
}

/// The value of the file of what is known.
pub open spec fn fact_summary_json(summary: Seq<char>, now: i64) -> JsonView {
    JsonView::Object(
        seq![
            ("summary"@, JsonView::Str(summary)),
            (
                "updated_at"@,
                match rfc3339_of(now) {
                    Some(t) => JsonView::Str(t),
                    None => JsonView::Null,
                },
            ),
        ],
    )
}

/// The value of the file of what is known.
pub fn fact_summary_value(summary: &str, now: i64) -> (r: Json)
    ensures
        r.deep_view() == fact_summary_json(summary@, now),
{
    let mut f = JsonFields::new();
    f.put_text("summary", summary);
    match write_time(now) {
        Some(t) => f.put_text("updated_at", t.as_str()),
        None => f.put("updated_at", Json::Null),
    }
    assert(f@ =~= fact_summary_json(summary@, now)->Object_0);
    f.done()
}

// ---------------------------------------------------------------------------
// Laws
// ---------------------------------------------------------------------------

/// How many steps are left at most.
pub open spec fn steps_left(step: AnalysisStep) -> nat {
    match step {
        AnalysisStep::Facts => 8,
        AnalysisStep::Iteration => 7,
        AnalysisStep::Profile => 6,
        AnalysisStep::Pitfalls => 5,
        AnalysisStep::Rules => 4,
        AnalysisStep::Narrative => 3,
        AnalysisStep::Summary => 2,
        AnalysisStep::Requirements => 1,
        AnalysisStep::Done => 0,
    }
}

/// Whatever comes of a step, the analysis comes nearer to its end; no failure
/// but that of the facts skips a step; and rules are asked for exactly where
/// pitfalls were found.
pub proof fn law_analysis_goes_on(a: FourStepAnalyzerView, o: StepOutcomeView)
    requires
        a.step != AnalysisStep::Done,
    ensures
        steps_left(after_step(a, o).step) < steps_left(a.step),
        a.step != AnalysisStep::Facts ==> after_step(a, StepOutcomeView::Failed) == advanced(a),
        a.step == AnalysisStep::Pitfalls ==> (after_step(a, o).step == AnalysisStep::Rules <==> (
        after_step(a, o).new_pitfalls.len() > 0)),
{
}

/// The value that is saved holds the summary that is looked up.
pub proof fn law_saved_facts_are_found(summary: Seq<char>, now: i64)
    ensures
        stored_summary(Ok(fact_summary_json(summary, now))) == Some(summary),
        reads_back(fact_summary_json(summary, now), DEEPEST as nat),
{
    let entries = fact_summary_json(summary, now)->Object_0;
    assert(entries[0].0 == "summary"@);
    assert(text_less("summary"@, "updated_at"@)) by {
        reveal_strlit("summary");
        reveal_strlit("updated_at");
        assert("summary"@[0] != "updated_at"@[0]);
    }
    assert(reads_back(entries[0].1, (DEEPEST - 1) as nat));
    assert(reads_back(entries[1].1, (DEEPEST - 1) as nat));
}

/// The text of the file of what is known: the summary is read back from it.
pub fn save_fact_summary(summary: &str, now: i64) -> (r: String)
    ensures
        r@ == pretty_text_of_json(fact_summary_json(summary@, now)),
        stored_summary(json_of_text(r@)) == Some(summary@),
{
    let value = fact_summary_value(summary, now);
    proof {
        law_saved_facts_are_found(summary@, now);
    }
    value.to_pretty_text()
}

} // verus!
