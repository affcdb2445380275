//! The concentration of the memory in four steps: what was said into tasks,
//! tasks into experience, experience into triggers, and the profile. Each step
//! makes its layer anew.

use crate::json::{json_of_text, Json};
use crate::memory::error::{MemoryError, MemoryErrorView};
use crate::memory::replies::{fenced_json, find_fence};
use crate::replicate::Replicate;
use crate::text::{same, trim, trimmed};
use crate::walk::{no_items, push_one};
use vstd::prelude::*;

verus! {

/// A step of the concentration.
#[derive(Debug, Clone, Copy, PartialEq, Eq, Structural)]
pub enum ConcentrationStep {
    /// What was said is split into tasks.
    Split,
    /// Experience is drawn from the tasks.
    Abstract,
    /// Triggers and a narrative are drawn from the experience.
    Triggers,
    /// The profile and what evaluations need.
    Profile,
    /// Nothing is left to do.
    Done,
}

impl DeepView for ConcentrationStep {
    type V = ConcentrationStep;

    open spec fn deep_view(&self) -> ConcentrationStep {
        *self
    }
}

impl Replicate for ConcentrationStep {
    fn replicate(&self) -> (r: Self) {
        *self
    }
}

/// What a concentration brought.
#[derive(Debug, PartialEq)]
pub struct ConcentrationReport {
    pub step1_tasks: usize,
    pub step2_types: usize,
    pub step3_triggers: usize,
    pub step3_narrative_chars: usize,
    pub step4_profile_updated: bool,
    pub errors: Vec<String>,
}

/// What a report is.
#[verifier::ext_equal]
pub struct ConcentrationReportView {
    pub step1_tasks: usize,
    pub step2_types: usize,
    pub step3_triggers: usize,
    pub step3_narrative_chars: usize,
    pub step4_profile_updated: bool,
    pub errors: Seq<Seq<char>>,
}

impl DeepView for ConcentrationReport {
    type V = ConcentrationReportView;

    open spec fn deep_view(&self) -> ConcentrationReportView {
        ConcentrationReportView {
            step1_tasks: self.step1_tasks,
            step2_types: self.step2_types,
            step3_triggers: self.step3_triggers,
            step3_narrative_chars: self.step3_narrative_chars,
            step4_profile_updated: self.step4_profile_updated,
            errors: self.errors.deep_view(),
        }
    }
}

impl Replicate for ConcentrationReport {
    fn replicate(&self) -> (r: Self) {
        ConcentrationReport {
            step1_tasks: self.step1_tasks,
            step2_types: self.step2_types,
            step3_triggers: self.step3_triggers,
            step3_narrative_chars: self.step3_narrative_chars,
            step4_profile_updated: self.step4_profile_updated,
            errors: self.errors.replicate(),
        }
    }
}

/// What came of a step: how much of its layer was made, and for the triggers
/// how long the narrative is.
pub enum ConcentrationOutcome {
    Failed(String),
    Made { count: usize, narrative_chars: usize },
}

/// What such an outcome is.
#[verifier::ext_equal]
pub enum ConcentrationOutcomeView {
    Failed(Seq<char>),
    Made { count: usize, narrative_chars: usize },
}

impl DeepView for ConcentrationOutcome {
    type V = ConcentrationOutcomeView;

    open spec fn deep_view(&self) -> ConcentrationOutcomeView {
        match self {
            ConcentrationOutcome::Failed(e) => ConcentrationOutcomeView::Failed(e@),
            ConcentrationOutcome::Made { count, narrative_chars } =>
                ConcentrationOutcomeView::Made {
                count: *count,
                narrative_chars: *narrative_chars,
            },
        }
    }
}

/// A concentration.
#[derive(Debug, PartialEq)]
pub struct ConcentrationEngine {
    pub session_id: String,
    /// Whether every layer is made from what was said alone.
    pub rebuild_from_active_l1: bool,
    pub step: ConcentrationStep,
    pub report: ConcentrationReport,
}

/// What a concentration is.
#[verifier::ext_equal]
pub struct ConcentrationEngineView {
    pub session_id: Seq<char>,
    pub rebuild_from_active_l1: bool,
    pub step: ConcentrationStep,
    pub report: ConcentrationReportView,
}

impl DeepView for ConcentrationEngine {
    type V = ConcentrationEngineView;

    open spec fn deep_view(&self) -> ConcentrationEngineView {
        ConcentrationEngineView {
            session_id: self.session_id@,
            rebuild_from_active_l1: self.rebuild_from_active_l1,
            step: self.step,
            report: self.report.deep_view(),
        }
    }
}

/// Nothing was brought yet.
pub open spec fn nothing_made() -> ConcentrationReportView {
    ConcentrationReportView {
        step1_tasks: 0,
        step2_types: 0,
        step3_triggers: 0,
        step3_narrative_chars: 0,
        step4_profile_updated: false,
        errors: Seq::empty(),
    }
}

/// What a model is shown of the layer that a step makes: where every layer is
/// made from what was said alone, an empty layer in place of the old one.
pub open spec fn shown_layer(step: ConcentrationStep, rebuild: bool, old_layer: Seq<char>) -> Seq<
    char,
> {
    if !rebuild {
        old_layer
    } else {
        match step {
            ConcentrationStep::Split => "{\"entries\":[]}"@,
            ConcentrationStep::Abstract => "[]"@,
            ConcentrationStep::Triggers => "{\"triggers\":[],\"narrative\":\"\",\"version\":0}"@,
            _ => "null"@,
        }
    }
}

/// What a model is shown of the profile.
pub open spec fn shown_profile(rebuild: bool, old_profile: Seq<char>) -> Seq<char> {
    if rebuild {
        ""@
    } else {
        old_profile
    }
}

/// The concentration with one error more.
pub open spec fn with_error(e: ConcentrationEngineView, text: Seq<char>) -> ConcentrationEngineView {
    ConcentrationEngineView {
        report: ConcentrationReportView { errors: e.report.errors.push(text), ..e.report },
        ..e
    }
}

/// The concentration with another step ahead.
pub open spec fn at_step(
    e: ConcentrationEngineView,
    step: ConcentrationStep,
) -> ConcentrationEngineView {
    ConcentrationEngineView { step, ..e }
}

/// The concentration once what was said has been gathered: it ends where that
/// failed or where nothing was said.
pub open spec fn begun(
    e: ConcentrationEngineView,
    said: Result<Seq<char>, Seq<char>>,
) -> ConcentrationEngineView {
    match said {
        Ok(t) => at_step(
            e,
            if t == "[]"@ {
                ConcentrationStep::Done
            } else {
                ConcentrationStep::Split
            },
        ),
        Err(x) => at_step(with_error(e, "gather_conversations: "@ + x), ConcentrationStep::Done),
    }
}

/// The layers are to be emptied: they are made from what was said alone, and
/// nothing was said.
pub open spec fn is_to_clear(e: ConcentrationEngineView, said: Result<Seq<char>, Seq<char>>) -> bool {
    e.rebuild_from_active_l1 && said == Ok::<Seq<char>, Seq<char>>("[]"@)
}

/// The concentration after the step ahead. Without tasks it ends; any other
/// step may fail without stopping those after it.
pub open spec fn after_concentration(
    e: ConcentrationEngineView,
    o: ConcentrationOutcomeView,
) -> ConcentrationEngineView {
    let r = e.report;
    match (e.step, o) {
        (ConcentrationStep::Split, ConcentrationOutcomeView::Failed(x)) => at_step(
            with_error(e, "Step1: "@ + x),
            ConcentrationStep::Done,
        ),
        (ConcentrationStep::Split, ConcentrationOutcomeView::Made { count, narrative_chars }) =>
            ConcentrationEngineView {
            report: ConcentrationReportView { step1_tasks: count, ..r },
            step: ConcentrationStep::Abstract,
            ..e
        },
        (ConcentrationStep::Abstract, ConcentrationOutcomeView::Failed(x)) => at_step(
            with_error(e, "Step2: "@ + x),
            ConcentrationStep::Triggers,
        ),
        (ConcentrationStep::Abstract, ConcentrationOutcomeView::Made { count, narrative_chars }) =>
            ConcentrationEngineView {
            report: ConcentrationReportView { step2_types: count, ..r },
            step: ConcentrationStep::Triggers,
            ..e
        },
        (ConcentrationStep::Triggers, ConcentrationOutcomeView::Failed(x)) => at_step(
            with_error(e, "Step3: "@ + x),
            ConcentrationStep::Profile,
        ),
        (ConcentrationStep::Triggers, ConcentrationOutcomeView::Made { count, narrative_chars }) =>
            ConcentrationEngineView {
            report: ConcentrationReportView {
                step3_triggers: count,
                step3_narrative_chars: narrative_chars,
                ..r
            },
            step: ConcentrationStep::Profile,
            ..e
        },
        (ConcentrationStep::Profile, ConcentrationOutcomeView::Failed(x)) => at_step(
            with_error(e, "Step4: "@ + x),
            ConcentrationStep::Done,
        ),
        (ConcentrationStep::Profile, ConcentrationOutcomeView::Made { count, narrative_chars }) =>
            ConcentrationEngineView {
            report: ConcentrationReportView { step4_profile_updated: true, ..r },
            step: ConcentrationStep::Done,
            ..e
        },
        (ConcentrationStep::Done, _) => e,
    }
}

fn labelled_error(label: &str, e: &str) -> (r: String)
    ensures
        r@ == label@ + e@,
{
    let mut r = label.to_owned();
    r.append(e);
    r
}

impl ConcentrationEngine {
    /// A concentration that is about to begin.
    pub fn new(session_id: &str) -> (r: Self)
        ensures
            r.deep_view() == (ConcentrationEngineView {
                session_id: session_id@,
                rebuild_from_active_l1: false,
                step: ConcentrationStep::Split,
                report: nothing_made(),
            }),
    {
        ConcentrationEngine {
            session_id: session_id.to_owned(),
            rebuild_from_active_l1: false,
            step: ConcentrationStep::Split,
            report: ConcentrationReport {
                step1_tasks: 0,
                step2_types: 0,
                step3_triggers: 0,
                step3_narrative_chars: 0,
                step4_profile_updated: false,
                errors: no_items(),
            },
        }
    }

    /// Whether every layer is made from what was said alone, so that a model is
    /// shown nothing of the layers before.
    pub fn with_active_l1_rebuild(self, rebuild: bool) -> (r: Self)
        ensures
            r.deep_view() == (ConcentrationEngineView {
                rebuild_from_active_l1: rebuild,
                ..self.deep_view()
            }),
    {
        ConcentrationEngine {
            session_id: self.session_id,
            rebuild_from_active_l1: rebuild,
            step: self.step,
            report: self.report,
        }
    }

    /// Begins with what was said; says whether the layers are to be emptied.
    pub fn begin(&mut self, said: &Result<String, String>) -> (r: bool)
        ensures
            ({
                let s = match said {
                    Ok(t) => Ok(t@),
                    Err(e) => Err(e@),
                };
                final(self).deep_view() == begun(old(self).deep_view(), s) && r == is_to_clear(
                    old(self).deep_view(),
                    s,
                )
            }),
    {
        match said {
            Ok(t) => {
                if same(t.as_str(), "[]") {
                    self.step = ConcentrationStep::Done;
                    self.rebuild_from_active_l1
                } else {
                    self.step = ConcentrationStep::Split;
                    false
                }
            },
            Err(e) => {
                push_one(
                    &mut self.report.errors,
                    labelled_error("gather_conversations: ", e.as_str()),
                );
                self.step = ConcentrationStep::Done;
                false
            },
        }
    }

    /// Notes that the layers could not be emptied.
    pub fn clear_failed(&mut self, error: &str)
        ensures
            final(self).deep_view() == with_error(
                old(self).deep_view(),
                "clear_derived_memory: "@ + error@,
            ),
    {
        push_one(
            &mut self.report.errors,
            labelled_error("clear_derived_memory: ", error),
        );
    }

    /// What a model is shown of the layer that the step ahead makes.
    pub fn existing_layer(&self, old_layer: &str) -> (r: String)
        ensures
            r@ == shown_layer(self.step, self.rebuild_from_active_l1, old_layer@),
    {
        if !self.rebuild_from_active_l1 {
            return old_layer.to_owned();
        }
        match self.step {
            ConcentrationStep::Split => "{\"entries\":[]}".to_owned(),
            ConcentrationStep::Abstract => "[]".to_owned(),
            ConcentrationStep::Triggers =>
                "{\"triggers\":[],\"narrative\":\"\",\"version\":0}".to_owned(),
            _ => "null".to_owned(),
        }
    }

    /// What a model is shown of the profile.
    pub fn existing_profile(&self, old_profile: &str) -> (r: String)
        ensures
            r@ == shown_profile(self.rebuild_from_active_l1, old_profile@),
    {
        if self.rebuild_from_active_l1 {
            "".to_owned()
        } else {
            old_profile.to_owned()
        }
    }

    /// Whether a profile takes the place of the old one: an empty one does only
    /// where every layer is made anew.
    pub fn keeps_profile(&self, profile: &str) -> (r: bool)
        ensures
            r == (self.rebuild_from_active_l1 || profile@.len() > 0),
    {
        self.rebuild_from_active_l1 || !profile.is_empty()
    }

    /// Takes over what came of the step ahead, and goes on to the next.
    pub fn accept(&mut self, outcome: ConcentrationOutcome)
        ensures
            final(self).deep_view() == after_concentration(
                old(self).deep_view(),
                outcome.deep_view(),
            ),
    {
        match outcome {
            ConcentrationOutcome::Failed(e) => match self.step {
                ConcentrationStep::Split => {
                    push_one(&mut self.report.errors, labelled_error("Step1: ", e.as_str()));
                    self.step = ConcentrationStep::Done;
                },
                ConcentrationStep::Abstract => {
                    push_one(&mut self.report.errors, labelled_error("Step2: ", e.as_str()));
                    self.step = ConcentrationStep::Triggers;
                },
                ConcentrationStep::Triggers => {
                    push_one(&mut self.report.errors, labelled_error("Step3: ", e.as_str()));
                    self.step = ConcentrationStep::Profile;
                },
                ConcentrationStep::Profile => {
                    push_one(&mut self.report.errors, labelled_error("Step4: ", e.as_str()));
                    self.step = ConcentrationStep::Done;
                },
                ConcentrationStep::Done => {},
            },
            ConcentrationOutcome::Made { count, narrative_chars } => match self.step {
                ConcentrationStep::Split => {
                    self.report.step1_tasks = count;
                    self.step = ConcentrationStep::Abstract;
                },
                ConcentrationStep::Abstract => {
                    self.report.step2_types = count;
                    self.step = ConcentrationStep::Triggers;
                },
                ConcentrationStep::Triggers => {
                    self.report.step3_triggers = count;
                    self.report.step3_narrative_chars = narrative_chars;
                    self.step = ConcentrationStep::Profile;
                },
                ConcentrationStep::Profile => {
                    self.report.step4_profile_updated = true;
                    self.step = ConcentrationStep::Done;
                },
                ConcentrationStep::Done => {},
            },
        }
    }
}

/// The JSON in the reply of a model: in a fence, or the whole reply.
pub open spec fn fenced_or_all(reply: Seq<char>) -> Seq<char> {
    match fenced_json(trimmed(reply)) {
        Some(x) => x,
        None => trimmed(reply),
    }
}

/// The JSON in the reply of a model: in a fence, or the whole reply.
pub fn extract_json_str(response: &str) -> (r: String)
    ensures
        r@ == fenced_or_all(response@),
{
    let t = trim(response);
    match find_fence(t.as_str()) {
        Some(x) => x,
        None => t,
    }
}

/// The value in the reply of a model.
pub fn parse_json_response(response: &str) -> (r: Result<Json, MemoryError>)
    ensures
        match json_of_text(fenced_or_all(response@)) {
            Ok(v) => r is Ok && r->Ok_0.deep_view() == v,
            Err(e) => r is Err && r->Err_0.deep_view() == MemoryErrorView::ConsolidationFailed(
                "JSON解析失败: "@ + e,
            ),
        },
{
    let text = extract_json_str(response);
    match Json::parse(text.as_str()) {
        Ok(j) => Ok(j),
        Err(e) => Err(
            MemoryError::ConsolidationFailed(labelled_error("JSON解析失败: ", e.as_str())),
        ),
    }
}

/// Where every layer is made from what was said alone, nothing of the layers or
/// the profile before is shown to a model; otherwise they are shown as they are.
pub proof fn law_rebuild_shows_nothing_old(
    step: ConcentrationStep,
    a: Seq<char>,
    b: Seq<char>,
)
    ensures
        shown_layer(step, true, a) == shown_layer(step, true, b),
        shown_profile(true, a) == shown_profile(true, b),
        shown_layer(step, false, a) == a,
        shown_profile(false, a) == a,
{
}

/// Without tasks the concentration ends, with an error and nothing made; after
/// any other failure the next step is ahead and the error is noted.
pub proof fn law_only_the_first_step_stops(e: ConcentrationEngineView, text: Seq<char>)
    requires
        e.step != ConcentrationStep::Done,
    ensures
        ({
            let after = after_concentration(e, ConcentrationOutcomeView::Failed(text));
            &&& after.report.errors.len() == e.report.errors.len() + 1
            &&& e.step == ConcentrationStep::Split ==> after.step == ConcentrationStep::Done
                && after.report.step1_tasks == e.report.step1_tasks && after.report.step2_types
                == e.report.step2_types && after.report.step3_triggers == e.report.step3_triggers
            &&& e.step == ConcentrationStep::Abstract ==> after.step == ConcentrationStep::Triggers
            &&& e.step == ConcentrationStep::Triggers ==> after.step == ConcentrationStep::Profile
        }),
{
}

} // verus!
