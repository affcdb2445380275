//! Committing changes to the canon of a project.

use crate::json::same_json;
use crate::memory::error::{MemoryError, MemoryErrorView};
use crate::memory::ids::{bad_id, is_id, validate_id};
use crate::memory::novel::consistency::{overlaps, spans_overlap};
use crate::memory::novel::schema::{
    all_facts_of, CanonStatus, CommitReport, CommitReportView, ConflictRecord, ConflictRecordView,
    ExperienceCandidateView, ForeshadowingUpdateView, NovelFact, NovelFactKind, NovelFactView,
    NovelMemoryDelta, NovelMemoryDeltaView, NovelProject, NovelProjectProgress,
    NovelProjectProgressView, NovelProjectView, ProposedFact, ProposedFactView, StateChangeView,
};
use crate::replicate::Replicate;
use crate::seqs::{
    first_index, lemma_deep_push, lemma_filter_map_none, lemma_filter_map_step, lemma_first_index,
    lemma_first_index_none, lemma_first_index_some, lemma_take_all, lemma_take_step,
};
use crate::text::{
    decimal, fnv_of, hex, hex_of, is_blank, number, same, signed_decimal, signed_number,
    stable_hash, trimmed,
};
use vstd::prelude::*;

verus! {

// ---------------------------------------------------------------------------
// Confidences
// ---------------------------------------------------------------------------

/// The bits of 1.
pub const ONE_BITS: u64 = 0x3ff0_0000_0000_0000;

/// The bits of minus 0.
pub const MINUS_ZERO_BITS: u64 = 0x8000_0000_0000_0000;

/// The bits of infinity: larger bits, up to those of minus 0, are no numbers.
pub const INFINITY_BITS: u64 = 0x7ff0_0000_0000_0000;

/// The bits of minus infinity: larger bits are no numbers.
pub const MINUS_INFINITY_BITS: u64 = 0xfff0_0000_0000_0000;

/// The bits of a number from 0 to 1.
pub open spec fn is_unit(bits: u64) -> bool {
    bits <= ONE_BITS || bits == MINUS_ZERO_BITS
}

/// The number nearest to that of `bits` from 0 to 1; what is no number stays.
pub open spec fn unit_of(bits: u64) -> u64 {
    if is_unit(bits) {
        bits
    } else if bits <= INFINITY_BITS {
        ONE_BITS
    } else if MINUS_ZERO_BITS < bits <= MINUS_INFINITY_BITS {
        0
    } else {
        bits
    }
}

/// The number nearest to that of `bits` from 0 to 1.
pub fn clamp_unit(bits: u64) -> (r: u64)
    ensures
        r == unit_of(bits),
{
    if bits <= ONE_BITS || bits == MINUS_ZERO_BITS {
        bits
    } else if bits <= INFINITY_BITS {
        ONE_BITS
    } else if bits > MINUS_ZERO_BITS && bits <= MINUS_INFINITY_BITS {
        0
    } else {
        bits
    }
}

// ---------------------------------------------------------------------------
// What is wrong with a set of changes
// ---------------------------------------------------------------------------

/// What is wrong with a proposed fact.
pub open spec fn fact_problem(f: ProposedFactView) -> Option<Seq<char>> {
    if trimmed(f.fact_id).len() == 0 || trimmed(f.subject_key).len() == 0 || trimmed(f.title).len()
        == 0 {
        Some("fact_id、subject_key 和 title 均不能为空"@)
    } else if !is_unit(f.confidence) {
        Some("事实 "@ + f.fact_id + " 的 confidence 必须在 0..=1"@)
    } else if f.valid_from_chapter is Some && f.valid_to_chapter is Some && f.valid_from_chapter->0
        > f.valid_to_chapter->0 {
        Some("事实 "@ + f.fact_id + " 的章节有效区间无效"@)
    } else {
        None
    }
}

/// What is wrong with the first fact that something is wrong with.
pub open spec fn facts_problem(facts: Seq<ProposedFactView>) -> Option<Seq<char>>
    decreases facts.len(),
{
    if facts.len() == 0 {
        None
    } else {
        match facts_problem(facts.drop_last()) {
            Some(p) => Some(p),
            None => fact_problem(facts.last()),
        }
    }
}

/// What is wrong with a set of changes in itself.
pub open spec fn delta_problem(d: NovelMemoryDeltaView) -> Option<MemoryErrorView> {
    if !is_id(d.project_id) {
        Some(bad_id("project_id"@, d.project_id))
    } else if trimmed(d.branch_id).len() == 0 {
        Some(MemoryErrorView::Conflict("branch_id 不能为空"@))
    } else {
        match facts_problem(all_facts_of(d)) {
            Some(p) => Some(MemoryErrorView::Conflict(p)),
            None => None,
        }
    }
}

fn find_fact_problem(f: &ProposedFact) -> (r: Option<String>)
    ensures
        r.deep_view() == fact_problem(f.deep_view()),
{
    if is_blank(f.fact_id.as_str()) || is_blank(f.subject_key.as_str()) || is_blank(
        f.title.as_str(),
    ) {
        return Some("fact_id、subject_key 和 title 均不能为空".to_owned());
    }
    if !(f.confidence <= ONE_BITS || f.confidence == MINUS_ZERO_BITS) {
        let mut text = "事实 ".to_owned();
        text.append(f.fact_id.as_str());
        text.append(" 的 confidence 必须在 0..=1");
        return Some(text);
    }
    if let (Some(start), Some(end)) = (f.valid_from_chapter, f.valid_to_chapter) {
        if start > end {
            let mut text = "事实 ".to_owned();
            text.append(f.fact_id.as_str());
            text.append(" 的章节有效区间无效");
            return Some(text);
        }
    }
    None
}

proof fn lemma_facts_problem_prefix(facts: Seq<ProposedFactView>, i: int)
    requires
        0 <= i <= facts.len(),
        facts_problem(facts.take(i)) is Some,
    ensures
        facts_problem(facts) == facts_problem(facts.take(i)),
    decreases facts.len() - i,
{
    if i == facts.len() {
        lemma_take_all(facts);
    } else {
        lemma_take_step(facts, i);
        lemma_facts_problem_prefix(facts, i + 1);
    }
}

/// Checks a set of changes in itself.
pub fn validate_delta(delta: &NovelMemoryDelta) -> (r: Result<(), MemoryError>)
    ensures
        match r {
            Ok(_) => delta_problem(delta.deep_view()) is None,
            Err(e) => delta_problem(delta.deep_view()) == Some(e.deep_view()),
        },
{
    if let Err(e) = validate_id("project_id", delta.project_id.as_str()) {
        return Err(e);
    }
    if is_blank(delta.branch_id.as_str()) {
        return Err(MemoryError::Conflict("branch_id 不能为空".to_owned()));
    }
    let facts = delta.all_facts();
    let ghost all = facts.deep_view();
    let mut i: usize = 0;
    while i < facts.len()
        invariant
            i <= facts@.len(),
            all == facts.deep_view(),
            all == all_facts_of(delta.deep_view()),
            is_id(delta.project_id@),
            trimmed(delta.branch_id@).len() > 0,
            facts_problem(all.take(i as int)) is None,
        decreases facts@.len() - i,
    {
        proof {
            lemma_take_step(all, i as int);
            assert(all[i as int] == facts@[i as int].deep_view());
        }
        if let Some(p) = find_fact_problem(facts[i]) {
            proof {
                lemma_facts_problem_prefix(all, i + 1);
            }
            return Err(MemoryError::Conflict(p));
        }
        i = i + 1;
    }
    proof {
        lemma_take_all(all);
    }
    Ok(())
}

/// The first fact id that comes a second time.
pub open spec fn repeated_id(facts: Seq<ProposedFactView>) -> Option<Seq<char>>
    decreases facts.len(),
{
    if facts.len() == 0 {
        None
    } else {
        match repeated_id(facts.drop_last()) {
            Some(id) => Some(id),
            None => if exists|k: int|
                0 <= k < facts.len() - 1 && (#[trigger] facts[k]).fact_id == facts.last().fact_id {
                Some(facts.last().fact_id)
            } else {
                None
            },
        }
    }
}

proof fn lemma_repeated_id_prefix(facts: Seq<ProposedFactView>, i: int)
    requires
        0 <= i <= facts.len(),
        repeated_id(facts.take(i)) is Some,
    ensures
        repeated_id(facts) == repeated_id(facts.take(i)),
    decreases facts.len() - i,
{
    if i == facts.len() {
        lemma_take_all(facts);
    } else {
        lemma_take_step(facts, i);
        lemma_repeated_id_prefix(facts, i + 1);
    }
}

/// Where no id comes a second time, all are different.
pub proof fn lemma_no_repeated_id(facts: Seq<ProposedFactView>)
    requires
        repeated_id(facts) is None,
    ensures
        forall|i: int, j: int|
            0 <= i < j < facts.len() ==> (#[trigger] facts[i]).fact_id != (
            #[trigger] facts[j]).fact_id,
    decreases facts.len(),
{
    if facts.len() > 0 {
        let t = facts.drop_last();
        lemma_no_repeated_id(t);
        assert forall|i: int, j: int| 0 <= i < j < facts.len() implies (
        #[trigger] facts[i]).fact_id != (#[trigger] facts[j]).fact_id by {
            if j < t.len() {
                assert(t[i] == facts[i] && t[j] == facts[j]);
            }
        }
    }
}

/// A fact id that comes a second time in a set of changes.
pub fn find_repeated_id(delta: &NovelMemoryDelta) -> (r: Option<String>)
    ensures
        r.deep_view() == repeated_id(all_facts_of(delta.deep_view())),
{
    let facts = delta.all_facts();
    let ghost all = facts.deep_view();
    let mut i: usize = 0;
    while i < facts.len()
        invariant
            i <= facts@.len(),
            all == facts.deep_view(),
            all == all_facts_of(delta.deep_view()),
            repeated_id(all.take(i as int)) is None,
        decreases facts@.len() - i,
    {
        proof {
            lemma_take_step(all, i as int);
            assert(all[i as int] == facts@[i as int].deep_view());
        }
        let ghost pre = all.take(i + 1);
        let mut k: usize = 0;
        while k < i
            invariant
                k <= i < facts@.len(),
                all == facts.deep_view(),
                all == all_facts_of(delta.deep_view()),
                pre == all.take(i + 1),
                repeated_id(all.take(i as int)) is None,
                forall|j: int| 0 <= j < k ==> (#[trigger] pre[j]).fact_id != pre.last().fact_id,
            decreases i - k,
        {
            proof {
                lemma_take_step(all, i as int);
                assert(pre[k as int] == facts@[k as int].deep_view());
                assert(pre.last() == facts@[i as int].deep_view());
            }
            if same(facts[k].fact_id.as_str(), facts[i].fact_id.as_str()) {
                proof {
                    assert(repeated_id(pre) == Some(facts@[i as int].fact_id@));
                    lemma_repeated_id_prefix(all, i + 1);
                }
                return Some(facts[i].fact_id.clone());
            }
            k = k + 1;
        }
        i = i + 1;
    }
    proof {
        lemma_take_all(all);
    }
    None
}

// ---------------------------------------------------------------------------
// One fact
// ---------------------------------------------------------------------------

/// What a proposed fact counts as: something learnt about writing that has
/// enough evidence counts as confirmed.
pub open spec fn promoted_status(
    candidates: Seq<ExperienceCandidateView>,
    f: ProposedFactView,
) -> CanonStatus {
    if f.kind == NovelFactKind::WritingExperience && f.status == CanonStatus::Draft && exists|i: int|
        0 <= i < candidates.len() && (#[trigger] candidates[i]).fact.fact_id == f.fact_id
            && candidates[i].evidence_count >= 2 {
        CanonStatus::Confirmed
    } else {
        f.status
    }
}

fn find_promoted_status(delta: &NovelMemoryDelta, f: &ProposedFact) -> (r: CanonStatus)
    ensures
        r == promoted_status(delta.deep_view().experience_candidates, f.deep_view()),
{
    if f.kind == NovelFactKind::WritingExperience && f.status == CanonStatus::Draft {
        let ghost all = delta.deep_view().experience_candidates;
        let mut i: usize = 0;
        while i < delta.experience_candidates.len()
            invariant
                i <= delta.experience_candidates@.len(),
                all == delta.deep_view().experience_candidates,
                f.kind == NovelFactKind::WritingExperience,
                f.status == CanonStatus::Draft,
                forall|k: int|
                    0 <= k < i ==> !((#[trigger] all[k]).fact.fact_id == f.fact_id@
                        && all[k].evidence_count >= 2),
            decreases delta.experience_candidates@.len() - i,
        {
            let c = &delta.experience_candidates[i];
            assert(all[i as int] == c.deep_view());
            if c.evidence_count >= 2 && same(c.fact.fact_id.as_str(), f.fact_id.as_str()) {
                return CanonStatus::Confirmed;
            }
            i = i + 1;
        }
    }
    f.status
}

/// `have` and those of `more` that are not empty and not there yet.
pub open spec fn with_sources(have: Seq<Seq<char>>, more: Seq<Seq<char>>) -> Seq<Seq<char>>
    decreases more.len(),
{
    if more.len() == 0 {
        have
    } else {
        let before = with_sources(have, more.drop_last());
        if more.last().len() == 0 || before.contains(more.last()) {
            before
        } else {
            before.push(more.last())
        }
    }
}

/// Whether `items` has `item`.
pub fn has_string(items: &Vec<String>, item: &str) -> (r: bool)
    ensures
        r == items.deep_view().contains(item@),
{
    let ghost all = items.deep_view();
    let mut i: usize = 0;
    while i < items.len()
        invariant
            i <= items@.len(),
            all == items.deep_view(),
            forall|k: int| 0 <= k < i ==> #[trigger] all[k] != item@,
        decreases items@.len() - i,
    {
        assert(all[i as int] == items@[i as int]@);
        if same(items[i].as_str(), item) {
            assert(all.contains(item@));
            return true;
        }
        i = i + 1;
    }
    false
}

fn add_source(have: &mut Vec<String>, source: &str)
    ensures
        final(have).deep_view() == (if source@.len() == 0 || old(have).deep_view().contains(
            source@,
        ) {
            old(have).deep_view()
        } else {
            old(have).deep_view().push(source@)
        }),
{
    if !source.is_empty() && !has_string(have, source) {
        let ghost before = *have;
        let s = source.to_owned();
        have.push(s);
        proof {
            lemma_deep_push(before, *have, s);
        }
    }
}

fn merge_sources(have: &Vec<String>, more: &Vec<String>, last: &str) -> (r: Vec<String>)
    ensures
        r.deep_view() == with_sources(have.deep_view(), more.deep_view().push(last@)),
{
    let ghost h = have.deep_view();
    let ghost m = more.deep_view();
    let mut r = have.replicate();
    let mut i: usize = 0;
    while i < more.len()
        invariant
            i <= more@.len(),
            h == have.deep_view(),
            m == more.deep_view(),
            r.deep_view() == with_sources(h, m.take(i as int)),
        decreases more@.len() - i,
    {
        proof {
            lemma_take_step(m, i as int);
            assert(m[i as int] == more@[i as int]@);
        }
        add_source(&mut r, more[i].as_str());
        i = i + 1;
    }
    proof {
        lemma_take_all(m);
        assert(m.push(last@).drop_last() =~= m);
    }
    add_source(&mut r, last);
    r
}

/// A fact that says the same as something learnt about writing.
pub open spec fn says_the_same(f: NovelFactView, x: ProposedFactView, branch: Seq<char>) -> bool {
    &&& f.kind == NovelFactKind::WritingExperience
    &&& f.branch_id == branch
    &&& f.status == CanonStatus::Confirmed
    &&& f.subject_key == x.subject_key
    &&& f.summary == x.summary
}

/// The fact that something learnt about writing makes surer.
pub open spec fn reinforced_by(
    facts: Seq<NovelFactView>,
    x: ProposedFactView,
    branch: Seq<char>,
) -> Option<int> {
    if x.kind == NovelFactKind::WritingExperience {
        first_index(facts, |f: NovelFactView| says_the_same(f, x, branch))
    } else {
        None
    }
}

/// A fact made surer.
pub open spec fn reinforced(
    f: NovelFactView,
    x: ProposedFactView,
    source: Seq<char>,
    revision: u64,
    now: i64,
) -> NovelFactView {
    NovelFactView {
        reinforcements: f.reinforcements.push(x.confidence),
        source_refs: with_sources(f.source_refs, x.source_refs.push(source)),
        revision,
        updated_at: now,
        ..f
    }
}

/// A fact of the canon that a proposed fact would contradict.
pub open spec fn contradicts(
    f: NovelFactView,
    x: ProposedFactView,
    branch: Seq<char>,
    replaced: Seq<Seq<char>>,
) -> bool {
    &&& f.branch_id == branch
    &&& f.status == CanonStatus::Confirmed
    &&& !replaced.contains(f.fact_id)
    &&& f.subject_key == x.subject_key
    &&& spans_overlap(
        f.valid_from_chapter,
        f.valid_to_chapter,
        x.valid_from_chapter,
        x.valid_to_chapter,
    )
    &&& f.summary != x.summary || f.data != x.data
}

/// The fact of the canon that a proposed fact would contradict.
pub open spec fn contradicted(
    facts: Seq<NovelFactView>,
    x: ProposedFactView,
    status: CanonStatus,
    branch: Seq<char>,
    replaced: Seq<Seq<char>>,
) -> Option<int> {
    if status == CanonStatus::Confirmed {
        first_index(facts, |f: NovelFactView| contradicts(f, x, branch, replaced))
    } else {
        None
    }
}

/// A proposed fact as a fact of the project.
pub open spec fn as_fact(
    x: ProposedFactView,
    status: CanonStatus,
    branch: Seq<char>,
    source: Seq<char>,
    revision: u64,
    now: i64,
) -> NovelFactView {
    NovelFactView {
        fact_id: x.fact_id,
        kind: x.kind,
        subject_key: x.subject_key,
        title: x.title,
        summary: x.summary,
        data: x.data,
        status,
        branch_id: branch,
        valid_from_chapter: x.valid_from_chapter,
        valid_to_chapter: x.valid_to_chapter,
        source_refs: with_sources(x.source_refs, seq![source]),
        confidence: unit_of(x.confidence),
        reinforcements: Seq::empty(),
        revision,
        created_at: now,
        updated_at: now,
    }
}

/// The id of a conflict.
pub open spec fn conflict_id_of(project: Seq<char>, x: ProposedFactView, now: i64) -> Seq<char> {
    "conflict-"@ + hex_of(
        fnv_of(
            vstd::utf8::encode_utf8(
                project + ":"@ + x.subject_key + ":"@ + x.fact_id + ":"@ + signed_decimal(
                    now as int,
                ),
            ),
        ) as nat,
        16,
    )
}

/// The record of a conflict.
pub open spec fn conflict_of(
    project: Seq<char>,
    x: ProposedFactView,
    existing: Seq<char>,
    reason: Seq<char>,
    now: i64,
) -> ConflictRecordView {
    ConflictRecordView {
        conflict_id: conflict_id_of(project, x, now),
        subject_key: x.subject_key,
        existing_fact_id: existing,
        proposed_fact_id: x.fact_id,
        reason,
        created_at: now,
        resolved: false,
        resolution: None,
    }
}

/// The id of a conflict.
pub fn conflict_id(project_id: &str, proposed: &ProposedFact, now: i64) -> (r: String)
    ensures
        r@ == conflict_id_of(project_id@, proposed.deep_view(), now),
{
    let mut key = project_id.to_owned();
    key.append(":");
    key.append(proposed.subject_key.as_str());
    key.append(":");
    key.append(proposed.fact_id.as_str());
    key.append(":");
    let time = signed_number(now);
    key.append(time.as_str());
    let digits = hex(stable_hash(key.as_str()), 16);
    let mut r = "conflict-".to_owned();
    r.append(digits.as_str());
    r
}

fn new_conflict(
    project_id: &str,
    proposed: &ProposedFact,
    existing: &str,
    reason: &str,
    now: i64,
) -> (r: ConflictRecord)
    ensures
        r.deep_view() == conflict_of(project_id@, proposed.deep_view(), existing@, reason@, now),
{
    ConflictRecord {
        conflict_id: conflict_id(project_id, proposed, now),
        subject_key: proposed.subject_key.clone(),
        existing_fact_id: existing.to_owned(),
        proposed_fact_id: proposed.fact_id.clone(),
        reason: reason.to_owned(),
        created_at: now,
        resolved: false,
        resolution: None,
    }
}

fn to_fact(
    proposed: &ProposedFact,
    status: CanonStatus,
    branch_id: &str,
    delta_source: &str,
    revision: u64,
    now: i64,
) -> (r: NovelFact)
    ensures
        r.deep_view() == as_fact(
            proposed.deep_view(),
            status,
            branch_id@,
            delta_source@,
            revision,
            now,
        ),
{
    let nothing: Vec<String> = Vec::new();
    assert(nothing.deep_view().push(delta_source@) =~= seq![delta_source@]);
    let r = NovelFact {
        fact_id: proposed.fact_id.clone(),
        kind: proposed.kind,
        subject_key: proposed.subject_key.clone(),
        title: proposed.title.clone(),
        summary: proposed.summary.clone(),
        data: proposed.data.replicate(),
        status,
        branch_id: branch_id.to_owned(),
        valid_from_chapter: proposed.valid_from_chapter,
        valid_to_chapter: proposed.valid_to_chapter,
        source_refs: merge_sources(&proposed.source_refs, &nothing, delta_source),
        confidence: clamp_unit(proposed.confidence),
        reinforcements: Vec::new(),
        revision,
        created_at: now,
        updated_at: now,
    };
    assert(r.deep_view() =~= as_fact(
        proposed.deep_view(),
        status,
        branch_id@,
        delta_source@,
        revision,
        now,
    ));
    r
}

/// A fact of the project has this id.
pub open spec fn has_fact(facts: Seq<NovelFactView>, id: Seq<char>) -> bool {
    exists|i: int| 0 <= i < facts.len() && (#[trigger] facts[i]).fact_id == id
}

fn find_fact(facts: &Vec<NovelFact>, id: &str) -> (r: Option<usize>)
    ensures
        match r {
            Some(i) => first_index(facts.deep_view(), |f: NovelFactView| f.fact_id == id@) == Some(
                i as int,
            ) && i < facts@.len(),
            None => first_index(facts.deep_view(), |f: NovelFactView| f.fact_id == id@) is None,
        },
{
    let ghost all = facts.deep_view();
    let ghost p = |f: NovelFactView| f.fact_id == id@;
    let mut i: usize = 0;
    while i < facts.len()
        invariant
            i <= facts@.len(),
            all == facts.deep_view(),
            p == (|f: NovelFactView| f.fact_id == id@),
            forall|k: int| 0 <= k < i ==> !p(#[trigger] all[k]),
        decreases facts@.len() - i,
    {
        assert(all[i as int] == facts@[i as int].deep_view());
        if same(facts[i].fact_id.as_str(), id) {
            proof {
                lemma_first_index_some(all, p, i as int);
            }
            return Some(i);
        }
        i = i + 1;
    }
    proof {
        lemma_first_index_none(all, p);
    }
    None
}

fn find_reinforced(facts: &Vec<NovelFact>, x: &ProposedFact, branch: &str) -> (r: Option<usize>)
    ensures
        match r {
            Some(i) => reinforced_by(facts.deep_view(), x.deep_view(), branch@) == Some(i as int)
                && i < facts@.len(),
            None => reinforced_by(facts.deep_view(), x.deep_view(), branch@) is None,
        },
{
    if x.kind != NovelFactKind::WritingExperience {
        return None;
    }
    let ghost all = facts.deep_view();
    let ghost p = |f: NovelFactView| says_the_same(f, x.deep_view(), branch@);
    let mut i: usize = 0;
    while i < facts.len()
        invariant
            i <= facts@.len(),
            all == facts.deep_view(),
            x.kind == NovelFactKind::WritingExperience,
            p == (|f: NovelFactView| says_the_same(f, x.deep_view(), branch@)),
            forall|k: int| 0 <= k < i ==> !p(#[trigger] all[k]),
        decreases facts@.len() - i,
    {
        let f = &facts[i];
        assert(all[i as int] == f.deep_view());
        if f.kind == NovelFactKind::WritingExperience && same(f.branch_id.as_str(), branch)
            && f.status == CanonStatus::Confirmed && same(
            f.subject_key.as_str(),
            x.subject_key.as_str(),
        ) && same(f.summary.as_str(), x.summary.as_str()) {
            proof {
                lemma_first_index_some(all, p, i as int);
            }
            return Some(i);
        }
        i = i + 1;
    }
    proof {
        lemma_first_index_none(all, p);
    }
    None
}

fn find_contradicted(
    facts: &Vec<NovelFact>,
    x: &ProposedFact,
    status: CanonStatus,
    branch: &str,
    replaced: &Vec<String>,
) -> (r: Option<usize>)
    ensures
        match r {
            Some(i) => contradicted(
                facts.deep_view(),
                x.deep_view(),
                status,
                branch@,
                replaced.deep_view(),
            ) == Some(i as int) && i < facts@.len(),
            None => contradicted(
                facts.deep_view(),
                x.deep_view(),
                status,
                branch@,
                replaced.deep_view(),
            ) is None,
        },
{
    if status != CanonStatus::Confirmed {
        return None;
    }
    let ghost all = facts.deep_view();
    let ghost p = |f: NovelFactView| contradicts(f, x.deep_view(), branch@, replaced.deep_view());
    let mut i: usize = 0;
    while i < facts.len()
        invariant
            i <= facts@.len(),
            all == facts.deep_view(),
            status == CanonStatus::Confirmed,
            p == (|f: NovelFactView|
                contradicts(f, x.deep_view(), branch@, replaced.deep_view())),
            forall|k: int| 0 <= k < i ==> !p(#[trigger] all[k]),
        decreases facts@.len() - i,
    {
        let f = &facts[i];
        assert(all[i as int] == f.deep_view());
        if same(f.branch_id.as_str(), branch) && f.status == CanonStatus::Confirmed && !has_string(
            replaced,
            f.fact_id.as_str(),
        ) && same(f.subject_key.as_str(), x.subject_key.as_str()) && overlaps(
            f.valid_from_chapter,
            f.valid_to_chapter,
            x.valid_from_chapter,
            x.valid_to_chapter,
        ) && (!same(f.summary.as_str(), x.summary.as_str()) || !same_json(&f.data, &x.data)) {
            proof {
                lemma_first_index_some(all, p, i as int);
            }
            return Some(i);
        }
        i = i + 1;
    }
    proof {
        lemma_first_index_none(all, p);
    }
    None
}

// ---------------------------------------------------------------------------
// All facts
// ---------------------------------------------------------------------------

/// What becomes of the facts of a project while changes are taken in.
#[verifier::ext_equal]
pub struct Draft {
    pub facts: Seq<NovelFactView>,
    pub accepted: Seq<Seq<char>>,
    pub conflicts: Seq<ConflictRecordView>,
}

/// What the changes of one set have in common.
#[verifier::ext_equal]
pub struct Change {
    pub project: Seq<char>,
    pub delta: NovelMemoryDeltaView,
    pub revision: u64,
    pub now: i64,
}

/// The facts that a set of changes replaces by name.
pub open spec fn replaced_by(d: NovelMemoryDeltaView) -> Seq<Seq<char>> {
    d.state_changes.filter_map(|c: StateChangeView| c.supersedes_fact_id)
        + d.foreshadowing_updates.filter_map(|u: ForeshadowingUpdateView| u.resolves_fact_id)
}

/// One proposed fact is taken in: one whose id is taken is a conflict, one
/// that says again what was learnt about writing makes that surer, one that
/// contradicts the canon is a conflict, and any other is added.
pub open spec fn taken_in(draft: Draft, x: ProposedFactView, c: Change) -> Draft {
    let status = promoted_status(c.delta.experience_candidates, x);
    let again = reinforced_by(draft.facts, x, c.delta.branch_id);
    let against = contradicted(draft.facts, x, status, c.delta.branch_id, replaced_by(c.delta));
    if has_fact(draft.facts, x.fact_id) {
        Draft {
            conflicts: draft.conflicts.push(
                conflict_of(c.project, x, x.fact_id, "fact_id 已存在"@, c.now),
            ),
            ..draft
        }
    } else if again is Some {
        Draft {
            facts: draft.facts.update(
                again->0,
                reinforced(draft.facts[again->0], x, c.delta.source_ref, c.revision, c.now),
            ),
            accepted: draft.accepted.push(x.fact_id),
            ..draft
        }
    } else if against is Some {
        Draft {
            conflicts: draft.conflicts.push(
                conflict_of(
                    c.project,
                    x,
                    draft.facts[against->0].fact_id,
                    "与当前生效 Canon 的同一 subject_key 内容冲突"@,
                    c.now,
                ),
            ),
            ..draft
        }
    } else {
        Draft {
            facts: draft.facts.push(
                as_fact(x, status, c.delta.branch_id, c.delta.source_ref, c.revision, c.now),
            ),
            accepted: draft.accepted.push(x.fact_id),
            ..draft
        }
    }
}

/// All proposed facts are taken in, in order.
pub open spec fn all_taken_in(
    facts: Seq<NovelFactView>,
    proposed: Seq<ProposedFactView>,
    c: Change,
) -> Draft
    decreases proposed.len(),
{
    if proposed.len() == 0 {
        Draft { facts, accepted: Seq::empty(), conflicts: Seq::empty() }
    } else {
        taken_in(all_taken_in(facts, proposed.drop_last(), c), proposed.last(), c)
    }
}

/// The facts after one of them was replaced, and whether one was.
pub open spec fn superseded(
    facts: Seq<NovelFactView>,
    id: Option<Seq<char>>,
    now: i64,
) -> (Seq<NovelFactView>, bool) {
    match id {
        Some(id) => match first_index(facts, |f: NovelFactView| f.fact_id == id) {
            Some(i) => if facts[i].status == CanonStatus::Superseded {
                (facts, false)
            } else {
                (
                    facts.update(
                        i,
                        NovelFactView {
                            status: CanonStatus::Superseded,
                            updated_at: now,
                            ..facts[i]
                        },
                    ),
                    true,
                )
            },
            None => (facts, false),
        },
        None => (facts, false),
    }
}

/// The facts that replace another: the id of each, and the id of the other.
pub open spec fn replacements(
    d: NovelMemoryDeltaView,
) -> Seq<(Seq<char>, Option<Seq<char>>)> {
    d.state_changes.map_values(|c: StateChangeView| (c.fact.fact_id, c.supersedes_fact_id))
        + d.foreshadowing_updates.map_values(
        |u: ForeshadowingUpdateView| (u.fact.fact_id, u.resolves_fact_id),
    )
}

/// The facts after each accepted fact has replaced the one that it names, and
/// whether one was replaced.
pub open spec fn all_superseded(
    facts: Seq<NovelFactView>,
    pairs: Seq<(Seq<char>, Option<Seq<char>>)>,
    accepted: Seq<Seq<char>>,
    now: i64,
) -> (Seq<NovelFactView>, bool)
    decreases pairs.len(),
{
    if pairs.len() == 0 {
        (facts, false)
    } else {
        let before = all_superseded(facts, pairs.drop_last(), accepted, now);
        if accepted.contains(pairs.last().0) {
            let after = superseded(before.0, pairs.last().1, now);
            (after.0, before.1 || after.1)
        } else {
            before
        }
    }
}

/// The volume after progress.
pub open spec fn volume_after(
    current: Option<Seq<char>>,
    progress: Option<NovelProjectProgressView>,
) -> Option<Seq<char>> {
    if progress is Some && progress->0.current_volume is Some {
        progress->0.current_volume
    } else {
        current
    }
}

/// The chapter after progress.
pub open spec fn chapter_after(
    current: Option<u32>,
    progress: Option<NovelProjectProgressView>,
) -> Option<u32> {
    if progress is Some && progress->0.current_chapter is Some {
        progress->0.current_chapter
    } else {
        current
    }
}

/// A publication whose changes the project already has.
pub open spec fn is_applied(p: NovelProjectView, publication: Option<Seq<char>>) -> bool {
    publication is Some && p.applied_publications.contains(publication->0)
}

/// What a project has against a set of changes.
pub open spec fn commit_problem(
    p: NovelProjectView,
    d: NovelMemoryDeltaView,
) -> Option<MemoryErrorView> {
    if d.expected_revision != p.canon_revision {
        Some(
            MemoryErrorView::Conflict(
                "小说项目 revision 已变化: expected="@ + decimal(d.expected_revision as nat)
                    + ", actual="@ + decimal(p.canon_revision as nat),
            ),
        )
    } else if d.branch_id != p.active_branch {
        Some(
            MemoryErrorView::Conflict(
                "变更分支 "@ + d.branch_id + " 与当前分支 "@ + p.active_branch + " 不一致"@,
            ),
        )
    } else if d.progress is Some && d.progress->0.current_chapter is Some && p.current_chapter is Some
        && d.progress->0.current_chapter->0 < p.current_chapter->0 {
        Some(
            MemoryErrorView::Conflict(
                "current_chapter 不允许在同一分支中倒退；重写请创建新分支或显式调整项目"@,
            ),
        )
    } else {
        match repeated_id(all_facts_of(d)) {
            Some(id) => Some(MemoryErrorView::Conflict("变更集中 fact_id 重复: "@ + id)),
            None => None,
        }
    }
}

/// A commit can be counted: the project is not at its last revision, or nothing
/// comes to be committed.
pub open spec fn has_room(
    p: NovelProjectView,
    d: NovelMemoryDeltaView,
    publication: Option<Seq<char>>,
) -> bool {
    p.canon_revision < u64::MAX || is_applied(p, publication) || commit_problem(p, d) is Some
}

/// The project and the report after changes that nothing is wrong with. The
/// graph is up to date only where the canon did not change.
pub open spec fn committed(
    p: NovelProjectView,
    d: NovelMemoryDeltaView,
    publication: Option<Seq<char>>,
    now: i64,
) -> (NovelProjectView, CommitReportView) {
    let c = Change { project: p.project_id, delta: d, revision: (p.canon_revision + 1) as u64, now };
    let draft = all_taken_in(p.facts, all_facts_of(d), c);
    let (facts, replaced) = all_superseded(draft.facts, replacements(d), draft.accepted, now);
    let volume = volume_after(p.current_volume, d.progress);
    let chapter = chapter_after(p.current_chapter, d.progress);
    let changed = draft.accepted.len() > 0 || replaced || volume != p.current_volume || chapter
        != p.current_chapter;
    let revision = if changed {
        c.revision
    } else {
        p.canon_revision
    };
    (
        NovelProjectView {
            facts,
            conflicts: p.conflicts + draft.conflicts,
            current_volume: volume,
            current_chapter: chapter,
            canon_revision: revision,
            applied_publications: match publication {
                Some(id) => p.applied_publications.push(id),
                None => p.applied_publications,
            },
            updated_at: if changed || publication is Some || draft.conflicts.len() > 0 {
                now
            } else {
                p.updated_at
            },
            ..p
        },
        CommitReportView {
            project_id: p.project_id,
            previous_revision: p.canon_revision,
            new_revision: revision,
            accepted_fact_ids: draft.accepted,
            conflicts: draft.conflicts,
            graph_mirrored: !changed,
        },
    )
}

/// The report on changes that the project already has.
pub open spec fn applied_report(p: NovelProjectView) -> CommitReportView {
    CommitReportView {
        project_id: p.project_id,
        previous_revision: if p.canon_revision > 0 {
            (p.canon_revision - 1) as u64
        } else {
            0
        },
        new_revision: p.canon_revision,
        accepted_fact_ids: Seq::empty(),
        conflicts: Seq::empty(),
        graph_mirrored: true,
    }
}

/// What comes of a set of changes, which is right in itself, to a project.
pub open spec fn commit_of(
    p: NovelProjectView,
    d: NovelMemoryDeltaView,
    publication: Option<Seq<char>>,
    now: i64,
) -> Result<(NovelProjectView, CommitReportView), MemoryErrorView> {
    if is_applied(p, publication) {
        Ok((p, applied_report(p)))
    } else {
        match commit_problem(p, d) {
            Some(e) => Err(e),
            None => Ok(committed(p, d, publication, now)),
        }
    }
}

fn replaced_ids(delta: &NovelMemoryDelta) -> (r: Vec<String>)
    ensures
        r.deep_view() == replaced_by(delta.deep_view()),
{
    let mut r: Vec<String> = Vec::new();
    let ghost all = delta.deep_view().state_changes;
    let ghost f = |c: StateChangeView| c.supersedes_fact_id;
    let ghost all2 = delta.deep_view().foreshadowing_updates;
    let ghost f2 = |u: ForeshadowingUpdateView| u.resolves_fact_id;
    proof {
        lemma_filter_map_none(all, f);
        lemma_filter_map_none(all2, f2);
    }
    let mut i: usize = 0;
    while i < delta.state_changes.len()
        invariant
            i <= delta.state_changes@.len(),
            all == delta.deep_view().state_changes,
            f == (|c: StateChangeView| c.supersedes_fact_id),
            r.deep_view() == all.take(i as int).filter_map(f),
        decreases delta.state_changes@.len() - i,
    {
        let ghost before = r;
        proof {
            lemma_filter_map_step(all, i as int, f);
            assert(all[i as int] == delta.state_changes@[i as int].deep_view());
        }
        if let Some(id) = &delta.state_changes[i].supersedes_fact_id {
            let s = id.clone();
            r.push(s);
            proof {
                lemma_deep_push(before, r, s);
            }
        }
        i = i + 1;
    }
    let ghost first = r.deep_view();
    proof {
        lemma_take_all(all);
        assert(first + Seq::<Seq<char>>::empty() =~= first);
    }
    let mut i: usize = 0;
    while i < delta.foreshadowing_updates.len()
        invariant
            i <= delta.foreshadowing_updates@.len(),
            all2 == delta.deep_view().foreshadowing_updates,
            f2 == (|u: ForeshadowingUpdateView| u.resolves_fact_id),
            r.deep_view() == first + all2.take(i as int).filter_map(f2),
        decreases delta.foreshadowing_updates@.len() - i,
    {
        let ghost before = r;
        proof {
            lemma_filter_map_step(all2, i as int, f2);
            assert(all2[i as int] == delta.foreshadowing_updates@[i as int].deep_view());
        }
        if let Some(id) = &delta.foreshadowing_updates[i].resolves_fact_id {
            let s = id.clone();
            r.push(s);
            proof {
                lemma_deep_push(before, r, s);
                assert(first + all2.take(i as int).filter_map(f2).push(s@) =~= (first + all2.take(
                    i as int,
                ).filter_map(f2)).push(s@));
            }
        }
        i = i + 1;
    }
    proof {
        lemma_take_all(all2);
    }
    r
}

/// Replacing a value replaces what it is.
proof fn lemma_deep_update<T: DeepView>(before: Vec<T>, after: Vec<T>, i: int, x: T)
    requires
        0 <= i < before@.len(),
        after@ == before@.update(i, x),
    ensures
        after.deep_view() == before.deep_view().update(i, x.deep_view()),
{
    assert(after.deep_view() =~= before.deep_view().update(i, x.deep_view()));
}

fn reinforce(
    f: &NovelFact,
    x: &ProposedFact,
    source: &str,
    revision: u64,
    now: i64,
) -> (r: NovelFact)
    ensures
        r.deep_view() == reinforced(f.deep_view(), x.deep_view(), source@, revision, now),
{
    let mut r = f.replicate();
    let ghost before = r.reinforcements;
    r.reinforcements.push(x.confidence);
    proof {
        lemma_deep_push(before, r.reinforcements, x.confidence);
    }
    r.source_refs = merge_sources(&f.source_refs, &x.source_refs, source);
    r.revision = revision;
    r.updated_at = now;
    assert(r.deep_view() =~= reinforced(f.deep_view(), x.deep_view(), source@, revision, now));
    r
}

fn take_in(
    facts: &mut Vec<NovelFact>,
    accepted: &mut Vec<String>,
    conflicts: &mut Vec<ConflictRecord>,
    x: &ProposedFact,
    project_id: &str,
    delta: &NovelMemoryDelta,
    replaced: &Vec<String>,
    revision: u64,
    now: i64,
)
    requires
        replaced.deep_view() == replaced_by(delta.deep_view()),
    ensures
        (Draft {
            facts: final(facts).deep_view(),
            accepted: final(accepted).deep_view(),
            conflicts: final(conflicts).deep_view(),
        }) == taken_in(
            (Draft {
                facts: old(facts).deep_view(),
                accepted: old(accepted).deep_view(),
                conflicts: old(conflicts).deep_view(),
            }),
            x.deep_view(),
            (Change { project: project_id@, delta: delta.deep_view(), revision, now }),
        ),
{
    let ghost all = facts.deep_view();
    let ghost p = |f: NovelFactView| f.fact_id == x.fact_id@;
    let ghost facts0 = *facts;
    let ghost accepted0 = *accepted;
    let ghost conflicts0 = *conflicts;
    let status = find_promoted_status(delta, x);
    let taken = find_fact(facts, x.fact_id.as_str());
    proof {
        lemma_first_index(all, p);
        if taken is Some {
            assert(p(all[taken->0 as int]));
        } else {
            assert forall|k: int| 0 <= k < all.len() implies (#[trigger] all[k]).fact_id
                != x.fact_id@ by {
                assert(!p(all[k]));
            }
        }
        assert(has_fact(all, x.fact_id@) == (taken is Some));
    }
    if taken.is_some() {
        let c = new_conflict(project_id, x, x.fact_id.as_str(), "fact_id 已存在", now);
        conflicts.push(c);
        proof {
            lemma_deep_push(conflicts0, *conflicts, c);
        }
        return ;
    }
    if let Some(i) = find_reinforced(facts, x, delta.branch_id.as_str()) {
        let f = reinforce(&facts[i], x, delta.source_ref.as_str(), revision, now);
        assert(all[i as int] == facts@[i as int].deep_view());
        facts.set(i, f);
        let id = x.fact_id.clone();
        accepted.push(id);
        proof {
            lemma_deep_update(facts0, *facts, i as int, f);
            lemma_deep_push(accepted0, *accepted, id);
        }
        return ;
    }
    if let Some(i) = find_contradicted(facts, x, status, delta.branch_id.as_str(), replaced) {
        assert(all[i as int] == facts@[i as int].deep_view());
        let c = new_conflict(
            project_id,
            x,
            facts[i].fact_id.as_str(),
            "与当前生效 Canon 的同一 subject_key 内容冲突",
            now,
        );
        conflicts.push(c);
        proof {
            lemma_deep_push(conflicts0, *conflicts, c);
        }
        return ;
    }
    let f = to_fact(
        x,
        status,
        delta.branch_id.as_str(),
        delta.source_ref.as_str(),
        revision,
        now,
    );
    facts.push(f);
    let id = x.fact_id.clone();
    accepted.push(id);
    proof {
        lemma_deep_push(facts0, *facts, f);
        lemma_deep_push(accepted0, *accepted, id);
    }
}

fn supersede(facts: &mut Vec<NovelFact>, id: &Option<String>, now: i64) -> (r: bool)
    ensures
        (final(facts).deep_view(), r) == superseded(old(facts).deep_view(), id.deep_view(), now),
{
    if let Some(id) = id {
        if let Some(i) = find_fact(facts, id.as_str()) {
            let ghost all = facts.deep_view();
            let ghost facts0 = *facts;
            assert(all[i as int] == facts@[i as int].deep_view());
            if facts[i].status == CanonStatus::Superseded {
                return false;
            }
            let mut f = facts[i].replicate();
            f.status = CanonStatus::Superseded;
            f.updated_at = now;
            facts.set(i, f);
            proof {
                lemma_deep_update(facts0, *facts, i as int, f);
                assert(f.deep_view() =~= (NovelFactView {
                    status: CanonStatus::Superseded,
                    updated_at: now,
                    ..all[i as int]
                }));
            }
            return true;
        }
    }
    false
}

fn supersede_all(
    facts: &mut Vec<NovelFact>,
    delta: &NovelMemoryDelta,
    accepted: &Vec<String>,
    now: i64,
) -> (r: bool)
    ensures
        (final(facts).deep_view(), r) == all_superseded(
            old(facts).deep_view(),
            replacements(delta.deep_view()),
            accepted.deep_view(),
            now,
        ),
{
    let ghost start = facts.deep_view();
    let ghost d = delta.deep_view();
    let ghost pairs = replacements(d);
    let ghost acc = accepted.deep_view();
    let mut any = false;
    let mut i: usize = 0;
    assert(pairs.take(0) =~= Seq::<(Seq<char>, Option<Seq<char>>)>::empty());
    while i < delta.state_changes.len()
        invariant
            i <= delta.state_changes@.len(),
            d == delta.deep_view(),
            pairs == replacements(d),
            acc == accepted.deep_view(),
            (facts.deep_view(), any) == all_superseded(start, pairs.take(i as int), acc, now),
        decreases delta.state_changes@.len() - i,
    {
        let c = &delta.state_changes[i];
        proof {
            lemma_take_step(pairs, i as int);
            assert(d.state_changes[i as int] == c.deep_view());
            assert(pairs[i as int] == (c.fact.fact_id@, c.supersedes_fact_id.deep_view()));
        }
        if has_string(accepted, c.fact.fact_id.as_str()) {
            if supersede(facts, &c.supersedes_fact_id, now) {
                any = true;
            }
        }
        i = i + 1;
    }
    let ghost n = delta.state_changes@.len();
    let mut i: usize = 0;
    while i < delta.foreshadowing_updates.len()
        invariant
            i <= delta.foreshadowing_updates@.len(),
            d == delta.deep_view(),
            n == delta.state_changes@.len(),
            pairs == replacements(d),
            acc == accepted.deep_view(),
            (facts.deep_view(), any) == all_superseded(start, pairs.take(n + i), acc, now),
        decreases delta.foreshadowing_updates@.len() - i,
    {
        let u = &delta.foreshadowing_updates[i];
        proof {
            lemma_take_step(pairs, n + i);
            assert(d.foreshadowing_updates[i as int] == u.deep_view());
            assert(pairs[n + i] == (u.fact.fact_id@, u.resolves_fact_id.deep_view()));
        }
        if has_string(accepted, u.fact.fact_id.as_str()) {
            if supersede(facts, &u.resolves_fact_id, now) {
                any = true;
            }
        }
        i = i + 1;
    }
    proof {
        lemma_take_all(pairs);
    }
    any
}

fn same_option(a: &Option<String>, b: &Option<String>) -> (r: bool)
    ensures
        r == (a.deep_view() == b.deep_view()),
{
    match (a, b) {
        (Some(x), Some(y)) => same(x.as_str(), y.as_str()),
        (None, None) => true,
        _ => false,
    }
}

/// Takes progress over; says whether anything changed.
fn apply_progress(project: &mut NovelProject, progress: &Option<NovelProjectProgress>) -> (r: bool)
    ensures
        final(project).deep_view() == (NovelProjectView {
            current_volume: volume_after(
                old(project).deep_view().current_volume,
                progress.deep_view(),
            ),
            current_chapter: chapter_after(old(project).current_chapter, progress.deep_view()),
            ..old(project).deep_view()
        }),
        r == (final(project).deep_view().current_volume != old(project).deep_view().current_volume
            || final(project).current_chapter != old(project).current_chapter),
        final(project).facts == old(project).facts,
        final(project).conflicts == old(project).conflicts,
{
    let mut changed = false;
    if let Some(p) = progress {
        if p.current_volume.is_some() && !same_option(&p.current_volume, &project.current_volume) {
            project.current_volume = p.current_volume.replicate();
            changed = true;
        }
        if let Some(chapter) = p.current_chapter {
            if project.current_chapter != Some(chapter) {
                project.current_chapter = Some(chapter);
                changed = true;
            }
        }
    }
    changed
}

fn stale(expected: u64, actual: u64) -> (r: MemoryError)
    ensures
        r.deep_view() == MemoryErrorView::Conflict(
            "小说项目 revision 已变化: expected="@ + decimal(expected as nat) + ", actual="@
                + decimal(actual as nat),
        ),
{
    let mut text = "小说项目 revision 已变化: expected=".to_owned();
    let n = number(expected);
    text.append(n.as_str());
    text.append(", actual=");
    let n = number(actual);
    text.append(n.as_str());
    MemoryError::Conflict(text)
}

fn find_commit_problem(project: &NovelProject, delta: &NovelMemoryDelta) -> (r: Option<MemoryError>)
    ensures
        r.deep_view() == commit_problem(project.deep_view(), delta.deep_view()),
{
    if delta.expected_revision != project.canon_revision {
        return Some(stale(delta.expected_revision, project.canon_revision));
    }
    if !same(delta.branch_id.as_str(), project.active_branch.as_str()) {
        let mut text = "变更分支 ".to_owned();
        text.append(delta.branch_id.as_str());
        text.append(" 与当前分支 ");
        text.append(project.active_branch.as_str());
        text.append(" 不一致");
        return Some(MemoryError::Conflict(text));
    }
    if let Some(progress) = &delta.progress {
        if let (Some(next), Some(current)) = (progress.current_chapter, project.current_chapter) {
            if next < current {
                return Some(
                    MemoryError::Conflict(
                        "current_chapter 不允许在同一分支中倒退；重写请创建新分支或显式调整项目".to_owned(),
                    ),
                );
            }
        }
    }
    match find_repeated_id(delta) {
        Some(id) => {
            let mut text = "变更集中 fact_id 重复: ".to_owned();
            text.append(id.as_str());
            Some(MemoryError::Conflict(text))
        },
        None => None,
    }
}

/// Commits a set of changes, which is right in itself, to a project. Facts in
/// conflict do not enter the canon; the others do. With the id of a
/// publication, the changes are committed once. The report says that the
/// graph is up to date only where the canon did not change.
pub fn commit(
    project: &mut NovelProject,
    delta: &NovelMemoryDelta,
    publication_id: Option<&str>,
    now: i64,
) -> (r: Result<CommitReport, MemoryError>)
    requires
        has_room(old(project).deep_view(), delta.deep_view(), publication_id.deep_view()),
    ensures
        match commit_of(
            old(project).deep_view(),
            delta.deep_view(),
            publication_id.deep_view(),
            now,
        ) {
            Ok((p, report)) => r is Ok && final(project).deep_view() == p && r->Ok_0.deep_view()
                == report,
            Err(e) => r is Err && final(project).deep_view() == old(project).deep_view()
                && r->Err_0.deep_view() == e,
        },
{
    let ghost p0 = project.deep_view();
    let ghost d = delta.deep_view();
    if let Some(id) = publication_id {
        if has_string(&project.applied_publications, id) {
            let empty_ids: Vec<String> = Vec::new();
            let empty: Vec<ConflictRecord> = Vec::new();
            assert(empty_ids.deep_view() =~= Seq::<Seq<char>>::empty());
            assert(empty.deep_view() =~= Seq::<ConflictRecordView>::empty());
            return Ok(
                CommitReport {
                    project_id: project.project_id.clone(),
                    previous_revision: if project.canon_revision > 0 {
                        project.canon_revision - 1
                    } else {
                        0
                    },
                    new_revision: project.canon_revision,
                    accepted_fact_ids: empty_ids,
                    conflicts: empty,
                    graph_mirrored: true,
                },
            );
        }
    }
    if let Some(e) = find_commit_problem(project, delta) {
        return Err(e);
    }
    let previous: u64 = project.canon_revision;
    let revision: u64 = previous + 1;
    let replaced = replaced_ids(delta);
    let facts = delta.all_facts();
    let ghost all = facts.deep_view();
    let ghost c = Change { project: p0.project_id, delta: d, revision, now };
    let mut accepted: Vec<String> = Vec::new();
    let mut conflicts: Vec<ConflictRecord> = Vec::new();
    proof {
        assert(all.take(0) =~= Seq::<ProposedFactView>::empty());
        assert(accepted.deep_view() =~= Seq::<Seq<char>>::empty());
        assert(conflicts.deep_view() =~= Seq::<ConflictRecordView>::empty());
    }
    let mut i: usize = 0;
    while i < facts.len()
        invariant
            i <= facts@.len(),
            all == facts.deep_view(),
            d == delta.deep_view(),
            replaced.deep_view() == replaced_by(d),
            c == (Change { project: p0.project_id, delta: d, revision, now }),
            project.deep_view() == (NovelProjectView { facts: project.facts.deep_view(), ..p0 }),
            (Draft {
                facts: project.facts.deep_view(),
                accepted: accepted.deep_view(),
                conflicts: conflicts.deep_view(),
            }) == all_taken_in(p0.facts, all.take(i as int), c),
        decreases facts@.len() - i,
    {
        proof {
            lemma_take_step(all, i as int);
            assert(all[i as int] == facts@[i as int].deep_view());
        }
        let id = project.project_id.clone();
        take_in(
            &mut project.facts,
            &mut accepted,
            &mut conflicts,
            facts[i],
            id.as_str(),
            delta,
            &replaced,
            revision,
            now,
        );
        i = i + 1;
    }
    proof {
        lemma_take_all(all);
    }
    let any = supersede_all(&mut project.facts, delta, &accepted, now);
    let ghost facts1 = project.facts.deep_view();
    let moved = apply_progress(project, &delta.progress);
    let changed = accepted.len() > 0 || any || moved;
    let fresh = conflicts.len() > 0;
    let mut added = conflicts.replicate();
    let ghost conflicts0 = project.conflicts;
    project.conflicts.append(&mut added);
    assert(project.conflicts.deep_view() =~= p0.conflicts + conflicts.deep_view());
    if changed {
        project.canon_revision = revision;
    }
    if let Some(id) = publication_id {
        let ghost before = project.applied_publications;
        let s = id.to_owned();
        project.applied_publications.push(s);
        proof {
            lemma_deep_push(before, project.applied_publications, s);
        }
    }
    if changed || publication_id.is_some() || fresh {
        project.updated_at = now;
    }
    let r = CommitReport {
        project_id: project.project_id.clone(),
        previous_revision: previous,
        new_revision: project.canon_revision,
        accepted_fact_ids: accepted,
        conflicts,
        graph_mirrored: !changed,
    };
    proof {
        let expected = committed(p0, d, publication_id.deep_view(), now);
        assert(accepted.deep_view().len() == accepted@.len());
        assert(conflicts.deep_view().len() == conflicts@.len());
        assert(r.deep_view() =~= expected.1);
        assert(project.deep_view() =~= expected.0);
    }
    Ok(r)
}

} // verus!
