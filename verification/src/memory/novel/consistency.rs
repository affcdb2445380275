//! Whether the canon of a project holds together.

use crate::memory::novel::schema::{
    CanonStatus, ConflictRecord, ConflictRecordView, NovelFact, NovelFactKind, NovelFactView,
    NovelProject, NovelProjectView,
};
use crate::json::same_json;
use crate::replicate::Replicate;
use crate::seqs::{
    lemma_deep_push, lemma_filter_map_none, lemma_filter_map_step, lemma_filter_none,
    lemma_filter_step, lemma_take_all, lemma_take_step,
};
use crate::text::{decimal, number, same};
use vstd::prelude::*;

verus! {

/// How bad an issue is.
#[derive(Debug, Clone, Copy, PartialEq, Eq, Structural)]
pub enum IssueSeverity {
    Warning,
    Error,
}

impl DeepView for IssueSeverity {
    type V = IssueSeverity;

    open spec fn deep_view(&self) -> IssueSeverity {
        *self
    }
}

impl Replicate for IssueSeverity {
    fn replicate(&self) -> (r: Self) {
        *self
    }
}

/// Something that does not hold together.
#[derive(Debug, PartialEq)]
pub struct ConsistencyIssue {
    pub code: String,
    pub severity: IssueSeverity,
    pub message: String,
    pub fact_ids: Vec<String>,
}

/// What an issue is.
#[verifier::ext_equal]
pub struct ConsistencyIssueView {
    pub code: Seq<char>,
    pub severity: IssueSeverity,
    pub message: Seq<char>,
    pub fact_ids: Seq<Seq<char>>,
}

impl DeepView for ConsistencyIssue {
    type V = ConsistencyIssueView;

    open spec fn deep_view(&self) -> ConsistencyIssueView {
        ConsistencyIssueView {
            code: self.code@,
            severity: self.severity,
            message: self.message@,
            fact_ids: self.fact_ids.deep_view(),
        }
    }
}

impl Replicate for ConsistencyIssue {
    fn replicate(&self) -> (r: Self) {
        ConsistencyIssue {
            code: self.code.clone(),
            severity: self.severity,
            message: self.message.clone(),
            fact_ids: self.fact_ids.replicate(),
        }
    }
}

/// What was found in a project.
#[derive(Debug, PartialEq)]
pub struct ConsistencyReport {
    pub project_id: String,
    pub revision: u64,
    pub checked_chapter: Option<u32>,
    pub issues: Vec<ConsistencyIssue>,
}

/// What a report is.
#[verifier::ext_equal]
pub struct ConsistencyReportView {
    pub project_id: Seq<char>,
    pub revision: u64,
    pub checked_chapter: Option<u32>,
    pub issues: Seq<ConsistencyIssueView>,
}

impl DeepView for ConsistencyReport {
    type V = ConsistencyReportView;

    open spec fn deep_view(&self) -> ConsistencyReportView {
        ConsistencyReportView {
            project_id: self.project_id@,
            revision: self.revision,
            checked_chapter: self.checked_chapter.deep_view(),
            issues: self.issues.deep_view(),
        }
    }
}

impl Replicate for ConsistencyReport {
    fn replicate(&self) -> (r: Self) {
        ConsistencyReport {
            project_id: self.project_id.clone(),
            revision: self.revision,
            checked_chapter: self.checked_chapter.replicate(),
            issues: self.issues.replicate(),
        }
    }
}


impl ConsistencyReport {
    /// Whether an issue is an error.
    pub fn has_errors(&self) -> (r: bool)
        ensures
            r == exists|i: int|
                0 <= i < self.issues@.len() && (#[trigger] self.issues@[i]).severity
                    == IssueSeverity::Error,
    {
        let mut i: usize = 0;
        while i < self.issues.len()
            invariant
                i <= self.issues@.len(),
                forall|k: int|
                    0 <= k < i ==> (#[trigger] self.issues@[k]).severity != IssueSeverity::Error,
            decreases self.issues@.len() - i,
        {
            if self.issues[i].severity == IssueSeverity::Error {
                return true;
            }
            i = i + 1;
        }
        false
    }
}

/// Two spans of chapters have a chapter in common; an open start is the first
/// chapter, an open end the last that can be.
pub open spec fn spans_overlap(
    a_start: Option<u32>,
    a_end: Option<u32>,
    b_start: Option<u32>,
    b_end: Option<u32>,
) -> bool {
    let from = |s: Option<u32>|
        match s {
            Some(n) => n,
            None => 0u32,
        };
    let to = |e: Option<u32>|
        match e {
            Some(n) => n,
            None => u32::MAX,
        };
    from(a_start) <= to(b_end) && from(b_start) <= to(a_end)
}

/// Whether two spans of chapters have a chapter in common.
pub fn overlaps(
    a_start: Option<u32>,
    a_end: Option<u32>,
    b_start: Option<u32>,
    b_end: Option<u32>,
) -> (r: bool)
    ensures
        r == spans_overlap(a_start, a_end, b_start, b_end),
{
    let a_from: u32 = match a_start {
        Some(n) => n,
        None => 0,
    };
    let a_to: u32 = match a_end {
        Some(n) => n,
        None => u32::MAX,
    };
    let b_from: u32 = match b_start {
        Some(n) => n,
        None => 0,
    };
    let b_to: u32 = match b_end {
        Some(n) => n,
        None => u32::MAX,
    };
    a_from <= b_to && b_from <= a_to
}

/// A conflict that nobody has settled, as an issue.
pub open spec fn conflict_issue(c: ConflictRecordView) -> Option<ConsistencyIssueView> {
    if c.resolved {
        None
    } else {
        Some(
            ConsistencyIssueView {
                code: "unresolved_canon_conflict"@,
                severity: IssueSeverity::Error,
                message: "未处理 Canon 冲突："@ + c.subject_key + "（"@ + c.reason + "）"@,
                fact_ids: seq![c.existing_fact_id, c.proposed_fact_id],
            },
        )
    }
}

/// A fact that holds on the branch that is written.
pub open spec fn holds_on(f: NovelFactView, branch: Seq<char>) -> bool {
    f.status == CanonStatus::Confirmed && f.branch_id == branch
}

/// The facts that hold on the branch that is written.
pub open spec fn active_facts(p: NovelProjectView) -> Seq<NovelFactView> {
    p.facts.filter(|f: NovelFactView| holds_on(f, p.active_branch))
}

/// Two facts about the same thing that cannot both hold.
pub open spec fn clash(left: NovelFactView, right: NovelFactView) -> bool {
    &&& spans_overlap(
        left.valid_from_chapter,
        left.valid_to_chapter,
        right.valid_from_chapter,
        right.valid_to_chapter,
    )
    &&& left.summary != right.summary || left.data != right.data
}

/// Two facts that clash, as an issue.
pub open spec fn clash_issue(left: NovelFactView, right: NovelFactView) -> ConsistencyIssueView {
    ConsistencyIssueView {
        code: "overlapping_canon"@,
        severity: IssueSeverity::Error,
        message: "同一事实键 "@ + left.subject_key + " 存在有效期重叠的不同 Canon"@,
        fact_ids: seq![left.fact_id, right.fact_id],
    }
}

/// The facts of `rest` that clash with `left`.
pub open spec fn clashes_with(left: NovelFactView, rest: Seq<NovelFactView>) -> Seq<
    ConsistencyIssueView,
>
    decreases rest.len(),
{
    if rest.len() == 0 {
        Seq::empty()
    } else {
        let before = clashes_with(left, rest.drop_last());
        if clash(left, rest.last()) {
            before.push(clash_issue(left, rest.last()))
        } else {
            before
        }
    }
}

/// The clashes of the first `n` of `group` with those that come after each.
pub open spec fn group_clashes(group: Seq<NovelFactView>, n: int) -> Seq<ConsistencyIssueView>
    decreases n,
{
    if n <= 0 {
        Seq::empty()
    } else {
        group_clashes(group, n - 1) + clashes_with(group[n - 1], group.skip(n))
    }
}

/// The facts about `subject`.
pub open spec fn about(facts: Seq<NovelFactView>, subject: Seq<char>) -> Seq<NovelFactView> {
    facts.filter(|f: NovelFactView| f.subject_key == subject)
}

/// No fact before position `i` is about the same thing.
pub open spec fn first_about(facts: Seq<NovelFactView>, i: int) -> bool {
    forall|k: int| 0 <= k < i ==> (#[trigger] facts[k]).subject_key != facts[i].subject_key
}

/// The clashes among the facts, thing by thing, for the things that the first
/// `n` facts are about.
pub open spec fn clashes_upto(facts: Seq<NovelFactView>, n: int) -> Seq<ConsistencyIssueView>
    decreases n,
{
    if n <= 0 {
        Seq::empty()
    } else if first_about(facts, n - 1) {
        let group = about(facts, facts[n - 1].subject_key);
        clashes_upto(facts, n - 1) + group_clashes(group, group.len() as int)
    } else {
        clashes_upto(facts, n - 1)
    }
}

/// The chapter by which a foreshadowing is to be settled.
pub open spec fn target_chapter(f: NovelFactView) -> Option<u32> {
    match f.data.u64_at("target_chapter"@) {
        Some(n) => if n <= u32::MAX {
            Some(n as u32)
        } else {
            None
        },
        None => None,
    }
}

/// A foreshadowing that should have been settled by now, as an issue.
pub open spec fn overdue_issue(f: NovelFactView, chapter: u32) -> Option<ConsistencyIssueView> {
    if f.kind == NovelFactKind::Foreshadowing {
        match target_chapter(f) {
            Some(target) => if target < chapter {
                Some(
                    ConsistencyIssueView {
                        code: "overdue_foreshadowing"@,
                        severity: IssueSeverity::Warning,
                        message: "伏笔“"@ + f.title + "”计划在第 "@ + decimal(target as nat)
                            + " 章前处理，但当前已到第 "@ + decimal(chapter as nat) + " 章"@,
                        fact_ids: seq![f.fact_id],
                    },
                )
            } else {
                None
            },
            None => None,
        }
    } else {
        None
    }
}

/// What does not hold together in a project: the conflicts that nobody has
/// settled, the facts that clash, and the foreshadowings that are overdue.
pub open spec fn issues_of(p: NovelProjectView) -> Seq<ConsistencyIssueView> {
    let active = active_facts(p);
    p.conflicts.filter_map(|c: ConflictRecordView| conflict_issue(c)) + clashes_upto(
        active,
        active.len() as int,
    ) + match p.current_chapter {
        Some(chapter) => active.filter_map(|f: NovelFactView| overdue_issue(f, chapter)),
        None => Seq::empty(),
    }
}

fn two(a: &str, b: &str) -> (r: Vec<String>)
    ensures
        r.deep_view() == seq![a@, b@],
{
    let r: Vec<String> = vec![a.to_owned(), b.to_owned()];
    assert(r.deep_view() =~= seq![a@, b@]);
    r
}

fn conflict_issues(conflicts: &Vec<ConflictRecord>) -> (r: Vec<ConsistencyIssue>)
    ensures
        r.deep_view() == conflicts.deep_view().filter_map(
            |c: ConflictRecordView| conflict_issue(c),
        ),
{
    let ghost all = conflicts.deep_view();
    let ghost f = |c: ConflictRecordView| conflict_issue(c);
    let mut r: Vec<ConsistencyIssue> = Vec::new();
    let mut i: usize = 0;
    proof {
        lemma_filter_map_none(all, f);
        assert(r.deep_view() =~= Seq::<ConsistencyIssueView>::empty());
    }
    while i < conflicts.len()
        invariant
            i <= conflicts@.len(),
            all == conflicts.deep_view(),
            f == (|c: ConflictRecordView| conflict_issue(c)),
            r.deep_view() == all.take(i as int).filter_map(f),
        decreases conflicts@.len() - i,
    {
        let c = &conflicts[i];
        proof {
            lemma_filter_map_step(all, i as int, f);
            assert(all[i as int] == c.deep_view());
        }
        if !c.resolved {
            let mut message = "未处理 Canon 冲突：".to_owned();
            message.append(c.subject_key.as_str());
            message.append("（");
            message.append(c.reason.as_str());
            message.append("）");
            let issue = ConsistencyIssue {
                code: "unresolved_canon_conflict".to_owned(),
                severity: IssueSeverity::Error,
                message,
                fact_ids: two(c.existing_fact_id.as_str(), c.proposed_fact_id.as_str()),
            };
            let ghost before = r;
            r.push(issue);
            proof {
                lemma_deep_push(before, r, issue);
            }
        }
        i = i + 1;
    }
    proof {
        lemma_take_all(all);
    }
    r
}

fn find_active<'a>(project: &'a NovelProject) -> (r: Vec<&'a NovelFact>)
    ensures
        r.deep_view() == active_facts(project.deep_view()),
{
    let ghost p = project.deep_view();
    let ghost all = p.facts;
    let ghost pred = |f: NovelFactView| holds_on(f, p.active_branch);
    let mut r: Vec<&'a NovelFact> = Vec::new();
    let mut i: usize = 0;
    proof {
        lemma_filter_none(all, pred);
        assert(r.deep_view() =~= Seq::<NovelFactView>::empty());
    }
    while i < project.facts.len()
        invariant
            i <= project.facts@.len(),
            p == project.deep_view(),
            all == p.facts,
            pred == (|f: NovelFactView| holds_on(f, p.active_branch)),
            r.deep_view() == all.take(i as int).filter(pred),
        decreases project.facts@.len() - i,
    {
        let f = &project.facts[i];
        proof {
            lemma_filter_step(all, i as int, pred);
            assert(all[i as int] == f.deep_view());
        }
        if f.status == CanonStatus::Confirmed && same(
            f.branch_id.as_str(),
            project.active_branch.as_str(),
        ) {
            let ghost before = r;
            r.push(f);
            proof {
                lemma_deep_push(before, r, f);
            }
        }
        i = i + 1;
    }
    proof {
        lemma_take_all(all);
    }
    r
}

fn find_about<'a>(facts: &Vec<&'a NovelFact>, subject: &str) -> (r: Vec<&'a NovelFact>)
    ensures
        r.deep_view() == about(facts.deep_view(), subject@),
{
    let ghost all = facts.deep_view();
    let ghost pred = |f: NovelFactView| f.subject_key == subject@;
    let mut r: Vec<&'a NovelFact> = Vec::new();
    let mut i: usize = 0;
    proof {
        lemma_filter_none(all, pred);
        assert(r.deep_view() =~= Seq::<NovelFactView>::empty());
    }
    while i < facts.len()
        invariant
            i <= facts@.len(),
            all == facts.deep_view(),
            pred == (|f: NovelFactView| f.subject_key == subject@),
            r.deep_view() == all.take(i as int).filter(pred),
        decreases facts@.len() - i,
    {
        let f: &'a NovelFact = facts[i];
        proof {
            lemma_filter_step(all, i as int, pred);
            assert(all[i as int] == f.deep_view());
        }
        if same(f.subject_key.as_str(), subject) {
            let ghost before = r;
            r.push(f);
            proof {
                lemma_deep_push(before, r, f);
            }
        }
        i = i + 1;
    }
    proof {
        lemma_take_all(all);
    }
    r
}

fn is_first_about(facts: &Vec<&NovelFact>, i: usize) -> (r: bool)
    requires
        i < facts@.len(),
    ensures
        r == first_about(facts.deep_view(), i as int),
{
    let ghost all = facts.deep_view();
    let mut k: usize = 0;
    while k < i
        invariant
            k <= i < facts@.len(),
            all == facts.deep_view(),
            forall|j: int|
                0 <= j < k ==> (#[trigger] all[j]).subject_key != all[i as int].subject_key,
        decreases i - k,
    {
        assert(all[k as int] == facts@[k as int].deep_view());
        assert(all[i as int] == facts@[i as int].deep_view());
        if same(facts[k].subject_key.as_str(), facts[i].subject_key.as_str()) {
            return false;
        }
        k = k + 1;
    }
    true
}

fn add_group_clashes(group: &Vec<&NovelFact>, issues: &mut Vec<ConsistencyIssue>)
    ensures
        final(issues).deep_view() == old(issues).deep_view() + group_clashes(
            group.deep_view(),
            group@.len() as int,
        ),
{
    let ghost start = issues.deep_view();
    let ghost g = group.deep_view();
    let mut a: usize = 0;
    assert(start + group_clashes(g, 0) =~= start);
    while a < group.len()
        invariant
            a <= group@.len(),
            g == group.deep_view(),
            issues.deep_view() == start + group_clashes(g, a as int),
        decreases group@.len() - a,
    {
        let left = group[a];
        let ghost l = left.deep_view();
        let ghost rest = g.skip(a + 1);
        let ghost mid = issues.deep_view();
        let mut b: usize = a + 1;
        assert(l == g[a as int]);
        assert(mid + clashes_with(l, rest.take(0)) =~= mid);
        while b < group.len()
            invariant
                a < b <= group@.len(),
                g == group.deep_view(),
                l == left.deep_view(),
                rest == g.skip(a + 1),
                issues.deep_view() == mid + clashes_with(l, rest.take(b - a - 1)),
            decreases group@.len() - b,
        {
            let right = group[b];
            proof {
                lemma_take_step(rest, b - a - 1);
                assert(rest[b - a - 1] == right.deep_view());
            }
            if overlaps(
                left.valid_from_chapter,
                left.valid_to_chapter,
                right.valid_from_chapter,
                right.valid_to_chapter,
            ) && (!same(left.summary.as_str(), right.summary.as_str()) || !same_json(
                &left.data,
                &right.data,
            )) {
                let mut message = "同一事实键 ".to_owned();
                message.append(left.subject_key.as_str());
                message.append(" 存在有效期重叠的不同 Canon");
                let issue = ConsistencyIssue {
                    code: "overlapping_canon".to_owned(),
                    severity: IssueSeverity::Error,
                    message,
                    fact_ids: two(left.fact_id.as_str(), right.fact_id.as_str()),
                };
                let ghost before = *issues;
                issues.push(issue);
                proof {
                    lemma_deep_push(before, *issues, issue);
                    assert(issues.deep_view() =~= mid + clashes_with(l, rest.take(b - a)));
                }
            }
            b = b + 1;
        }
        proof {
            lemma_take_all(rest);
            assert(issues.deep_view() =~= start + group_clashes(g, a + 1));
        }
        a = a + 1;
    }
}

fn overdue_issues(active: &Vec<&NovelFact>, chapter: u32) -> (r: Vec<ConsistencyIssue>)
    ensures
        r.deep_view() == active.deep_view().filter_map(
            |f: NovelFactView| overdue_issue(f, chapter),
        ),
{
    let ghost all = active.deep_view();
    let ghost g = |f: NovelFactView| overdue_issue(f, chapter);
    let mut r: Vec<ConsistencyIssue> = Vec::new();
    let mut i: usize = 0;
    proof {
        lemma_filter_map_none(all, g);
        assert(r.deep_view() =~= Seq::<ConsistencyIssueView>::empty());
    }
    while i < active.len()
        invariant
            i <= active@.len(),
            all == active.deep_view(),
            g == (|f: NovelFactView| overdue_issue(f, chapter)),
            r.deep_view() == all.take(i as int).filter_map(g),
        decreases active@.len() - i,
    {
        let f = active[i];
        proof {
            lemma_filter_map_step(all, i as int, g);
            assert(all[i as int] == f.deep_view());
        }
        if f.kind == NovelFactKind::Foreshadowing {
            if let Some(n) = f.data.u64_at("target_chapter") {
                if n <= u32::MAX as u64 && (n as u32) < chapter {
                    let target = number(n);
                    let current = number(chapter as u64);
                    let mut message = "伏笔“".to_owned();
                    message.append(f.title.as_str());
                    message.append("”计划在第 ");
                    message.append(target.as_str());
                    message.append(" 章前处理，但当前已到第 ");
                    message.append(current.as_str());
                    message.append(" 章");
                    let ids: Vec<String> = vec![f.fact_id.clone()];
                    assert(ids.deep_view() =~= seq![f.fact_id@]);
                    let issue = ConsistencyIssue {
                        code: "overdue_foreshadowing".to_owned(),
                        severity: IssueSeverity::Warning,
                        message,
                        fact_ids: ids,
                    };
                    let ghost before = r;
                    r.push(issue);
                    proof {
                        lemma_deep_push(before, r, issue);
                    }
                }
            }
        }
        i = i + 1;
    }
    proof {
        lemma_take_all(all);
    }
    r
}

/// The report on a project.
pub open spec fn report_of(p: NovelProjectView) -> ConsistencyReportView {
    ConsistencyReportView {
        project_id: p.project_id,
        revision: p.canon_revision,
        checked_chapter: p.current_chapter,
        issues: issues_of(p),
    }
}

/// What does not hold together in a project: the conflicts that nobody has
/// settled, the facts that clash, and the foreshadowings that are overdue.
pub fn check_consistency(project: &NovelProject) -> (r: ConsistencyReport)
    ensures
        r.deep_view() == report_of(project.deep_view()),
{
    let ghost p = project.deep_view();
    let mut issues = conflict_issues(&project.conflicts);
    let ghost first = issues.deep_view();
    let active = find_active(project);
    let ghost facts = active.deep_view();
    let mut i: usize = 0;
    assert(first + clashes_upto(facts, 0) =~= first);
    while i < active.len()
        invariant
            i <= active@.len(),
            facts == active.deep_view(),
            issues.deep_view() == first + clashes_upto(facts, i as int),
        decreases active@.len() - i,
    {
        assert(facts[i as int] == active@[i as int].deep_view());
        if is_first_about(&active, i) {
            let group = find_about(&active, active[i].subject_key.as_str());
            assert(group@.len() == group.deep_view().len());
            add_group_clashes(&group, &mut issues);
            assert(issues.deep_view() =~= first + clashes_upto(facts, i + 1));
        }
        i = i + 1;
    }
    let ghost second = issues.deep_view();
    if let Some(chapter) = project.current_chapter {
        let mut overdue = overdue_issues(&active, chapter);
        let ghost third = overdue.deep_view();
        issues.append(&mut overdue);
        assert(issues.deep_view() =~= second + third);
    } else {
        assert(second + Seq::<ConsistencyIssueView>::empty() =~= second);
    }
    assert(issues.deep_view() == issues_of(p));
    ConsistencyReport {
        project_id: project.project_id.clone(),
        revision: project.canon_revision,
        checked_chapter: project.current_chapter,
        issues,
    }
}

} // verus!
