//! What a commit replaces, what a report tells of the canon, and how tasks and
//! publications go on.

use crate::json::JsonView;
use crate::llm::laws::law_first_field_counts;
use crate::memory::error::MemoryErrorView;
use crate::memory::generic_laws::lemma_filter_from_two;
use crate::memory::ids::is_id;
use crate::memory::novel::canon::{
    Change, all_superseded, all_taken_in, commit_of, committed, replacements, superseded,
};
use crate::memory::novel::canon_laws::{disagree, holds_in, law_overlap_is_a_common_chapter};
use crate::memory::novel::consistency::{
    ConsistencyIssueView, IssueSeverity, about, active_facts, clash, clash_issue, clashes_upto,
    clashes_with, conflict_issue, first_about, group_clashes, holds_on, overdue_issue, report_of,
};
use crate::memory::novel::lifecycle::{
    NovelPublicationRecordView, NovelPublicationStatus, NovelTaskCheckpointView, NovelTaskPhase,
    begin_of, checkpoint_index, is_pending_of, latest_active, publication_index,
};
use crate::memory::novel::schema::{
    CanonStatus, ConflictRecordView, NovelFactKind, NovelFactView, NovelMemoryDeltaView,
    NovelProjectStatus, NovelProjectView, all_facts_of, new_project,
};
use crate::memory::novel::store::{
    NovelMemoryStoreView, conflict_index, created, fact_edge_of, fact_node_id, fact_node_of,
    kind_name, lookup_of, project_node_of, settled, status_name,
};
use crate::seqs::{
    first_index, lemma_filter_from, lemma_filter_has, lemma_filter_map_has, lemma_first_index,
    lemma_has_parts,
};
use crate::text_laws::{is_all_blank, law_found_is_the_first, law_trimmed_is_the_middle};
use vstd::prelude::*;

verus! {

// ---------------------------------------------------------------------------
// What is replaced
// ---------------------------------------------------------------------------

spec fn first_with(facts: Seq<NovelFactView>, id: Seq<char>, i: int) -> bool {
    &&& 0 <= i < facts.len()
    &&& facts[i].fact_id == id
    &&& forall|k: int| 0 <= k < i ==> (#[trigger] facts[k]).fact_id != id
}

proof fn lemma_superseded_one(facts: Seq<NovelFactView>, id: Option<Seq<char>>, now: i64)
    ensures
        ({
            let after = superseded(facts, id, now).0;
            &&& after.len() == facts.len()
            &&& forall|i: int|
                0 <= i < facts.len() ==> (#[trigger] after[i]).fact_id == facts[i].fact_id && (
                facts[i].status == CanonStatus::Superseded ==> after[i].status
                    == CanonStatus::Superseded)
            &&& id is Some ==> forall|i: int| #[trigger]
                first_with(facts, id->0, i) ==> after[i].status == CanonStatus::Superseded
        }),
{
    if id is Some {
        let p = |f: NovelFactView| f.fact_id == id->0;
        lemma_first_index(facts, p);
        let after = superseded(facts, id, now).0;
        assert forall|i: int| #[trigger] first_with(facts, id->0, i) implies after[i].status
            == CanonStatus::Superseded by {
            match first_index(facts, p) {
                Some(k) => {
                    assert(p(facts[k]));
                    if k < i {
                        assert(facts[k].fact_id != id->0);
                    }
                    if i < k {
                        assert(!p(facts[i]));
                    }
                },
                None => {
                    assert(!p(facts[i]));
                },
            }
        }
    }
}

proof fn lemma_all_superseded_done(
    facts: Seq<NovelFactView>,
    pairs: Seq<(Seq<char>, Option<Seq<char>>)>,
    accepted: Seq<Seq<char>>,
    now: i64,
)
    ensures
        ({
            let after = all_superseded(facts, pairs, accepted, now).0;
            &&& after.len() == facts.len()
            &&& forall|i: int|
                0 <= i < facts.len() ==> (#[trigger] after[i]).fact_id == facts[i].fact_id
            &&& forall|m: int, i: int|
                0 <= m < pairs.len() && accepted.contains((#[trigger] pairs[m]).0) && pairs[m].1
                    is Some && #[trigger] first_with(facts, pairs[m].1->0, i) ==> after[i].status
                    == CanonStatus::Superseded
        }),
    decreases pairs.len(),
{
    if pairs.len() > 0 {
        let rest = pairs.drop_last();
        lemma_all_superseded_done(facts, rest, accepted, now);
        let before = all_superseded(facts, rest, accepted, now).0;
        let after = all_superseded(facts, pairs, accepted, now).0;
        lemma_superseded_one(before, pairs.last().1, now);
        assert forall|m: int, i: int|
            0 <= m < pairs.len() && accepted.contains((#[trigger] pairs[m]).0) && pairs[m].1 is Some
                && #[trigger] first_with(facts, pairs[m].1->0, i) implies after[i].status
            == CanonStatus::Superseded by {
            let id = pairs[m].1->0;
            if m < rest.len() {
                assert(rest[m] == pairs[m]);
                assert(first_with(facts, rest[m].1->0, i));
                assert(before[i].status == CanonStatus::Superseded);
            } else {
                assert forall|k: int| 0 <= k < i implies (#[trigger] before[k]).fact_id != id by {
                    assert(before[k].fact_id == facts[k].fact_id);
                    assert(facts[k].fact_id != id);
                }
                assert(before[i].fact_id == facts[i].fact_id);
                assert(first_with(before, id, i));
            }
        }
    }
}

/// Where a change of state or a resolution is accepted, the fact that it names
/// as replaced is replaced.
pub proof fn law_named_fact_is_replaced(
    p: NovelProjectView,
    d: NovelMemoryDeltaView,
    publication: Option<Seq<char>>,
    now: i64,
    m: int,
    i: int,
)
    requires
        commit_of(p, d, publication, now) is Ok,
        publication is Some ==> !p.applied_publications.contains(publication->0),
        ({
            let (q, report) = commit_of(p, d, publication, now)->Ok_0;
            &&& 0 <= i < q.facts.len()
            &&& forall|k: int| 0 <= k < i ==> (#[trigger] q.facts[k]).fact_id != q.facts[i].fact_id
            &&& {
                ||| 0 <= m < d.state_changes.len() && report.accepted_fact_ids.contains(
                    d.state_changes[m].fact.fact_id,
                ) && d.state_changes[m].supersedes_fact_id == Some(q.facts[i].fact_id)
                ||| 0 <= m < d.foreshadowing_updates.len() && report.accepted_fact_ids.contains(
                    d.foreshadowing_updates[m].fact.fact_id,
                ) && d.foreshadowing_updates[m].resolves_fact_id == Some(q.facts[i].fact_id)
            }
        }),
    ensures
        commit_of(p, d, publication, now)->Ok_0.0.facts[i].status == CanonStatus::Superseded,
{
    let (q, report) = commit_of(p, d, publication, now)->Ok_0;
    let c = Change {
        project: p.project_id,
        delta: d,
        revision: (p.canon_revision + 1) as u64,
        now,
    };
    let draft = all_taken_in(p.facts, all_facts_of(d), c);
    let pairs = replacements(d);
    lemma_all_superseded_done(draft.facts, pairs, draft.accepted, now);
    let id = q.facts[i].fact_id;
    assert(draft.facts[i].fact_id == id);
    assert forall|k: int| 0 <= k < i implies (#[trigger] draft.facts[k]).fact_id != id by {
        assert(q.facts[k].fact_id != id);
    }
    assert(first_with(draft.facts, id, i));
    let after = all_superseded(draft.facts, pairs, draft.accepted, now).0;
    assert(commit_of(p, d, publication, now)->Ok_0 == committed(p, d, publication, now));
    assert(q.facts == after);
    assert(report.accepted_fact_ids == draft.accepted);
    if 0 <= m < d.state_changes.len() && report.accepted_fact_ids.contains(
        d.state_changes[m].fact.fact_id,
    ) && d.state_changes[m].supersedes_fact_id == Some(id) {
        assert(pairs[m] == (d.state_changes[m].fact.fact_id, Some(id)));
        assert(first_with(draft.facts, pairs[m].1->0, i));
        assert(after[i].status == CanonStatus::Superseded);
    } else {
        let n = d.state_changes.len() + m;
        assert(pairs[n] == (d.foreshadowing_updates[m].fact.fact_id, Some(id)));
        assert(first_with(draft.facts, pairs[n].1->0, i));
        assert(after[i].status == CanonStatus::Superseded);
    }
}

// ---------------------------------------------------------------------------
// The report
// ---------------------------------------------------------------------------

proof fn lemma_filter_two<A>(s: Seq<A>, p: spec_fn(A) -> bool, i: int, j: int) -> (r: (int, int))
    requires
        0 <= i < j < s.len(),
        p(s[i]),
        p(s[j]),
    ensures
        0 <= r.0 < r.1 < s.filter(p).len(),
        s.filter(p)[r.0] == s[i],
        s.filter(p)[r.1] == s[j],
    decreases s.len(),
{
    reveal(Seq::filter);
    let t = s.drop_last();
    if j < t.len() {
        let r = lemma_filter_two(t, p, i, j);
        assert(s.filter(p)[r.0] == t.filter(p)[r.0]);
        assert(s.filter(p)[r.1] == t.filter(p)[r.1]);
        r
    } else {
        lemma_filter_has(t, p, s[i]);
        assert(t[i] == s[i]);
        assert(t.contains(s[i]));
        let a = choose|a: int| 0 <= a < t.filter(p).len() && t.filter(p)[a] == s[i];
        (a, t.filter(p).len() as int)
    }
}

proof fn lemma_clashes_with(left: NovelFactView, rest: Seq<NovelFactView>, x: ConsistencyIssueView)
    ensures
        clashes_with(left, rest).contains(x) <==> exists|k: int|
            0 <= k < rest.len() && clash(left, #[trigger] rest[k]) && x == clash_issue(
                left,
                rest[k],
            ),
    decreases rest.len(),
{
    if rest.len() > 0 {
        let t = rest.drop_last();
        let a = clashes_with(left, t);
        lemma_clashes_with(left, t, x);
        let last = rest.last();
        let y = clash_issue(left, last);
        assert(a.push(y) =~= a + seq![y]);
        lemma_has_parts(a, seq![y], x);
        assert(seq![y].contains(x) == (x == y)) by {
            assert(seq![y][0] == y);
        }
        if exists|k: int| 0 <= k < t.len() && clash(left, #[trigger] t[k]) && x == clash_issue(left, t[k]) {
            let k = choose|k: int|
                0 <= k < t.len() && clash(left, #[trigger] t[k]) && x == clash_issue(left, t[k]);
            assert(rest[k] == t[k]);
        }
        if exists|k: int|
            0 <= k < rest.len() && clash(left, #[trigger] rest[k]) && x == clash_issue(left, rest[k]) {
            let k = choose|k: int|
                0 <= k < rest.len() && clash(left, #[trigger] rest[k]) && x == clash_issue(
                    left,
                    rest[k],
                );
            if k < t.len() {
                assert(t[k] == rest[k]);
            }
        }
        if clash(left, last) {
            assert(rest[rest.len() - 1] == last);
        }
    }
}

spec fn pair_clashes(g: Seq<NovelFactView>, a: int, b: int, x: ConsistencyIssueView) -> bool {
    0 <= a < b < g.len() && clash(g[a], g[b]) && x == clash_issue(g[a], g[b])
}

proof fn lemma_group_clashes(g: Seq<NovelFactView>, n: int, x: ConsistencyIssueView)
    requires
        0 <= n <= g.len(),
    ensures
        group_clashes(g, n).contains(x) <==> exists|a: int, b: int|
            a < n && #[trigger] pair_clashes(g, a, b, x),
    decreases n,
{
    if n > 0 {
        let left = g[n - 1];
        let rest = g.skip(n);
        lemma_group_clashes(g, n - 1, x);
        lemma_clashes_with(left, rest, x);
        lemma_has_parts(group_clashes(g, n - 1), clashes_with(left, rest), x);
        if clashes_with(left, rest).contains(x) {
            let k = choose|k: int|
                0 <= k < rest.len() && clash(left, #[trigger] rest[k]) && x == clash_issue(
                    left,
                    rest[k],
                );
            assert(rest[k] == g[n + k]);
            assert(pair_clashes(g, n - 1, n + k, x));
        }
        if exists|a: int, b: int| a < n && #[trigger] pair_clashes(g, a, b, x) {
            let (a, b) = choose|a: int, b: int| a < n && #[trigger] pair_clashes(g, a, b, x);
            if a == n - 1 {
                assert(rest[b - n] == g[b]);
            } else {
                assert(a < n - 1 && pair_clashes(g, a, b, x));
            }
        }
    }
}

proof fn lemma_clashes_upto(facts: Seq<NovelFactView>, n: int, x: ConsistencyIssueView)
    requires
        0 <= n <= facts.len(),
    ensures
        clashes_upto(facts, n).contains(x) ==> exists|i: int, j: int|
            #[trigger] pair_clashes(facts, i, j, x) && facts[i].subject_key == facts[j].subject_key,
        forall|i: int, j: int, m: int|
            0 <= m < n && first_about(facts, m) && #[trigger] facts[m].subject_key
                == facts[i].subject_key && #[trigger] pair_clashes(facts, i, j, x)
                && facts[i].subject_key == facts[j].subject_key ==> clashes_upto(
                facts,
                n,
            ).contains(x),
    decreases n,
{
    if n > 0 {
        lemma_clashes_upto(facts, n - 1, x);
        let before = clashes_upto(facts, n - 1);
        let subject = facts[n - 1].subject_key;
        let p = |f: NovelFactView| f.subject_key == subject;
        let g = about(facts, subject);
        let more = group_clashes(g, g.len() as int);
        lemma_group_clashes(g, g.len() as int, x);
        lemma_has_parts(before, more, x);
        if first_about(facts, n - 1) && more.contains(x) {
            let (a, b) = choose|a: int, b: int|
                a < g.len() && #[trigger] pair_clashes(g, a, b, x);
            let (i, j) = lemma_filter_from_two(facts, p, a, b);
            let u = lemma_filter_from(facts, p, a);
            let w = lemma_filter_from(facts, p, b);
            assert(pair_clashes(facts, i, j, x));
        }
        assert forall|i: int, j: int, m: int|
            0 <= m < n && first_about(facts, m) && #[trigger] facts[m].subject_key
                == facts[i].subject_key && #[trigger] pair_clashes(facts, i, j, x)
                && facts[i].subject_key == facts[j].subject_key implies clashes_upto(
            facts,
            n,
        ).contains(x) by {
            if m == n - 1 {
                let (a, b) = lemma_filter_two(facts, p, i, j);
                assert(pair_clashes(g, a, b, x));
            } else {
                assert(before.contains(x));
            }
        }
    }
}

proof fn lemma_first_about(facts: Seq<NovelFactView>, i: int) -> (m: int)
    requires
        0 <= i < facts.len(),
    ensures
        0 <= m <= i,
        first_about(facts, m),
        facts[m].subject_key == facts[i].subject_key,
    decreases i,
{
    if first_about(facts, i) {
        i
    } else {
        let k = choose|k: int|
            0 <= k < i && (#[trigger] facts[k]).subject_key == facts[i].subject_key;
        lemma_first_about(facts, k)
    }
}

/// Two facts of the branch at hand that are confirmed and say different things
/// of one subject in one chapter are reported as an error, both by their ids.
pub proof fn law_disagreement_is_reported(p: NovelProjectView, i: int, j: int, n: u32)
    requires
        0 <= i < j < p.facts.len(),
        disagree(p.facts[i], p.facts[j]),
        p.facts[i].branch_id == p.active_branch,
        holds_in(p.facts[i], n),
        holds_in(p.facts[j], n),
    ensures
        exists|x: ConsistencyIssueView| #[trigger]
            report_of(p).issues.contains(x) && x.severity == IssueSeverity::Error && x.fact_ids
                == seq![p.facts[i].fact_id, p.facts[j].fact_id] && x.code == "overlapping_canon"@,
{
    let q = |f: NovelFactView| holds_on(f, p.active_branch);
    let active = active_facts(p);
    let (a, b) = lemma_filter_two(p.facts, q, i, j);
    let left = active[a];
    let right = active[b];
    law_overlap_is_a_common_chapter(
        left.valid_from_chapter,
        left.valid_to_chapter,
        right.valid_from_chapter,
        right.valid_to_chapter,
    );
    let x = clash_issue(left, right);
    assert(pair_clashes(active, a, b, x));
    let m = lemma_first_about(active, a);
    lemma_clashes_upto(active, active.len() as int, x);
    assert(active[m].subject_key == active[a].subject_key);
    let c1 = p.conflicts.filter_map(|c: ConflictRecordView| conflict_issue(c));
    let c2 = clashes_upto(active, active.len() as int);
    assert(c2.contains(x));
    let c3 = match p.current_chapter {
        Some(chapter) => active.filter_map(|f: NovelFactView| overdue_issue(f, chapter)),
        None => Seq::empty(),
    };
    lemma_has_parts(c1, c2, x);
    lemma_has_parts(c1 + c2, c3, x);
    assert(report_of(p).issues.contains(x));
}

/// A report tells of nothing but conflicts that are not settled, facts of the
/// branch that disagree, and foreshadowing that is overdue; and it tells of all
/// of the first and the last.
pub proof fn law_report_tells_what_is_wrong(p: NovelProjectView, x: ConsistencyIssueView, k: int)
    ensures
        report_of(p).issues.contains(x) ==> {
            ||| exists|i: int|
                0 <= i < p.conflicts.len() && !(#[trigger] p.conflicts[i]).resolved && x.fact_ids
                    == seq![p.conflicts[i].existing_fact_id, p.conflicts[i].proposed_fact_id]
                    && x.severity == IssueSeverity::Error
            ||| exists|i: int, j: int|
                0 <= i < j < p.facts.len() && disagree(#[trigger] p.facts[i], #[trigger] p.facts[j])
                    && p.facts[i].branch_id == p.active_branch && x.fact_ids
                    == seq![p.facts[i].fact_id, p.facts[j].fact_id] && x.severity
                    == IssueSeverity::Error
            ||| p.current_chapter is Some && exists|i: int|
                0 <= i < p.facts.len() && is_overdue(#[trigger] p.facts[i], p) && x.fact_ids
                    == seq![p.facts[i].fact_id] && x.severity == IssueSeverity::Warning
        },
        0 <= k < p.conflicts.len() && !p.conflicts[k].resolved ==> exists|y: ConsistencyIssueView|
            #[trigger]
            report_of(p).issues.contains(y) && y.severity == IssueSeverity::Error && y.fact_ids
                == seq![p.conflicts[k].existing_fact_id, p.conflicts[k].proposed_fact_id],
        0 <= k < p.facts.len() && p.current_chapter is Some && is_overdue(p.facts[k], p)
            ==> exists|y: ConsistencyIssueView| #[trigger]
            report_of(p).issues.contains(y) && y.severity == IssueSeverity::Warning && y.fact_ids
                == seq![p.facts[k].fact_id],
        report_of(p).project_id == p.project_id,
        report_of(p).revision == p.canon_revision,
        report_of(p).checked_chapter == p.current_chapter,
{
    let q = |f: NovelFactView| holds_on(f, p.active_branch);
    let active = active_facts(p);
    let f1 = |c: ConflictRecordView| conflict_issue(c);
    let c1 = p.conflicts.filter_map(f1);
    let c2 = clashes_upto(active, active.len() as int);
    let c3 = match p.current_chapter {
        Some(chapter) => active.filter_map(|f: NovelFactView| overdue_issue(f, chapter)),
        None => Seq::empty(),
    };
    let all = report_of(p).issues;
    assert(all == c1 + c2 + c3);
    lemma_has_parts(c1, c2, x);
    lemma_has_parts(c1 + c2, c3, x);
    lemma_filter_map_has(p.conflicts, f1, x);
    if c1.contains(x) {
        let i = choose|i: int| 0 <= i < p.conflicts.len() && f1(#[trigger] p.conflicts[i]) == Some(x);
        assert(!p.conflicts[i].resolved);
    } else if c2.contains(x) {
        lemma_clashes_upto(active, active.len() as int, x);
        let (a, b) = choose|a: int, b: int|
            #[trigger] pair_clashes(active, a, b, x) && active[a].subject_key
                == active[b].subject_key;
        let (i, j) = lemma_filter_from_two(p.facts, q, a, b);
        let u = lemma_filter_from(p.facts, q, a);
        let w = lemma_filter_from(p.facts, q, b);
        assert(disagree(p.facts[i], p.facts[j]));
    } else if c3.contains(x) {
        let chapter = p.current_chapter->0;
        let g = |f: NovelFactView| overdue_issue(f, chapter);
        lemma_filter_map_has(active, g, x);
        let a = choose|a: int| 0 <= a < active.len() && g(#[trigger] active[a]) == Some(x);
        let i = lemma_filter_from(p.facts, q, a);
        assert(is_overdue(p.facts[i], p));
    }
    if 0 <= k < p.conflicts.len() && !p.conflicts[k].resolved {
        let y = conflict_issue(p.conflicts[k])->0;
        lemma_filter_map_has(p.conflicts, f1, y);
        assert(f1(p.conflicts[k]) == Some(y));
        lemma_has_parts(c1, c2, y);
        lemma_has_parts(c1 + c2, c3, y);
        assert(all.contains(y));
    }
    if 0 <= k < p.facts.len() && p.current_chapter is Some && is_overdue(p.facts[k], p) {
        let chapter = p.current_chapter->0;
        let g = |f: NovelFactView| overdue_issue(f, chapter);
        let y = overdue_issue(p.facts[k], chapter)->0;
        assert(p.facts.contains(p.facts[k]));
        lemma_filter_has(p.facts, q, p.facts[k]);
        let a = choose|a: int| 0 <= a < active.len() && active[a] == p.facts[k];
        assert(g(active[a]) == Some(y));
        lemma_filter_map_has(active, g, y);
        lemma_has_parts(c1 + c2, c3, y);
        assert(all.contains(y));
    }
}

/// `f` is a confirmed foreshadowing of the branch at hand that was to be dealt
/// with in a chapter before the current one.
pub open spec fn is_overdue(f: NovelFactView, p: NovelProjectView) -> bool {
    &&& f.kind == NovelFactKind::Foreshadowing
    &&& f.status == CanonStatus::Confirmed
    &&& f.branch_id == p.active_branch
    &&& f.data.get("target_chapter"@) is Some
    &&& f.data.get("target_chapter"@)->0 is Unsigned
    &&& (f.data.get("target_chapter"@)->0)->Unsigned_0 < p.current_chapter->0
}

// ---------------------------------------------------------------------------
// Tasks and publications
// ---------------------------------------------------------------------------

/// The task that goes on is one of the project that is not completed, and no
/// other such was touched later; where there is any, there is one.
pub proof fn law_task_that_goes_on(s: Seq<NovelTaskCheckpointView>, project: Seq<char>)
    ensures
        match latest_active(s, project) {
            Some(c) => {
                &&& s.contains(c)
                &&& c.project_id == project
                &&& c.phase != NovelTaskPhase::Completed
                &&& forall|i: int|
                    0 <= i < s.len() && (#[trigger] s[i]).project_id == project && s[i].phase
                        != NovelTaskPhase::Completed ==> s[i].updated_at <= c.updated_at
            },
            None => forall|i: int|
                0 <= i < s.len() && (#[trigger] s[i]).project_id == project ==> s[i].phase
                    == NovelTaskPhase::Completed,
        },
    decreases s.len(),
{
    if s.len() > 0 {
        let t = s.drop_last();
        law_task_that_goes_on(t, project);
        let last = s.last();
        assert(s[s.len() - 1] == last);
        if let Some(c) = latest_active(t, project) {
            let k = choose|k: int| 0 <= k < t.len() && t[k] == c;
            assert(s[k] == c);
        }
        match latest_active(s, project) {
            Some(c) => {
                assert forall|i: int|
                    0 <= i < s.len() && (#[trigger] s[i]).project_id == project && s[i].phase
                        != NovelTaskPhase::Completed implies s[i].updated_at <= c.updated_at by {
                    if i < t.len() {
                        assert(t[i] == s[i]);
                    }
                }
            },
            None => {
                assert forall|i: int| 0 <= i < s.len() && (#[trigger] s[i]).project_id
                    == project implies s[i].phase == NovelTaskPhase::Completed by {
                    if i < t.len() {
                        assert(t[i] == s[i]);
                    }
                }
            },
        }
    }
}

/// A publication is begun where its ids are ids, it is pending, no other has
/// its id, and none of its project is on its way; and it comes behind all
/// others.
pub proof fn law_publication_is_begun(
    s: Seq<NovelPublicationRecordView>,
    p: NovelPublicationRecordView,
)
    ensures
        begin_of(s, p) is Ok <==> {
            &&& is_id(p.publication_id)
            &&& is_id(p.task_id)
            &&& is_id(p.project_id)
            &&& p.status == NovelPublicationStatus::Pending
            &&& forall|i: int|
                0 <= i < s.len() ==> (#[trigger] s[i]).publication_id != p.publication_id
            &&& forall|i: int|
                0 <= i < s.len() && (#[trigger] s[i]).project_id == p.project_id ==> s[i].status
                    != NovelPublicationStatus::Pending && s[i].status
                    != NovelPublicationStatus::ArtifactSaved
        },
        begin_of(s, p) is Ok ==> begin_of(s, p)->Ok_0 == s.push(p),
        is_id(p.project_id) <==> p.project_id.len() > 0 && forall|i: int|
            0 <= i < p.project_id.len() ==> {
                let c = #[trigger] p.project_id[i];
                ('a' <= c <= 'z') || ('A' <= c <= 'Z') || ('0' <= c <= '9') || c == '-' || c == '_'
            },
{
    let q = |x: NovelPublicationRecordView| x.publication_id == p.publication_id;
    lemma_first_index(s, q);
    match first_index(s, q) {
        Some(i) => {
            assert(q(s[i]));
        },
        None => {
            assert forall|i: int| 0 <= i < s.len() implies (#[trigger] s[i]).publication_id
                != p.publication_id by {
                assert(!q(s[i]));
            }
        },
    }
    if exists|i: int| 0 <= i < s.len() && is_pending_of(#[trigger] s[i], p.project_id) {
        let i = choose|i: int| 0 <= i < s.len() && is_pending_of(#[trigger] s[i], p.project_id);
        assert(s[i].project_id == p.project_id);
    }
    if exists|i: int|
        0 <= i < s.len() && (#[trigger] s[i]).project_id == p.project_id && (s[i].status
            == NovelPublicationStatus::Pending || s[i].status
            == NovelPublicationStatus::ArtifactSaved) {
        let i = choose|i: int|
            0 <= i < s.len() && (#[trigger] s[i]).project_id == p.project_id && (s[i].status
                == NovelPublicationStatus::Pending || s[i].status
                == NovelPublicationStatus::ArtifactSaved);
        assert(is_pending_of(s[i], p.project_id));
    }
}

/// A project is found by its id, the first that has it; and a text that is no
/// id and an id that no project has are told apart.
pub proof fn law_project_is_looked_up(projects: Seq<NovelProjectView>, id: Seq<char>)
    ensures
        lookup_of(projects, id) matches Ok(i) ==> 0 <= i < projects.len() && projects[i].project_id
            == id,
        is_id(id) ==> (lookup_of(projects, id) is Ok <==> exists|i: int|
            0 <= i < projects.len() && (#[trigger] projects[i]).project_id == id),
        !is_id(id) ==> lookup_of(projects, id) is Err && lookup_of(projects, id)->Err_0
            == MemoryErrorView::Conflict(
            "project_id"@ + " 只能包含字母、数字、-、_: "@ + id,
        ),
        is_id(id) && lookup_of(projects, id) is Err ==> lookup_of(projects, id)->Err_0
            == MemoryErrorView::NotFound("小说项目不存在: "@ + id),
{
    let q = |p: NovelProjectView| p.project_id == id;
    lemma_first_index(projects, q);
    match first_index(projects, q) {
        Some(i) => {
            assert(q(projects[i]));
            assert(projects[i].project_id == id);
        },
        None => {
            assert forall|i: int| 0 <= i < projects.len() implies (#[trigger] projects[i]).project_id
                != id by {
                assert(!q(projects[i]));
            }
        },
    }
}

/// A project is created where its id is an id, its title is not blank and none
/// has its id; it comes last and the others stay.
pub proof fn law_project_is_created(s: NovelMemoryStoreView, p: NovelProjectView)
    ensures
        created(s, p) is Ok <==> is_id(p.project_id) && !is_all_blank(p.title) && forall|i: int|
            0 <= i < s.projects.len() ==> (#[trigger] s.projects[i]).project_id != p.project_id,
        created(s, p) matches Ok(r) ==> r.projects == s.projects.push(p) && r.root == s.root
            && r.graph_db_path == s.graph_db_path,
{
    law_trimmed_is_the_middle(p.title);
    let q = |x: NovelProjectView| x.project_id == p.project_id;
    lemma_first_index(s.projects, q);
    match first_index(s.projects, q) {
        Some(i) => {
            assert(q(s.projects[i]));
        },
        None => {
            assert forall|i: int| 0 <= i < s.projects.len() implies (
            #[trigger] s.projects[i]).project_id != p.project_id by {
                assert(!q(s.projects[i]));
            }
        },
    }
}

/// Settling a conflict marks it, the first with its id in the first project
/// with its id, with how it was settled, and changes nothing else; it needs
/// words, a project and a conflict.
pub proof fn law_conflict_is_settled(
    s: NovelMemoryStoreView,
    project_id: Seq<char>,
    conflict_id: Seq<char>,
    resolution: Seq<char>,
    now: i64,
    n: int,
    m: int,
)
    requires
        0 <= n < s.projects.len(),
        0 <= m < s.projects[n].conflicts.len(),
    ensures
        settled(s, project_id, conflict_id, resolution, now) matches Ok(r) ==> {
            &&& !is_all_blank(resolution)
            &&& r.projects.len() == s.projects.len()
            &&& s.projects[n].project_id != project_id ==> r.projects[n] == s.projects[n]
            &&& r.projects[n].facts == s.projects[n].facts
            &&& r.projects[n].canon_revision == s.projects[n].canon_revision
            &&& r.projects[n].conflicts.len() == s.projects[n].conflicts.len()
            &&& s.projects[n].conflicts[m].conflict_id != conflict_id
                ==> r.projects[n].conflicts[m] == s.projects[n].conflicts[m]
            &&& exists|i: int, k: int|
                0 <= i < s.projects.len() && 0 <= k < s.projects[i].conflicts.len()
                    && s.projects[i].project_id == project_id && s.projects[i].conflicts[k].conflict_id
                    == conflict_id && (#[trigger] r.projects[i].conflicts[k]).resolved
                    && r.projects[i].conflicts[k].resolution == Some(resolution)
                    && r.projects[i].updated_at == now
        },
        is_all_blank(resolution) ==> settled(s, project_id, conflict_id, resolution, now) is Err,
{
    law_trimmed_is_the_middle(resolution);
    law_project_is_looked_up(s.projects, project_id);
    if let Ok(r) = settled(s, project_id, conflict_id, resolution, now) {
        let i = lookup_of(s.projects, project_id)->Ok_0;
        let p = s.projects[i];
        let q = |c: ConflictRecordView| c.conflict_id == conflict_id;
        lemma_first_index(p.conflicts, q);
        let k = conflict_index(p, conflict_id)->0;
        assert(q(p.conflicts[k]));
        assert(r.projects[i].conflicts[k].resolved);
    }
}

// ---------------------------------------------------------------------------
// The graph
// ---------------------------------------------------------------------------

/// Different kinds of facts and different states have different names.
pub proof fn law_names_tell_apart(
    a: NovelFactKind,
    b: NovelFactKind,
    s: CanonStatus,
    t: CanonStatus,
)
    ensures
        kind_name(a) == kind_name(b) ==> a == b,
        status_name(s) == status_name(t) ==> s == t,
        status_name(CanonStatus::Draft) == "draft"@,
        status_name(CanonStatus::Confirmed) == "confirmed"@,
        status_name(CanonStatus::Rejected) == "rejected"@,
        status_name(CanonStatus::Superseded) == "superseded"@,
{
    reveal_strlit("world_rule");
    reveal_strlit("character");
    reveal_strlit("character_state");
    reveal_strlit("location");
    reveal_strlit("organization");
    reveal_strlit("item");
    reveal_strlit("event");
    reveal_strlit("timeline");
    reveal_strlit("plot_thread");
    reveal_strlit("foreshadowing");
    reveal_strlit("outline");
    reveal_strlit("chapter_plan");
    reveal_strlit("chapter_summary");
    reveal_strlit("decision");
    reveal_strlit("feedback");
    reveal_strlit("writing_experience");
    assert("world_rule"@.len() == 10 && "character"@.len() == 9 && "character_state"@.len() == 15
        && "location"@.len() == 8 && "organization"@.len() == 12 && "item"@.len() == 4
        && "event"@.len() == 5 && "timeline"@.len() == 8 && "plot_thread"@.len() == 11
        && "foreshadowing"@.len() == 13 && "outline"@.len() == 7 && "chapter_plan"@.len() == 12
        && "chapter_summary"@.len() == 15 && "decision"@.len() == 8 && "feedback"@.len() == 8
        && "writing_experience"@.len() == 18);
    assert("location"@[0] == 'l' && "timeline"@[0] == 't' && "decision"@[0] == 'd' && "feedback"@[0]
        == 'f' && "organization"@[0] == 'o' && "chapter_plan"@[0] == 'c');
    assert("character_state"@[3] == 'r' && "chapter_summary"@[3] == 'p');
    reveal_strlit("draft");
    reveal_strlit("confirmed");
    reveal_strlit("rejected");
    reveal_strlit("superseded");
    assert("draft"@.len() == 5 && "confirmed"@.len() == 9 && "rejected"@.len() == 8
        && "superseded"@.len() == 10);
}

/// A fact stands in the graph as it stands in the canon: under its title, with
/// its summary, its kind, its state, its branch and what it holds, as long as it
/// was not replaced; and one edge leads to it from its project.
pub proof fn law_fact_is_mirrored(
    p: NovelProjectView,
    f: NovelFactView,
    id: Seq<char>,
    confidence: u64,
    now: i64,
)
    ensures
        ({
            let n = fact_node_of(p, f, id, confidence);
            &&& n.id == id
            &&& n.props.get("title"@) == Some(JsonView::Str(f.title))
            &&& n.props.get("summary"@) == Some(JsonView::Str(f.summary))
            &&& n.props.get("project_id"@) == Some(JsonView::Str(p.project_id))
            &&& n.props.get("fact_id"@) == Some(JsonView::Str(f.fact_id))
            &&& n.props.get("data"@) == Some(f.data)
            &&& n.props.get("status"@) == Some(JsonView::Str(status_name(f.status)))
            &&& n.props.get("branch_id"@) == Some(JsonView::Str(f.branch_id))
            &&& n.props.get("novel_kind"@) == Some(JsonView::Str(kind_name(f.kind)))
            &&& n.superseded <==> f.status == CanonStatus::Superseded
            &&& n.created_at == f.created_at && n.last_accessed == f.updated_at
        }),
        fact_edge_of(p, f, confidence, now).src == project_node_of(p, now).id,
        fact_edge_of(p, f, confidence, now).dst == fact_node_id(f.fact_id),
        "novel_"@.is_prefix_of(f.fact_id) ==> fact_node_id(f.fact_id) == f.fact_id,
        project_node_of(p, now).props.get("title"@) == Some(JsonView::Str(p.title)),
        !project_node_of(p, now).superseded,
{
    reveal_strlit("name");
    reveal_strlit("title");
    reveal_strlit("summary");
    reveal_strlit("project_id");
    reveal_strlit("fact_id");
    reveal_strlit("novel_kind");
    reveal_strlit("catalog_type");
    reveal_strlit("catalog_keywords");
    reveal_strlit("source_refs");
    reveal_strlit("data");
    reveal_strlit("status");
    reveal_strlit("branch_id");
    reveal_strlit("revision");
    assert("name"@.len() == 4 && "title"@.len() == 5 && "summary"@.len() == 7 && "project_id"@.len()
        == 10 && "fact_id"@.len() == 7 && "novel_kind"@.len() == 10 && "catalog_type"@.len() == 12
        && "catalog_keywords"@.len() == 16 && "source_refs"@.len() == 11 && "data"@.len() == 4
        && "status"@.len() == 6 && "branch_id"@.len() == 9 && "revision"@.len() == 8);
    assert("name"@[0] == 'n' && "data"@[0] == 'd' && "summary"@[0] == 's' && "fact_id"@[0] == 'f'
        && "project_id"@[0] == 'p' && "novel_kind"@[0] == 'n');
    let fields = fact_node_of(p, f, id, confidence).props->Object_0;
    law_first_field_counts(fields, "title"@, 1);
    law_first_field_counts(fields, "summary"@, 2);
    law_first_field_counts(fields, "project_id"@, 3);
    law_first_field_counts(fields, "fact_id"@, 4);
    law_first_field_counts(fields, "novel_kind"@, 5);
    law_first_field_counts(fields, "data"@, 9);
    law_first_field_counts(fields, "status"@, 10);
    law_first_field_counts(fields, "branch_id"@, 11);
    law_first_field_counts(project_node_of(p, now).props->Object_0, "title"@, 1);
    law_found_is_the_first(f.fact_id, "novel_"@, 0);
}

/// A new project is planned, on its main branch, with nothing in its canon.
pub proof fn law_new_project_is_empty(id: Seq<char>, title: Seq<char>, now: i64)
    ensures
        ({
            let p = new_project(id, title, now);
            &&& p.project_id == id && p.title == title && p.active_branch == "main"@
            &&& p.facts.len() == 0 && p.conflicts.len() == 0 && p.applied_publications.len() == 0
            &&& p.canon_revision == 0 && p.current_chapter is None && p.current_volume is None
            &&& p.created_at == now && p.updated_at == now
            &&& p.status == NovelProjectStatus::Planning
        }),
{
}

/// Tasks and publications are found by their ids, the first under each.
pub proof fn law_found_by_their_ids(
    tasks: Seq<NovelTaskCheckpointView>,
    records: Seq<NovelPublicationRecordView>,
    id: Seq<char>,
)
    ensures
        match checkpoint_index(tasks, id) {
            Some(i) => 0 <= i < tasks.len() && tasks[i].task_id == id && forall|k: int|
                0 <= k < i ==> (#[trigger] tasks[k]).task_id != id,
            None => forall|k: int| 0 <= k < tasks.len() ==> (#[trigger] tasks[k]).task_id != id,
        },
        match publication_index(records, id) {
            Some(i) => 0 <= i < records.len() && records[i].publication_id == id && forall|k: int|
                0 <= k < i ==> (#[trigger] records[k]).publication_id != id,
            None => forall|k: int|
                0 <= k < records.len() ==> (#[trigger] records[k]).publication_id != id,
        },
{
    let p = |c: NovelTaskCheckpointView| c.task_id == id;
    let q = |r: NovelPublicationRecordView| r.publication_id == id;
    lemma_first_index(tasks, p);
    lemma_first_index(records, q);
    assert(forall|k: int|
        0 <= k < tasks.len() ==> p(#[trigger] tasks[k]) == (tasks[k].task_id == id));
    assert(forall|k: int|
        0 <= k < records.len() ==> q(#[trigger] records[k]) == (records[k].publication_id == id));
}

} // verus!
