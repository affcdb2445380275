//! What may stand side by side in the canon, and what a change adds to it.

use crate::memory::novel::canon::{
    Change, Draft, all_superseded, all_taken_in, commit_of, committed, contradicts, fact_problem,
    is_unit, promoted_status, repeated_id, replaced_by, replacements, says_the_same, superseded,
    taken_in, with_sources,
};
use crate::memory::novel::consistency::spans_overlap;
use crate::memory::novel::schema::{
    CanonStatus, ExperienceCandidateView, ForeshadowingUpdateView, NovelFactKind, NovelFactView,
    NovelMemoryDeltaView, NovelProjectView, PlotUpdateView, ProposedFactView, StateChangeView,
    all_facts_of,
};
use crate::seqs::{lemma_filter_map_has, lemma_first_index, lemma_has_parts};
use crate::text_laws::{is_all_blank, law_trimmed_is_the_middle};
use vstd::prelude::*;

verus! {

/// Chapter `n` lies between the ends: an open beginning is before all chapters,
/// an open end after all of them.
pub open spec fn in_span(from: Option<u32>, to: Option<u32>, n: u32) -> bool {
    &&& from is Some ==> from->0 <= n
    &&& to is Some ==> n <= to->0
}

/// `f` holds in chapter `n`.
pub open spec fn holds_in(f: NovelFactView, n: u32) -> bool {
    in_span(f.valid_from_chapter, f.valid_to_chapter, n)
}

/// The changes name the fact `id` as one that they replace or resolve.
pub open spec fn names(d: NovelMemoryDeltaView, id: Seq<char>) -> bool {
    ||| exists|k: int|
        0 <= k < d.state_changes.len() && (#[trigger] d.state_changes[k]).supersedes_fact_id
            == Some(id)
    ||| exists|k: int|
        0 <= k < d.foreshadowing_updates.len() && (
        #[trigger] d.foreshadowing_updates[k]).resolves_fact_id == Some(id)
}

/// `a` and `b` are both confirmed and say different things of one subject in
/// one branch.
pub open spec fn disagree(a: NovelFactView, b: NovelFactView) -> bool {
    &&& a.status == CanonStatus::Confirmed
    &&& b.status == CanonStatus::Confirmed
    &&& a.branch_id == b.branch_id
    &&& a.subject_key == b.subject_key
    &&& a.summary != b.summary || a.data != b.data
}

/// Two spans of chapters overlap where they have a chapter in common; and where
/// neither ends before it begins, only there.
pub proof fn law_overlap_is_a_common_chapter(
    a_start: Option<u32>,
    a_end: Option<u32>,
    b_start: Option<u32>,
    b_end: Option<u32>,
)
    ensures
        (exists|n: u32| in_span(a_start, a_end, n) && in_span(b_start, b_end, n))
            ==> spans_overlap(a_start, a_end, b_start, b_end),
        spans_overlap(a_start, a_end, b_start, b_end) && (a_start is Some && a_end is Some
            ==> a_start->0 <= a_end->0) && (b_start is Some && b_end is Some ==> b_start->0
            <= b_end->0) ==> exists|n: u32|
            in_span(a_start, a_end, n) && in_span(b_start, b_end, n),
        spans_overlap(a_start, a_end, b_start, b_end) == spans_overlap(
            b_start,
            b_end,
            a_start,
            a_end,
        ),
{
    let a: u32 = if a_start is Some { a_start->0 } else { 0 };
    let b: u32 = if b_start is Some { b_start->0 } else { 0 };
    let n: u32 = if a <= b { b } else { a };
    if spans_overlap(a_start, a_end, b_start, b_end) && (a_start is Some && a_end is Some
        ==> a_start->0 <= a_end->0) && (b_start is Some && b_end is Some ==> b_start->0
        <= b_end->0) {
        assert(in_span(a_start, a_end, n) && in_span(b_start, b_end, n));
    }
}

spec fn side_by_side(facts: Seq<NovelFactView>, old: int, d: NovelMemoryDeltaView) -> bool {
    forall|i: int, j: int|
        #![trigger facts[i], facts[j]]
        0 <= i < j < facts.len() && old <= j && disagree(facts[i], facts[j]) && !names(
            d,
            facts[i].fact_id,
        ) ==> forall|n: u32| !(#[trigger] holds_in(facts[i], n) && holds_in(facts[j], n))
}

proof fn lemma_named(d: NovelMemoryDeltaView, id: Seq<char>)
    ensures
        replaced_by(d).contains(id) == names(d, id),
{
    let f = |c: StateChangeView| c.supersedes_fact_id;
    let g = |u: ForeshadowingUpdateView| u.resolves_fact_id;
    let first = d.state_changes.filter_map(f);
    let second = d.foreshadowing_updates.filter_map(g);
    lemma_filter_map_has(d.state_changes, f, id);
    lemma_filter_map_has(d.foreshadowing_updates, g, id);
    let all = replaced_by(d);
    assert(all == first + second);
    if all.contains(id) {
        let k = choose|k: int| 0 <= k < all.len() && all[k] == id;
        if k < first.len() {
            assert(first[k] == id);
        } else {
            assert(second[k - first.len()] == id);
        }
    }
    if first.contains(id) {
        let k = choose|k: int| 0 <= k < first.len() && first[k] == id;
        assert(all[k] == id);
    }
    if second.contains(id) {
        let k = choose|k: int| 0 <= k < second.len() && second[k] == id;
        assert(all[first.len() + k] == id);
    }
    if exists|k: int|
        0 <= k < d.state_changes.len() && (#[trigger] d.state_changes[k]).supersedes_fact_id
            == Some(id) {
        let k = choose|k: int|
            0 <= k < d.state_changes.len() && (#[trigger] d.state_changes[k]).supersedes_fact_id
                == Some(id);
        assert(f(d.state_changes[k]) == Some(id));
    }
    if exists|k: int|
        0 <= k < d.foreshadowing_updates.len() && (
        #[trigger] d.foreshadowing_updates[k]).resolves_fact_id == Some(id) {
        let k = choose|k: int|
            0 <= k < d.foreshadowing_updates.len() && (
            #[trigger] d.foreshadowing_updates[k]).resolves_fact_id == Some(id);
        assert(g(d.foreshadowing_updates[k]) == Some(id));
    }
}

proof fn lemma_taken_in_side_by_side(draft: Draft, x: ProposedFactView, c: Change, old: int)
    requires
        old <= draft.facts.len(),
        side_by_side(draft.facts, old, c.delta),
    ensures
        draft.facts.len() <= taken_in(draft, x, c).facts.len(),
        side_by_side(taken_in(draft, x, c).facts, old, c.delta),
{
    let branch = c.delta.branch_id;
    let again = |f: NovelFactView| says_the_same(f, x, branch);
    let against = |f: NovelFactView| contradicts(f, x, branch, replaced_by(c.delta));
    let after = taken_in(draft, x, c).facts;
    lemma_first_index(draft.facts, again);
    lemma_first_index(draft.facts, against);
    assert forall|i: int, j: int|
        #![trigger after[i], after[j]]
        0 <= i < j < after.len() && old <= j && disagree(after[i], after[j]) && !names(
            c.delta,
            after[i].fact_id,
        ) implies forall|n: u32| !(#[trigger] holds_in(after[i], n) && holds_in(after[j], n)) by {
        if j < draft.facts.len() {
            assert(draft.facts[i].fact_id == after[i].fact_id);
            assert(disagree(draft.facts[i], draft.facts[j]));
            assert forall|n: u32| !(#[trigger] holds_in(after[i], n) && holds_in(after[j], n)) by {
                assert(holds_in(after[i], n) == holds_in(draft.facts[i], n));
                assert(holds_in(after[j], n) == holds_in(draft.facts[j], n));
            }
        } else {
            let f = draft.facts[i];
            assert(after[i] == f);
            assert(!against(f));
            lemma_named(c.delta, f.fact_id);
            law_overlap_is_a_common_chapter(
                f.valid_from_chapter,
                f.valid_to_chapter,
                x.valid_from_chapter,
                x.valid_to_chapter,
            );
        }
    }
}

proof fn lemma_all_taken_in_side_by_side(
    facts: Seq<NovelFactView>,
    proposed: Seq<ProposedFactView>,
    c: Change,
)
    ensures
        facts.len() <= all_taken_in(facts, proposed, c).facts.len(),
        side_by_side(all_taken_in(facts, proposed, c).facts, facts.len() as int, c.delta),
    decreases proposed.len(),
{
    if proposed.len() > 0 {
        lemma_all_taken_in_side_by_side(facts, proposed.drop_last(), c);
        lemma_taken_in_side_by_side(
            all_taken_in(facts, proposed.drop_last(), c),
            proposed.last(),
            c,
            facts.len() as int,
        );
    }
}

proof fn lemma_all_superseded_side_by_side(
    facts: Seq<NovelFactView>,
    pairs: Seq<(Seq<char>, Option<Seq<char>>)>,
    accepted: Seq<Seq<char>>,
    now: i64,
    old: int,
    d: NovelMemoryDeltaView,
)
    requires
        side_by_side(facts, old, d),
    ensures
        side_by_side(all_superseded(facts, pairs, accepted, now).0, old, d),
    decreases pairs.len(),
{
    if pairs.len() > 0 {
        lemma_all_superseded_side_by_side(facts, pairs.drop_last(), accepted, now, old, d);
        let before = all_superseded(facts, pairs.drop_last(), accepted, now).0;
        let after = all_superseded(facts, pairs, accepted, now).0;
        if accepted.contains(pairs.last().0) && pairs.last().1 is Some {
            let id = pairs.last().1->0;
            lemma_first_index(before, |f: NovelFactView| f.fact_id == id);
            assert(after == superseded(before, Some(id), now).0);
            assert forall|i: int, j: int|
                #![trigger after[i], after[j]]
                0 <= i < j < after.len() && old <= j && disagree(after[i], after[j]) && !names(
                    d,
                    after[i].fact_id,
                ) implies forall|n: u32|
                !(#[trigger] holds_in(after[i], n) && holds_in(after[j], n)) by {
                assert(before[i] == after[i] && before[j] == after[j]);
            }
        }
    }
}

/// After a commit, two confirmed facts of one branch and subject that do not
/// say the same have no chapter in common, unless both were in the canon before
/// or the changes name one of them as replaced.
pub proof fn law_canon_says_one_thing_in_each_chapter(
    p: NovelProjectView,
    d: NovelMemoryDeltaView,
    publication: Option<Seq<char>>,
    now: i64,
    i: int,
    j: int,
    n: u32,
)
    requires
        commit_of(p, d, publication, now) is Ok,
        ({
            let facts = commit_of(p, d, publication, now)->Ok_0.0.facts;
            &&& 0 <= i < j < facts.len()
            &&& p.facts.len() <= j
            &&& disagree(facts[i], facts[j])
            &&& !names(d, facts[i].fact_id)
        }),
    ensures
        ({
            let facts = commit_of(p, d, publication, now)->Ok_0.0.facts;
            !(holds_in(facts[i], n) && holds_in(facts[j], n))
        }),
{
    let c = Change {
        project: p.project_id,
        delta: d,
        revision: (p.canon_revision + 1) as u64,
        now,
    };
    let draft = all_taken_in(p.facts, all_facts_of(d), c);
    lemma_all_taken_in_side_by_side(p.facts, all_facts_of(d), c);
    lemma_all_superseded_side_by_side(
        draft.facts,
        replacements(d),
        draft.accepted,
        now,
        p.facts.len() as int,
        d,
    );
    let facts = commit_of(p, d, publication, now)->Ok_0.0.facts;
    assert(facts == committed(p, d, publication, now).0.facts);
    let first = facts[i];
    let second = facts[j];
    assert(disagree(first, second));
    assert(!(holds_in(facts[i], n) && holds_in(facts[j], n)));
}

/// One of the changes proposes the fact `x`.
pub open spec fn proposes(d: NovelMemoryDeltaView, x: ProposedFactView) -> bool {
    ||| d.proposed_facts.contains(x)
    ||| exists|k: int| 0 <= k < d.state_changes.len() && (#[trigger] d.state_changes[k]).fact == x
    ||| exists|k: int| 0 <= k < d.plot_updates.len() && (#[trigger] d.plot_updates[k]).fact == x
    ||| exists|k: int|
        0 <= k < d.foreshadowing_updates.len() && (#[trigger] d.foreshadowing_updates[k]).fact == x
    ||| d.feedback.contains(x)
    ||| exists|k: int|
        0 <= k < d.experience_candidates.len() && (#[trigger] d.experience_candidates[k]).fact == x
}

/// The facts of a set of changes are those that the changes propose, each kind
/// of change among them, and no others.
pub proof fn law_facts_of_changes(d: NovelMemoryDeltaView, x: ProposedFactView)
    ensures
        all_facts_of(d).contains(x) == proposes(d, x),
        all_facts_of(d).len() == d.proposed_facts.len() + d.state_changes.len()
            + d.plot_updates.len() + d.foreshadowing_updates.len() + d.feedback.len()
            + d.experience_candidates.len(),
{
    let a = d.proposed_facts;
    let b = d.state_changes.map_values(|x: StateChangeView| x.fact);
    let c = d.plot_updates.map_values(|x: PlotUpdateView| x.fact);
    let e = d.foreshadowing_updates.map_values(|x: ForeshadowingUpdateView| x.fact);
    let f = d.feedback;
    let g = d.experience_candidates.map_values(|x: ExperienceCandidateView| x.fact);
    assert(all_facts_of(d) == a + b + c + e + f + g);
    lemma_has_parts(a, b, x);
    lemma_has_parts(a + b, c, x);
    lemma_has_parts(a + b + c, e, x);
    lemma_has_parts(a + b + c + e, f, x);
    lemma_has_parts(a + b + c + e + f, g, x);
    if b.contains(x) {
        let k = choose|k: int| 0 <= k < b.len() && b[k] == x;
        assert(d.state_changes[k].fact == x);
    }
    if c.contains(x) {
        let k = choose|k: int| 0 <= k < c.len() && c[k] == x;
        assert(d.plot_updates[k].fact == x);
    }
    if e.contains(x) {
        let k = choose|k: int| 0 <= k < e.len() && e[k] == x;
        assert(d.foreshadowing_updates[k].fact == x);
    }
    if g.contains(x) {
        let k = choose|k: int| 0 <= k < g.len() && g[k] == x;
        assert(d.experience_candidates[k].fact == x);
    }
    if proposes(d, x) && !a.contains(x) && !f.contains(x) {
        if exists|k: int|
            0 <= k < d.state_changes.len() && (#[trigger] d.state_changes[k]).fact == x {
            let k = choose|k: int|
                0 <= k < d.state_changes.len() && (#[trigger] d.state_changes[k]).fact == x;
            assert(b[k] == x);
        } else if exists|k: int|
            0 <= k < d.plot_updates.len() && (#[trigger] d.plot_updates[k]).fact == x {
            let k = choose|k: int|
                0 <= k < d.plot_updates.len() && (#[trigger] d.plot_updates[k]).fact == x;
            assert(c[k] == x);
        } else if exists|k: int|
            0 <= k < d.foreshadowing_updates.len() && (#[trigger] d.foreshadowing_updates[k]).fact
                == x {
            let k = choose|k: int|
                0 <= k < d.foreshadowing_updates.len() && (
                #[trigger] d.foreshadowing_updates[k]).fact == x;
            assert(e[k] == x);
        } else {
            let k = choose|k: int|
                0 <= k < d.experience_candidates.len() && (
                #[trigger] d.experience_candidates[k]).fact == x;
            assert(g[k] == x);
        }
    }
}

/// The new fact `f` says what `x` proposes, in the branch of the changes `d`.
pub open spec fn says_as_proposed(
    f: NovelFactView,
    x: ProposedFactView,
    d: NovelMemoryDeltaView,
    revision: u64,
    now: i64,
) -> bool {
    &&& f.fact_id == x.fact_id
    &&& f.kind == x.kind
    &&& f.subject_key == x.subject_key
    &&& f.title == x.title
    &&& f.summary == x.summary
    &&& f.data == x.data
    &&& f.branch_id == d.branch_id
    &&& f.valid_from_chapter == x.valid_from_chapter
    &&& f.valid_to_chapter == x.valid_to_chapter
    &&& f.created_at == now
    &&& f.updated_at == now
    &&& f.revision == revision
    &&& x.source_refs.is_prefix_of(f.source_refs)
    &&& d.source_ref.len() > 0 ==> f.source_refs.contains(d.source_ref)
    &&& is_unit(x.confidence) ==> f.confidence == x.confidence
    &&& {
        ||| f.status == x.status
        ||| f.status == CanonStatus::Superseded && names(d, f.fact_id)
        ||| f.status == CanonStatus::Confirmed && x.kind == NovelFactKind::WritingExperience
            && x.status == CanonStatus::Draft && exists|k: int|
            0 <= k < d.experience_candidates.len() && (
            #[trigger] d.experience_candidates[k]).fact.fact_id == x.fact_id
                && d.experience_candidates[k].evidence_count >= 2
    }
}

proof fn lemma_with_sources(have: Seq<Seq<char>>, more: Seq<Seq<char>>)
    ensures
        have.is_prefix_of(with_sources(have, more)),
        forall|s: Seq<char>|
            with_sources(have, more).contains(s) <==> have.contains(s) || (s.len() > 0
                && more.contains(s)),
    decreases more.len(),
{
    if more.len() > 0 {
        let rest = more.drop_last();
        let before = with_sources(have, rest);
        let r = with_sources(have, more);
        lemma_with_sources(have, rest);
        let a = more.last();
        assert forall|s: Seq<char>| r.contains(s) <==> have.contains(s) || (s.len() > 0
            && more.contains(s)) by {
            assert(more =~= rest.push(a));
            lemma_has_parts(rest, seq![a], s);
            assert(rest + seq![a] =~= more);
            assert(seq![a].contains(s) == (s == a)) by {
                assert(seq![a][0] == a);
            }
            lemma_has_parts(before, seq![a], s);
            assert(before + seq![a] =~= before.push(a));
        }
        assert(have.is_prefix_of(r));
    }
}

spec fn new_facts_say(
    facts: Seq<NovelFactView>,
    old: int,
    proposed: Seq<ProposedFactView>,
    c: Change,
) -> bool {
    forall|j: int| old <= j < facts.len() ==> is_said(#[trigger] facts[j], proposed, c)
}

spec fn is_said(f: NovelFactView, proposed: Seq<ProposedFactView>, c: Change) -> bool {
    exists|k: int|
        0 <= k < proposed.len() && says_as_proposed(
            f,
            #[trigger] proposed[k],
            c.delta,
            c.revision,
            c.now,
        )
}

proof fn lemma_taken_in_says(
    draft: Draft,
    proposed: Seq<ProposedFactView>,
    c: Change,
    old: int,
)
    requires
        proposed.len() > 0,
        0 <= old <= draft.facts.len(),
        new_facts_say(draft.facts, old, proposed.drop_last(), c),
    ensures
        old <= taken_in(draft, proposed.last(), c).facts.len(),
        new_facts_say(taken_in(draft, proposed.last(), c).facts, old, proposed, c),
{
    let x = proposed.last();
    let rest = proposed.drop_last();
    let again = |f: NovelFactView| says_the_same(f, x, c.delta.branch_id);
    lemma_first_index(draft.facts, again);
    let after = taken_in(draft, x, c).facts;
    assert forall|j: int| old <= j < after.len() implies is_said(
            #[trigger] after[j],
            proposed,
            c,
        ) by {
        if j < draft.facts.len() {
            assert(is_said(draft.facts[j], rest, c));
            let k = choose|k: int|
                0 <= k < rest.len() && says_as_proposed(
                    draft.facts[j],
                    #[trigger] rest[k],
                    c.delta,
                    c.revision,
                    c.now,
                );
            lemma_with_sources(
                draft.facts[j].source_refs,
                x.source_refs.push(c.delta.source_ref),
            );
            assert(after[j].status == draft.facts[j].status);
            assert(proposed[k] == rest[k]);
            assert(says_as_proposed(after[j], proposed[k], c.delta, c.revision, c.now));
        } else {
            lemma_with_sources(x.source_refs, seq![c.delta.source_ref]);
            assert(seq![c.delta.source_ref][0] == c.delta.source_ref);
            assert(seq![c.delta.source_ref].contains(c.delta.source_ref));
            assert(proposed[proposed.len() - 1] == x);
            assert(says_as_proposed(
                after[j],
                proposed[proposed.len() - 1],
                c.delta,
                c.revision,
                c.now,
            ));
        }
    }
}

proof fn lemma_all_taken_in_says(
    facts: Seq<NovelFactView>,
    proposed: Seq<ProposedFactView>,
    c: Change,
)
    ensures
        facts.len() <= all_taken_in(facts, proposed, c).facts.len(),
        new_facts_say(all_taken_in(facts, proposed, c).facts, facts.len() as int, proposed, c),
    decreases proposed.len(),
{
    if proposed.len() > 0 {
        lemma_all_taken_in_says(facts, proposed.drop_last(), c);
        lemma_taken_in_says(
            all_taken_in(facts, proposed.drop_last(), c),
            proposed,
            c,
            facts.len() as int,
        );
    }
}

proof fn lemma_all_superseded_says(
    facts: Seq<NovelFactView>,
    n: int,
    accepted: Seq<Seq<char>>,
    proposed: Seq<ProposedFactView>,
    c: Change,
    old: int,
)
    requires
        0 <= old,
        0 <= n <= replacements(c.delta).len(),
        new_facts_say(facts, old, proposed, c),
    ensures
        new_facts_say(
            all_superseded(facts, replacements(c.delta).take(n), accepted, c.now).0,
            old,
            proposed,
            c,
        ),
    decreases n,
{
    if n > 0 {
        let all = replacements(c.delta);
        let pairs = all.take(n);
        assert(pairs.drop_last() =~= all.take(n - 1));
        lemma_all_superseded_says(facts, n - 1, accepted, proposed, c, old);
        assert(pairs.last() == all[n - 1]);
        let before = all_superseded(facts, pairs.drop_last(), accepted, c.now).0;
        let after = all_superseded(facts, pairs, accepted, c.now).0;
        assert(new_facts_say(before, old, proposed, c));
        if accepted.contains(pairs.last().0) && pairs.last().1 is Some {
            let id = pairs.last().1->0;
            lemma_first_index(before, |f: NovelFactView| f.fact_id == id);
            assert(after == superseded(before, Some(id), c.now).0);
            assert(names(c.delta, id)) by {
                let m = c.delta.state_changes.len();
                if n - 1 < m {
                    assert(c.delta.state_changes[n - 1].supersedes_fact_id == Some(id));
                } else {
                    assert(c.delta.foreshadowing_updates[n - 1 - m].resolves_fact_id == Some(id));
                }
            }
            assert forall|j: int| old <= j < after.len() implies is_said(
            #[trigger] after[j],
            proposed,
            c,
        ) by {
                assert(is_said(before[j], proposed, c));
                let k = choose|k: int|
                    0 <= k < proposed.len() && says_as_proposed(
                        before[j],
                        #[trigger] proposed[k],
                        c.delta,
                        c.revision,
                        c.now,
                    );
                assert(says_as_proposed(after[j], proposed[k], c.delta, c.revision, c.now));
            }
            assert(new_facts_say(after, old, proposed, c));
        } else {
            assert(after == before);
            assert(new_facts_say(after, old, proposed, c));
        }
    } else {
        assert(all_superseded(facts, replacements(c.delta).take(n), accepted, c.now).0 == facts);
    }
}

/// Each fact that a commit adds says just what one of the changes proposes, in
/// their branch; it names its sources and those of the changes; and it is
/// confirmed where it was proposed so, or where it is a draft of experience
/// that two chapters or more bear out.
pub proof fn law_new_fact_says_what_was_proposed(
    p: NovelProjectView,
    d: NovelMemoryDeltaView,
    publication: Option<Seq<char>>,
    now: i64,
    j: int,
)
    requires
        p.canon_revision < u64::MAX,
        commit_of(p, d, publication, now) is Ok,
        p.facts.len() <= j < commit_of(p, d, publication, now)->Ok_0.0.facts.len(),
    ensures
        exists|x: ProposedFactView| #[trigger]
            proposes(d, x) && says_as_proposed(
                commit_of(p, d, publication, now)->Ok_0.0.facts[j],
                x,
                d,
                (p.canon_revision + 1) as u64,
                now,
            ),
{
    let c = Change {
        project: p.project_id,
        delta: d,
        revision: (p.canon_revision + 1) as u64,
        now,
    };
    let all = all_facts_of(d);
    let draft = all_taken_in(p.facts, all, c);
    let m = replacements(d).len();
    lemma_all_taken_in_says(p.facts, all, c);
    lemma_all_superseded_says(
        draft.facts,
        m as int,
        draft.accepted,
        all,
        c,
        p.facts.len() as int,
    );
    assert(replacements(d).take(m as int) =~= replacements(d));
    let facts = commit_of(p, d, publication, now)->Ok_0.0.facts;
    assert(is_said(facts[j], all, c));
    let k = choose|k: int|
        0 <= k < all.len() && says_as_proposed(
            facts[j],
            #[trigger] all[k],
            c.delta,
            c.revision,
            c.now,
        );
    law_facts_of_changes(d, all[k]);
    assert(all.contains(all[k]));
    assert(proposes(d, all[k]));
}

/// Changes are committed where, and only where, they were made against the
/// revision and the branch at hand, do not lead back to an earlier chapter, and
/// propose no two facts under one id.
pub proof fn law_commits_that_are_refused(
    p: NovelProjectView,
    d: NovelMemoryDeltaView,
    publication: Option<Seq<char>>,
    now: i64,
)
    ensures
        commit_of(p, d, publication, now) is Ok <==> {
            ||| publication is Some && p.applied_publications.contains(publication->0)
            ||| {
                &&& d.expected_revision == p.canon_revision
                &&& d.branch_id == p.active_branch
                &&& d.progress is Some && d.progress->0.current_chapter is Some
                    && p.current_chapter is Some ==> p.current_chapter->0
                    <= d.progress->0.current_chapter->0
                &&& forall|i: int, k: int|
                    0 <= i < k < all_facts_of(d).len() ==> (#[trigger] all_facts_of(d)[i]).fact_id
                        != (#[trigger] all_facts_of(d)[k]).fact_id
            }
        },
{
    lemma_repeated_id(all_facts_of(d));
}

proof fn lemma_repeated_id(facts: Seq<ProposedFactView>)
    ensures
        repeated_id(facts) is None <==> forall|i: int, k: int|
            0 <= i < k < facts.len() ==> (#[trigger] facts[i]).fact_id != (
            #[trigger] facts[k]).fact_id,
    decreases facts.len(),
{
    if facts.len() > 0 {
        let rest = facts.drop_last();
        lemma_repeated_id(rest);
        if repeated_id(facts) is None {
            assert forall|i: int, k: int| 0 <= i < k < facts.len() implies (
            #[trigger] facts[i]).fact_id != (#[trigger] facts[k]).fact_id by {
                if k < rest.len() {
                    assert(rest[i].fact_id != rest[k].fact_id);
                }
            }
        }
        if repeated_id(rest) is Some {
            let (i, k) = choose|i: int, k: int|
                0 <= i < k < rest.len() && (#[trigger] rest[i]).fact_id == (
                #[trigger] rest[k]).fact_id;
            assert(facts[i].fact_id == facts[k].fact_id);
        } else if repeated_id(facts) is Some {
            let i = choose|i: int|
                0 <= i < facts.len() - 1 && (#[trigger] facts[i]).fact_id == facts.last().fact_id;
            assert(facts[i].fact_id == facts[facts.len() - 1].fact_id);
        }
    }
}

/// A commit takes over the volume and the chapter that the changes give, keeps
/// those at hand where they give none, remembers the publication, and leaves
/// the rest of the project as it was.
pub proof fn law_commit_moves_the_project_on(
    p: NovelProjectView,
    d: NovelMemoryDeltaView,
    publication: Option<Seq<char>>,
    now: i64,
)
    requires
        commit_of(p, d, publication, now) is Ok,
        publication is Some ==> !p.applied_publications.contains(publication->0),
    ensures
        ({
            let q = commit_of(p, d, publication, now)->Ok_0.0;
            &&& q.current_chapter == match d.progress {
                Some(g) => if g.current_chapter is Some {
                    g.current_chapter
                } else {
                    p.current_chapter
                },
                None => p.current_chapter,
            }
            &&& q.current_volume == match d.progress {
                Some(g) => if g.current_volume is Some {
                    g.current_volume
                } else {
                    p.current_volume
                },
                None => p.current_volume,
            }
            &&& q.applied_publications == match publication {
                Some(id) => p.applied_publications.push(id),
                None => p.applied_publications,
            }
            &&& q == (NovelProjectView {
                facts: q.facts,
                conflicts: q.conflicts,
                current_volume: q.current_volume,
                current_chapter: q.current_chapter,
                canon_revision: q.canon_revision,
                applied_publications: q.applied_publications,
                updated_at: q.updated_at,
                ..p
            })
            &&& q.updated_at == now || q.updated_at == p.updated_at
            &&& q.canon_revision != p.canon_revision ==> q.updated_at == now
        }),
{
}

/// A proposed fact is in order where it has an id, a subject and a title that
/// are not blank, a confidence from nought to one, and does not end before it
/// begins.
pub proof fn law_facts_that_are_refused(f: ProposedFactView)
    ensures
        fact_problem(f) is None <==> {
            &&& !is_all_blank(f.fact_id)
            &&& !is_all_blank(f.subject_key)
            &&& !is_all_blank(f.title)
            &&& f.confidence <= 0x3ff0_0000_0000_0000 || f.confidence == 0x8000_0000_0000_0000
            &&& f.valid_from_chapter is Some && f.valid_to_chapter is Some
                ==> f.valid_from_chapter->0 <= f.valid_to_chapter->0
        },
{
    law_trimmed_is_the_middle(f.fact_id);
    law_trimmed_is_the_middle(f.subject_key);
    law_trimmed_is_the_middle(f.title);
}

/// Something learnt about writing is confirmed by two pieces of evidence for it,
/// and by no fewer; what else is proposed counts as what it was proposed as.
pub proof fn law_evidence_confirms(
    candidates: Seq<ExperienceCandidateView>,
    f: ProposedFactView,
    i: int,
)
    requires
        0 <= i < candidates.len(),
    ensures
        f.kind == NovelFactKind::WritingExperience && f.status == CanonStatus::Draft
            && candidates[i].fact.fact_id == f.fact_id && candidates[i].evidence_count > 1
            ==> promoted_status(candidates, f) == CanonStatus::Confirmed,
        (forall|k: int|
            0 <= k < candidates.len() && (#[trigger] candidates[k]).fact.fact_id == f.fact_id
                ==> candidates[k].evidence_count < 2) ==> promoted_status(candidates, f) == f.status,
        f.kind != NovelFactKind::WritingExperience ==> promoted_status(candidates, f) == f.status,
        f.status != CanonStatus::Draft ==> promoted_status(candidates, f) == f.status,
{
}

} // verus!
