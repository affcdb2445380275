//! What holds of every commit.

use crate::memory::novel::canon::{
    all_superseded, all_taken_in, applied_report, chapter_after, commit_of, committed, has_fact,
    has_room, is_applied, lemma_no_repeated_id, reinforced, reinforced_by, repeated_id, replaced_by,
    replacements, says_the_same, superseded, taken_in, volume_after, Change, Draft,
};
use crate::memory::novel::schema::{
    all_facts_of, CanonStatus, ConflictRecordView, ForeshadowingUpdateView, NovelFactView, NovelMemoryDeltaView,
    NovelProjectView, ProposedFactView, StateChangeView,
};
use crate::seqs::{lemma_filter_map_contains, lemma_first_index};
use vstd::prelude::*;

verus! {

/// Two states of one fact: it may be surer, better sourced or replaced, and
/// says the same of the same.
pub open spec fn same_fact(a: NovelFactView, b: NovelFactView) -> bool {
    b == NovelFactView {
        status: b.status,
        source_refs: b.source_refs,
        reinforcements: b.reinforcements,
        revision: b.revision,
        updated_at: b.updated_at,
        ..a
    }
}

/// The facts `a` are still there in `b`, and only those among `replaced` may
/// have been replaced.
pub open spec fn kept(
    a: Seq<NovelFactView>,
    b: Seq<NovelFactView>,
    replaced: Seq<Seq<char>>,
) -> bool {
    &&& a.len() <= b.len()
    &&& forall|i: int|
        0 <= i < a.len() ==> {
            &&& same_fact(a[i], #[trigger] b[i])
            &&& b[i].status == a[i].status || (b[i].status == CanonStatus::Superseded
                && replaced.contains(a[i].fact_id))
        }
}

/// No two facts have one id.
pub open spec fn distinct_ids(facts: Seq<NovelFactView>) -> bool {
    forall|i: int, j: int|
        0 <= i < j < facts.len() ==> (#[trigger] facts[i]).fact_id != (#[trigger] facts[j]).fact_id
}

proof fn lemma_replacements(d: NovelMemoryDeltaView, i: int)
    requires
        0 <= i < replacements(d).len(),
        replacements(d)[i].1 is Some,
    ensures
        replaced_by(d).contains(replacements(d)[i].1->0),
{
    let f = |c: StateChangeView| c.supersedes_fact_id;
    let g = |u: ForeshadowingUpdateView| u.resolves_fact_id;
    let first = d.state_changes.filter_map(f);
    let second = d.foreshadowing_updates.filter_map(g);
    let n = d.state_changes.len();
    let id = replacements(d)[i].1->0;
    if i < n {
        lemma_filter_map_contains(d.state_changes, f, i);
        let k = choose|k: int| 0 <= k < first.len() && first[k] == id;
        assert((first + second)[k] == id);
    } else {
        lemma_filter_map_contains(d.foreshadowing_updates, g, i - n);
        let k = choose|k: int| 0 <= k < second.len() && second[k] == id;
        assert((first + second)[first.len() + k] == id);
    }
}

proof fn lemma_taken_in(draft: Draft, x: ProposedFactView, c: Change)
    ensures
        kept(draft.facts, taken_in(draft, x, c).facts, Seq::empty()),
        distinct_ids(draft.facts) ==> distinct_ids(taken_in(draft, x, c).facts),
        taken_in(draft, x, c).accepted.len() == draft.accepted.len() ==> taken_in(
            draft,
            x,
            c,
        ).facts == draft.facts,
        taken_in(draft, x, c).accepted.len() >= draft.accepted.len(),
{
    let p = |f: NovelFactView| says_the_same(f, x, c.delta.branch_id);
    lemma_first_index(draft.facts, p);
    let after = taken_in(draft, x, c).facts;
    assert forall|i: int| 0 <= i < draft.facts.len() implies same_fact(
        draft.facts[i],
        #[trigger] after[i],
    ) && after[i].status == draft.facts[i].status by {
        let again = reinforced_by(draft.facts, x, c.delta.branch_id);
        if !has_fact(draft.facts, x.fact_id) && again == Some(i) {
            assert(after[i] == reinforced(
                draft.facts[i],
                x,
                c.delta.source_ref,
                c.revision,
                c.now,
            ));
        } else {
            assert(after[i] == draft.facts[i]);
        }
    }
    if distinct_ids(draft.facts) {
        assert forall|i: int, j: int| 0 <= i < j < after.len() implies (
        #[trigger] after[i]).fact_id != (#[trigger] after[j]).fact_id by {
            if j < draft.facts.len() {
                assert(same_fact(draft.facts[i], after[i]));
                assert(same_fact(draft.facts[j], after[j]));
                assert(draft.facts[i].fact_id != draft.facts[j].fact_id);
            } else {
                assert(after[j].fact_id == x.fact_id);
                assert(after[i] == draft.facts[i]);
            }
        }
    }
}

proof fn lemma_kept_trans(
    a: Seq<NovelFactView>,
    b: Seq<NovelFactView>,
    c: Seq<NovelFactView>,
    replaced: Seq<Seq<char>>,
)
    requires
        kept(a, b, replaced),
        kept(b, c, replaced),
    ensures
        kept(a, c, replaced),
{
    assert forall|i: int| 0 <= i < a.len() implies {
        &&& same_fact(a[i], #[trigger] c[i])
        &&& c[i].status == a[i].status || (c[i].status == CanonStatus::Superseded
            && replaced.contains(a[i].fact_id))
    } by {
        assert(same_fact(a[i], b[i]));
        assert(same_fact(b[i], c[i]));
    }
}

proof fn lemma_all_taken_in(
    facts: Seq<NovelFactView>,
    proposed: Seq<ProposedFactView>,
    c: Change,
)
    ensures
        kept(facts, all_taken_in(facts, proposed, c).facts, Seq::empty()),
        distinct_ids(facts) ==> distinct_ids(all_taken_in(facts, proposed, c).facts),
        all_taken_in(facts, proposed, c).accepted.len() == 0 ==> all_taken_in(
            facts,
            proposed,
            c,
        ).facts == facts,
    decreases proposed.len(),
{
    if proposed.len() > 0 {
        let before = all_taken_in(facts, proposed.drop_last(), c);
        lemma_all_taken_in(facts, proposed.drop_last(), c);
        lemma_taken_in(before, proposed.last(), c);
        lemma_kept_trans(
            facts,
            before.facts,
            taken_in(before, proposed.last(), c).facts,
            Seq::empty(),
        );
    }
}

proof fn lemma_superseded(
    facts: Seq<NovelFactView>,
    id: Option<Seq<char>>,
    now: i64,
    replaced: Seq<Seq<char>>,
)
    requires
        id is Some ==> replaced.contains(id->0),
    ensures
        kept(facts, superseded(facts, id, now).0, replaced),
        distinct_ids(facts) ==> distinct_ids(superseded(facts, id, now).0),
        !superseded(facts, id, now).1 ==> superseded(facts, id, now).0 == facts,
        superseded(facts, id, now).0.len() == facts.len(),
{
    if id is Some {
        let p = |f: NovelFactView| f.fact_id == id->0;
        lemma_first_index(facts, p);
        let after = superseded(facts, id, now).0;
        assert forall|i: int| 0 <= i < facts.len() implies {
            &&& same_fact(facts[i], #[trigger] after[i])
            &&& after[i].status == facts[i].status || (after[i].status == CanonStatus::Superseded
                && replaced.contains(facts[i].fact_id))
        } by {}
        if distinct_ids(facts) {
            assert forall|i: int, j: int| 0 <= i < j < after.len() implies (
            #[trigger] after[i]).fact_id != (#[trigger] after[j]).fact_id by {
                assert(same_fact(facts[i], after[i]));
                assert(same_fact(facts[j], after[j]));
                assert(facts[i].fact_id != facts[j].fact_id);
            }
        }
    }
}

proof fn lemma_all_superseded(
    facts: Seq<NovelFactView>,
    pairs: Seq<(Seq<char>, Option<Seq<char>>)>,
    accepted: Seq<Seq<char>>,
    now: i64,
    replaced: Seq<Seq<char>>,
)
    requires
        forall|i: int|
            0 <= i < pairs.len() && (#[trigger] pairs[i]).1 is Some ==> replaced.contains(
                pairs[i].1->0,
            ),
    ensures
        kept(facts, all_superseded(facts, pairs, accepted, now).0, replaced),
        distinct_ids(facts) ==> distinct_ids(all_superseded(facts, pairs, accepted, now).0),
        !all_superseded(facts, pairs, accepted, now).1 ==> all_superseded(
            facts,
            pairs,
            accepted,
            now,
        ).0 == facts,
        all_superseded(facts, pairs, accepted, now).0.len() == facts.len(),
        accepted.len() == 0 ==> !all_superseded(facts, pairs, accepted, now).1,
    decreases pairs.len(),
{
    if pairs.len() > 0 {
        let rest = pairs.drop_last();
        assert forall|i: int| 0 <= i < rest.len() && (#[trigger] rest[i]).1 is Some implies
            replaced.contains(rest[i].1->0) by {
            assert(rest[i] == pairs[i]);
        }
        assert(pairs[pairs.len() - 1].1 is Some ==> replaced.contains(pairs.last().1->0));
        let before = all_superseded(facts, rest, accepted, now);
        lemma_all_superseded(facts, rest, accepted, now, replaced);
        lemma_superseded(before.0, pairs.last().1, now, replaced);
        lemma_kept_trans(facts, before.0, superseded(before.0, pairs.last().1, now).0, replaced);
    }
}

proof fn lemma_committed(
    p: NovelProjectView,
    d: NovelMemoryDeltaView,
    publication: Option<Seq<char>>,
    now: i64,
)
    ensures
        kept(p.facts, committed(p, d, publication, now).0.facts, replaced_by(d)),
        distinct_ids(p.facts) ==> distinct_ids(committed(p, d, publication, now).0.facts),
        committed(p, d, publication, now).0.canon_revision == p.canon_revision && p.canon_revision
            < u64::MAX ==> committed(p, d, publication, now).0.facts == p.facts,
{
    let c = Change {
        project: p.project_id,
        delta: d,
        revision: (p.canon_revision + 1) as u64,
        now,
    };
    let draft = all_taken_in(p.facts, all_facts_of(d), c);
    lemma_all_taken_in(p.facts, all_facts_of(d), c);
    assert forall|i: int| 0 <= i < replacements(d).len() && (#[trigger] replacements(d)[i]).1
        is Some implies replaced_by(d).contains(replacements(d)[i].1->0) by {
        lemma_replacements(d, i);
    }
    lemma_all_superseded(draft.facts, replacements(d), draft.accepted, now, replaced_by(d));
    let after = all_superseded(draft.facts, replacements(d), draft.accepted, now);
    assert forall|i: int| 0 <= i < p.facts.len() implies same_fact(
        p.facts[i],
        #[trigger] draft.facts[i],
    ) && draft.facts[i].status == p.facts[i].status by {
        assert(!Seq::<Seq<char>>::empty().contains(p.facts[i].fact_id));
    }
    lemma_kept_trans(p.facts, draft.facts, after.0, replaced_by(d));
}

/// A commit overwrites nothing of the canon: each fact is still there and says
/// the same of the same, and only a fact that the changes replace by name may
/// have been replaced.
pub proof fn law_canon_is_kept(
    p: NovelProjectView,
    d: NovelMemoryDeltaView,
    publication: Option<Seq<char>>,
    now: i64,
)
    requires
        commit_of(p, d, publication, now) is Ok,
    ensures
        kept(p.facts, commit_of(p, d, publication, now)->Ok_0.0.facts, replaced_by(d)),
{
    lemma_committed(p, d, publication, now);
}

/// A commit leaves no two facts with one id where there were none.
pub proof fn law_fact_ids_stay_distinct(
    p: NovelProjectView,
    d: NovelMemoryDeltaView,
    publication: Option<Seq<char>>,
    now: i64,
)
    requires
        commit_of(p, d, publication, now) is Ok,
        distinct_ids(p.facts),
    ensures
        distinct_ids(commit_of(p, d, publication, now)->Ok_0.0.facts),
{
    lemma_committed(p, d, publication, now);
}

/// The revision of a project grows by at most one with a commit, and where it
/// does not, the facts, the volume and the chapter are as they were.
pub proof fn law_revision_counts_changes(
    p: NovelProjectView,
    d: NovelMemoryDeltaView,
    publication: Option<Seq<char>>,
    now: i64,
)
    requires
        has_room(p, d, publication),
        commit_of(p, d, publication, now) is Ok,
    ensures
        ({
            let after = commit_of(p, d, publication, now)->Ok_0.0;
            ||| after.canon_revision == p.canon_revision + 1
            ||| after.canon_revision == p.canon_revision && after.facts == p.facts
                && after.current_volume == p.current_volume && after.current_chapter
                == p.current_chapter
        }),
{
    lemma_committed(p, d, publication, now);
}

/// The changes of a publication are committed once: with its id again, any
/// changes leave the project as it is, and the report says so. For that there
/// is always room, and the id is not noted twice.
pub proof fn law_publication_is_committed_once(
    p: NovelProjectView,
    d: NovelMemoryDeltaView,
    again: NovelMemoryDeltaView,
    publication: Seq<char>,
    now: i64,
    later: i64,
)
    requires
        commit_of(p, d, Some(publication), now) is Ok,
    ensures
        ({
            let after = commit_of(p, d, Some(publication), now)->Ok_0.0;
            commit_of(after, again, Some(publication), later) == Ok::<_, crate::memory::error::MemoryErrorView>(
                (after, applied_report(after)),
            ) && has_room(after, again, Some(publication))
        }),
        p.applied_publications.no_duplicates() ==> commit_of(
            p,
            d,
            Some(publication),
            now,
        )->Ok_0.0.applied_publications.no_duplicates(),
{
    let after = commit_of(p, d, Some(publication), now)->Ok_0.0;
    if !p.applied_publications.contains(publication) {
        let n = p.applied_publications.len();
        assert(after.applied_publications[n as int] == publication);
    }
    assert(after.applied_publications.contains(publication));
}

/// A fact with this id is in a record of a conflict.
pub open spec fn in_conflict(conflicts: Seq<ConflictRecordView>, id: Seq<char>) -> bool {
    exists|k: int| 0 <= k < conflicts.len() && (#[trigger] conflicts[k]).proposed_fact_id == id
}

/// One of the facts has this id.
pub open spec fn is_proposed(facts: Seq<ProposedFactView>, id: Seq<char>) -> bool {
    exists|k: int| 0 <= k < facts.len() && (#[trigger] facts[k]).fact_id == id
}

/// Each proposed fact is either accepted or in a record of a conflict, never
/// both, and nothing else is: of a commit that is not a publication made again,
/// the two lists part the ids of the facts between them.
pub proof fn law_each_fact_is_accepted_or_in_conflict(
    p: NovelProjectView,
    d: NovelMemoryDeltaView,
    publication: Option<Seq<char>>,
    now: i64,
)
    requires
        commit_of(p, d, publication, now) is Ok,
        publication is Some ==> !p.applied_publications.contains(publication->0),
    ensures
        ({
            let report = commit_of(p, d, publication, now)->Ok_0.1;
            &&& forall|i: int|
                0 <= i < all_facts_of(d).len() ==> report.accepted_fact_ids.contains(
                    (#[trigger] all_facts_of(d)[i]).fact_id,
                ) != in_conflict(report.conflicts, all_facts_of(d)[i].fact_id)
            &&& forall|id: Seq<char>| #[trigger]
                report.accepted_fact_ids.contains(id) ==> is_proposed(all_facts_of(d), id)
            &&& forall|id: Seq<char>| #[trigger]
                in_conflict(report.conflicts, id) ==> is_proposed(all_facts_of(d), id)
            &&& report.accepted_fact_ids.len() + report.conflicts.len() == all_facts_of(d).len()
        }),
{
    let c = Change {
        project: p.project_id,
        delta: d,
        revision: (p.canon_revision + 1) as u64,
        now,
    };
    lemma_parted(p.facts, all_facts_of(d), c);
}

/// The facts from `n` on were accepted.
spec fn accepted_from(draft: Draft, n: int) -> bool {
    forall|i: int|
        n <= i < draft.facts.len() ==> draft.accepted.contains(
            (#[trigger] draft.facts[i]).fact_id,
        )
}

proof fn lemma_added_one(draft: Draft, x: ProposedFactView, c: Change, n: int)
    requires
        0 <= n <= draft.facts.len(),
        accepted_from(draft, n),
    ensures
        accepted_from(taken_in(draft, x, c), n),
        taken_in(draft, x, c).facts.len() >= draft.facts.len(),
{
    let t = taken_in(draft, x, c);
    lemma_taken_in(draft, x, c);
    lemma_first_index(
        draft.facts,
        |f: NovelFactView| says_the_same(f, x, c.delta.branch_id),
    );
    if t.accepted != draft.accepted {
        assert(t.accepted == draft.accepted.push(x.fact_id));
        assert(t.accepted[draft.accepted.len() as int] == x.fact_id);
    }
    assert forall|i: int| n <= i < t.facts.len() implies t.accepted.contains(
        (#[trigger] t.facts[i]).fact_id,
    ) by {
        if i < draft.facts.len() {
            let id = draft.facts[i].fact_id;
            assert(same_fact(draft.facts[i], t.facts[i]));
            assert(draft.accepted.contains(id));
            let k = choose|k: int| 0 <= k < draft.accepted.len() && draft.accepted[k] == id;
            assert(t.accepted[k] == id);
        } else {
            assert(t.accepted == draft.accepted.push(x.fact_id));
            assert(t.facts[i].fact_id == x.fact_id);
        }
    }
}

proof fn lemma_added(facts: Seq<NovelFactView>, proposed: Seq<ProposedFactView>, c: Change)
    ensures
        all_taken_in(facts, proposed, c).facts.len() >= facts.len(),
        accepted_from(all_taken_in(facts, proposed, c), facts.len() as int),
    decreases proposed.len(),
{
    if proposed.len() > 0 {
        lemma_added(facts, proposed.drop_last(), c);
        lemma_added_one(
            all_taken_in(facts, proposed.drop_last(), c),
            proposed.last(),
            c,
            facts.len() as int,
        );
    }
}

/// The report on a commit that is not a publication made again. The changes
/// were made for the revision that the project had; each fact is accepted or in
/// a record of a conflict; a fact in conflict is not added to the canon, and
/// every fact that is added was accepted; the revision grows by one exactly if
/// a fact was accepted or the progress brings another volume or chapter.
pub proof fn law_commit_is_reported(
    p: NovelProjectView,
    d: NovelMemoryDeltaView,
    publication: Option<Seq<char>>,
    now: i64,
)
    requires
        has_room(p, d, publication),
        commit_of(p, d, publication, now) is Ok,
        !is_applied(p, publication),
    ensures
        ({
            let (after, report) = commit_of(p, d, publication, now)->Ok_0;
            &&& report.previous_revision == p.canon_revision == d.expected_revision
            &&& report.new_revision == after.canon_revision
            &&& report.new_revision == p.canon_revision + (if report.accepted_fact_ids.len() > 0
                || volume_after(p.current_volume, d.progress) != p.current_volume || chapter_after(
                p.current_chapter,
                d.progress,
            ) != p.current_chapter {
                1int
            } else {
                0int
            })
            &&& forall|i: int|
                0 <= i < all_facts_of(d).len() ==> report.accepted_fact_ids.contains(
                    (#[trigger] all_facts_of(d)[i]).fact_id,
                ) != in_conflict(report.conflicts, all_facts_of(d)[i].fact_id)
            &&& after.facts.len() >= p.facts.len()
            &&& forall|i: int|
                p.facts.len() <= i < after.facts.len() ==> report.accepted_fact_ids.contains(
                    (#[trigger] after.facts[i]).fact_id,
                ) && !in_conflict(report.conflicts, after.facts[i].fact_id)
            &&& after.conflicts == p.conflicts + report.conflicts
        }),
{
    let (after, report) = commit_of(p, d, publication, now)->Ok_0;
    let c = Change {
        project: p.project_id,
        delta: d,
        revision: (p.canon_revision + 1) as u64,
        now,
    };
    let draft = all_taken_in(p.facts, all_facts_of(d), c);
    law_each_fact_is_accepted_or_in_conflict(p, d, publication, now);
    lemma_added(p.facts, all_facts_of(d), c);
    assert forall|i: int| 0 <= i < replacements(d).len() && (#[trigger] replacements(d)[i]).1
        is Some implies replaced_by(d).contains(replacements(d)[i].1->0) by {
        lemma_replacements(d, i);
    }
    lemma_all_superseded(draft.facts, replacements(d), draft.accepted, now, replaced_by(d));
    assert forall|i: int| p.facts.len() <= i < after.facts.len() implies
        report.accepted_fact_ids.contains((#[trigger] after.facts[i]).fact_id) && !in_conflict(
        report.conflicts,
        after.facts[i].fact_id,
    ) by {
        assert(same_fact(draft.facts[i], after.facts[i]));
        let id = draft.facts[i].fact_id;
        assert(draft.accepted.contains(id));
        let k = choose|k: int|
            0 <= k < all_facts_of(d).len() && (#[trigger] all_facts_of(d)[k]).fact_id == id;
        assert(is_proposed(all_facts_of(d), id));
        assert(all_facts_of(d)[k].fact_id == id);
    }
}

proof fn lemma_parted(facts: Seq<NovelFactView>, proposed: Seq<ProposedFactView>, c: Change)
    requires
        repeated_id(proposed) is None,
    ensures
        ({
            let t = all_taken_in(facts, proposed, c);
            &&& t.accepted.len() + t.conflicts.len() == proposed.len()
            &&& forall|id: Seq<char>| #[trigger]
                t.accepted.contains(id) ==> is_proposed(proposed, id)
            &&& forall|id: Seq<char>| #[trigger]
                in_conflict(t.conflicts, id) ==> is_proposed(proposed, id)
            &&& forall|i: int|
                0 <= i < proposed.len() ==> t.accepted.contains((#[trigger] proposed[i]).fact_id)
                    != in_conflict(t.conflicts, proposed[i].fact_id)
        }),
    decreases proposed.len(),
{
    if proposed.len() > 0 {
        let rest = proposed.drop_last();
        let x = proposed.last();
        let before = all_taken_in(facts, rest, c);
        let t = taken_in(before, x, c);
        lemma_parted(facts, rest, c);
        lemma_no_repeated_id(proposed);
        assert(!is_proposed(rest, x.fact_id)) by {
            if is_proposed(rest, x.fact_id) {
                let k = choose|k: int|
                    0 <= k < rest.len() && (#[trigger] rest[k]).fact_id == x.fact_id;
                assert(proposed[k].fact_id != proposed[proposed.len() - 1].fact_id);
            }
        }
        assert(!before.accepted.contains(x.fact_id));
        assert(!in_conflict(before.conflicts, x.fact_id));
        let accepts = t.accepted.len() > before.accepted.len();
        assert(accepts ==> t.accepted == before.accepted.push(x.fact_id) && t.conflicts
            == before.conflicts);
        assert(!accepts ==> t.accepted == before.accepted && t.conflicts.len()
            == before.conflicts.len() + 1 && t.conflicts.drop_last() =~= before.conflicts
            && t.conflicts.last().proposed_fact_id == x.fact_id);
        assert forall|id: Seq<char>| #[trigger] t.accepted.contains(id) == (
        before.accepted.contains(id) || (accepts && id == x.fact_id)) by {
            if accepts {
                assert(t.accepted[before.accepted.len() as int] == x.fact_id);
                if before.accepted.contains(id) {
                    let k = choose|k: int|
                        0 <= k < before.accepted.len() && before.accepted[k] == id;
                    assert(t.accepted[k] == id);
                }
            }
        }
        assert forall|id: Seq<char>| #[trigger] in_conflict(t.conflicts, id) == (in_conflict(
            before.conflicts,
            id,
        ) || (!accepts && id == x.fact_id)) by {
            if !accepts {
                let n = before.conflicts.len() as int;
                assert(t.conflicts[n].proposed_fact_id == x.fact_id);
                if in_conflict(before.conflicts, id) {
                    let k = choose|k: int|
                        0 <= k < n && (#[trigger] before.conflicts[k]).proposed_fact_id == id;
                    assert(t.conflicts[k] == before.conflicts[k]);
                }
                if in_conflict(t.conflicts, id) && id != x.fact_id {
                    let k = choose|k: int|
                        0 <= k < t.conflicts.len() && (
                        #[trigger] t.conflicts[k]).proposed_fact_id == id;
                    assert(t.conflicts[k] == before.conflicts[k]);
                }
            }
        }
        assert forall|id: Seq<char>| #[trigger] is_proposed(rest, id) implies is_proposed(
            proposed,
            id,
        ) by {
            let k = choose|k: int| 0 <= k < rest.len() && (#[trigger] rest[k]).fact_id == id;
            assert(proposed[k] == rest[k]);
        }
        assert(is_proposed(proposed, x.fact_id)) by {
            assert(proposed[proposed.len() - 1].fact_id == x.fact_id);
        }
        assert forall|i: int| 0 <= i < proposed.len() implies t.accepted.contains(
            (#[trigger] proposed[i]).fact_id,
        ) != in_conflict(t.conflicts, proposed[i].fact_id) by {
            if i < rest.len() {
                assert(rest[i] == proposed[i]);
                assert(proposed[i].fact_id != proposed[proposed.len() - 1].fact_id);
            }
        }
    }
}

} // verus!
