//! What holds of the store of memories of any kind.

use crate::json::{JsonView, text_of_json};
use crate::keyed::{keyed_index, keyed_inserted, lemma_inserted_items, with_key};
use crate::memory::generic::{
    GenericMemoryStoreView, KnowledgeEntryView, KnowledgeErrorView, MemoryProposalView,
    MemoryQueryResultView, MemoryQueryView, MemoryStatus, OutboxEventView, ScopeRefView,
    StoredEntry, StoredEntryView, acknowledged, active_of, answers, found_in, is_answer, pending_in,
    proposal_problem, proposed_index, query_problem, scope_inserted, scope_less, scopes_in_order,
    submitted, superseded_in, terms_of,
};
use crate::memory::rows::row_of;
use crate::order::text_less;
use crate::seqs::{
    comes_before, lemma_filter_from, lemma_filter_has, lemma_first_index, lemma_order_covers,
    reordered, stably_ordered,
};
use crate::text::{has_text, lowercase_of, trimmed};
use crate::walk::some_is;
use vstd::prelude::*;

verus! {

/// A memory passes a query: its namespace and its type are among those asked
/// for, where any are asked for; one of its scopes is among those that may see;
/// and one of the terms stands in its summary, where there is a term that is
/// not blank.
pub open spec fn passes(e: KnowledgeEntryView, q: MemoryQueryView) -> bool {
    &&& q.namespaces.len() > 0 ==> exists|k: int|
        0 <= k < q.namespaces.len() && #[trigger] q.namespaces[k] == e.namespace
    &&& q.memory_types.len() > 0 ==> exists|k: int|
        0 <= k < q.memory_types.len() && #[trigger] q.memory_types[k] == e.memory_type
    &&& exists|i: int, k: int|
        0 <= i < e.visibility_scopes.len() && 0 <= k < q.authorized_scopes.len()
            && #[trigger] e.visibility_scopes[i] == #[trigger] q.authorized_scopes[k]
    &&& (exists|k: int|
        0 <= k < q.terms.len() && lowercase_of(trimmed(#[trigger] q.terms[k])).len() > 0)
        ==> exists|k: int|
        0 <= k < q.terms.len() && lowercase_of(trimmed(#[trigger] q.terms[k])).len() > 0
            && has_text(lowercase_of(e.summary), lowercase_of(trimmed(q.terms[k])))
}

proof fn lemma_passes(e: KnowledgeEntryView, q: MemoryQueryView)
    ensures
        answers(e, q) == passes(e, q),
{
    let low = q.terms.map_values(|t: Seq<char>| lowercase_of(trimmed(t)));
    let terms = terms_of(q.terms);
    let full = |t: Seq<char>| t.len() > 0;
    assert forall|t: Seq<char>| #[trigger] terms.contains(t) <==> (t.len() > 0 && exists|k: int|
        0 <= k < q.terms.len() && lowercase_of(trimmed(#[trigger] q.terms[k])) == t) by {
        lemma_filter_has(low, full, t);
        if low.contains(t) {
            let k = choose|k: int| 0 <= k < low.len() && low[k] == t;
            assert(lowercase_of(trimmed(q.terms[k])) == t);
        }
        if exists|k: int|
            0 <= k < q.terms.len() && lowercase_of(trimmed(#[trigger] q.terms[k])) == t {
            let k = choose|k: int|
                0 <= k < q.terms.len() && lowercase_of(trimmed(#[trigger] q.terms[k])) == t;
            assert(low[k] == t);
        }
    }
    let sees = |s: ScopeRefView| q.authorized_scopes.contains(s);
    if some_is(e.visibility_scopes, sees) {
        let i = choose|i: int| 0 <= i < e.visibility_scopes.len() && sees(
            #[trigger] e.visibility_scopes[i],
        );
        let k = choose|k: int|
            0 <= k < q.authorized_scopes.len() && q.authorized_scopes[k] == e.visibility_scopes[i];
        assert(e.visibility_scopes[i] == q.authorized_scopes[k]);
    }
    if exists|i: int, k: int|
        0 <= i < e.visibility_scopes.len() && 0 <= k < q.authorized_scopes.len()
            && #[trigger] e.visibility_scopes[i] == #[trigger] q.authorized_scopes[k] {
        let (i, k) = choose|i: int, k: int|
            0 <= i < e.visibility_scopes.len() && 0 <= k < q.authorized_scopes.len()
                && #[trigger] e.visibility_scopes[i] == #[trigger] q.authorized_scopes[k];
        assert(sees(e.visibility_scopes[i]));
    }
    let hit = |t: Seq<char>| has_text(lowercase_of(e.summary), t);
    if terms.len() > 0 {
        assert(terms.contains(terms[0]));
        let k = choose|k: int|
            0 <= k < q.terms.len() && lowercase_of(trimmed(#[trigger] q.terms[k])) == terms[0];
        assert(lowercase_of(trimmed(q.terms[k])).len() > 0);
        if some_is(terms, hit) {
            let i = choose|i: int| 0 <= i < terms.len() && hit(#[trigger] terms[i]);
            assert(terms.contains(terms[i]));
        }
    }
    if exists|k: int|
        0 <= k < q.terms.len() && lowercase_of(trimmed(#[trigger] q.terms[k])).len() > 0 {
        let k = choose|k: int|
            0 <= k < q.terms.len() && lowercase_of(trimmed(#[trigger] q.terms[k])).len() > 0;
        assert(terms.contains(lowercase_of(trimmed(q.terms[k]))));
        assert(terms.len() > 0);
    }
    if exists|k: int|
        0 <= k < q.terms.len() && lowercase_of(trimmed(#[trigger] q.terms[k])).len() > 0
            && has_text(lowercase_of(e.summary), lowercase_of(trimmed(q.terms[k]))) {
        let k = choose|k: int|
            0 <= k < q.terms.len() && lowercase_of(trimmed(#[trigger] q.terms[k])).len() > 0
                && has_text(lowercase_of(e.summary), lowercase_of(trimmed(q.terms[k])));
        let t = lowercase_of(trimmed(q.terms[k]));
        assert(terms.contains(t));
        let i = choose|i: int| 0 <= i < terms.len() && terms[i] == t;
        assert(hit(terms[i]));
    }
    if q.namespaces.len() > 0 && q.namespaces.contains(e.namespace) {
        let k = choose|k: int| 0 <= k < q.namespaces.len() && q.namespaces[k] == e.namespace;
        assert(q.namespaces[k] == e.namespace);
    }
    if q.memory_types.len() > 0 && q.memory_types.contains(e.memory_type) {
        let k = choose|k: int|
            0 <= k < q.memory_types.len() && q.memory_types[k] == e.memory_type;
        assert(q.memory_types[k] == e.memory_type);
    }
}

/// `e` is held as an active memory of the tenant that asks.
pub open spec fn is_held(
    s: Seq<StoredEntryView>,
    q: MemoryQueryView,
    e: KnowledgeEntryView,
) -> bool {
    exists|k: int|
        0 <= k < s.len() && (#[trigger] s[k]).entry == e && e.owner_scope.tenant_id == q.tenant_id
            && e.status == MemoryStatus::Active
}

/// `e` changed no earlier than `f`.
pub open spec fn changed_later(
    s: Seq<StoredEntryView>,
    e: KnowledgeEntryView,
    f: KnowledgeEntryView,
) -> bool {
    exists|a: int, b: int|
        0 <= a < s.len() && 0 <= b < s.len() && (#[trigger] s[a]).entry == e && (
        #[trigger] s[b]).entry == f && s[a].updated_at >= s[b].updated_at
}

/// A query gives just what passes it: each memory that it gives is an active one
/// of the tenant that passes, and each such memory is given as long as the limit
/// has room. Where something was left out, the answer says so and is full. What
/// changed later comes first.
pub proof fn law_query_gives_what_passes(
    s: Seq<StoredEntryView>,
    q: MemoryQueryView,
    r: MemoryQueryResultView,
)
    requires
        is_answer(s, q, r),
        s.len() <= usize::MAX,
    ensures
        r.entries.len() <= q.limit,
        r.truncated ==> r.entries.len() == q.limit,
        forall|i: int|
            0 <= i < r.entries.len() ==> passes(#[trigger] r.entries[i], q) && is_held(
                s,
                q,
                r.entries[i],
            ),
        forall|k: int|
            0 <= k < s.len() && (#[trigger] s[k]).entry.owner_scope.tenant_id == q.tenant_id
                && s[k].entry.status == MemoryStatus::Active && passes(s[k].entry, q) ==> r.truncated
                || r.entries.contains(s[k].entry),
        r.scanned == s.filter(
            |x: StoredEntryView|
                x.entry.owner_scope.tenant_id == q.tenant_id && x.entry.status
                    == MemoryStatus::Active,
        ).len(),
        forall|i: int, j: int|
            0 <= i < j < r.entries.len() ==> changed_later(
                s,
                #[trigger] r.entries[i],
                #[trigger] r.entries[j],
            ),
{
    let active = active_of(s, q.tenant_id);
    let keys = active.map_values(|x: StoredEntryView| x.updated_at);
    let order = choose|order: Seq<usize>|
        #![trigger reordered(active, order)]
        stably_ordered(active.map_values(|x: StoredEntryView| x.updated_at), true, order) && r
            == found_in(active, order, q);
    let entries = reordered(active, order).map_values(|x: StoredEntryView| x.entry);
    let p = |e: KnowledgeEntryView| answers(e, q);
    let a = |x: StoredEntryView|
        x.entry.owner_scope.tenant_id == q.tenant_id && x.entry.status == MemoryStatus::Active;
    let hits = entries.filter(p);
    lemma_filter_len(s, a);
    assert forall|i: int| 0 <= i < r.entries.len() implies passes(#[trigger] r.entries[i], q)
        && is_held(s, q, r.entries[i]) by {
        let e = r.entries[i];
        assert(e == hits[i]);
        let k = lemma_filter_from(entries, p, i);
        lemma_passes(e, q);
        let j = lemma_filter_from(s, a, order[k] as int);
        assert(s[j].entry == e);
    }
    assert forall|k: int|
        0 <= k < s.len() && (#[trigger] s[k]).entry.owner_scope.tenant_id == q.tenant_id
            && s[k].entry.status == MemoryStatus::Active && passes(s[k].entry, q) implies r.truncated
        || r.entries.contains(s[k].entry) by {
        lemma_passes(s[k].entry, q);
        lemma_filter_has(s, a, s[k]);
        assert(s.contains(s[k]));
        let j = choose|j: int| 0 <= j < active.len() && active[j] == s[k];
        let i = lemma_order_covers(keys, true, order, j);
        assert(entries[i] == s[k].entry);
        assert(entries.contains(s[k].entry));
        lemma_filter_has(entries, p, s[k].entry);
        if !r.truncated {
            assert(r.entries == hits);
        }
    }
    assert forall|i: int, j: int| 0 <= i < j < r.entries.len() implies changed_later(
        s,
        #[trigger] r.entries[i],
        #[trigger] r.entries[j],
    ) by {
        let (x, y) = lemma_filter_from_two(entries, p, i, j);
        assert(r.entries[i] == hits[i] && r.entries[j] == hits[j]);
        assert(comes_before(keys, true, order[x], order[y]));
        let k = lemma_filter_from(s, a, order[x] as int);
        let n = lemma_filter_from(s, a, order[y] as int);
        assert(s[k].entry == r.entries[i]);
        assert(s[n].entry == r.entries[j]);
    }
}

proof fn lemma_filter_len<A>(s: Seq<A>, p: spec_fn(A) -> bool)
    ensures
        s.filter(p).len() <= s.len(),
    decreases s.len(),
{
    reveal(Seq::filter);
    if s.len() > 0 {
        lemma_filter_len(s.drop_last(), p);
    }
}

/// What filtering leaves stands in the order in which it stood.
pub proof fn lemma_filter_from_two<A>(s: Seq<A>, p: spec_fn(A) -> bool, i: int, j: int) -> (r: (
    int,
    int,
))
    requires
        0 <= i < j < s.filter(p).len(),
    ensures
        0 <= r.0 < r.1 < s.len(),
        s[r.0] == s.filter(p)[i],
        s[r.1] == s.filter(p)[j],
    decreases s.len(),
{
    reveal(Seq::filter);
    let t = s.drop_last();
    if j < t.filter(p).len() {
        let r = lemma_filter_from_two(t, p, i, j);
        assert(s.filter(p)[i] == t.filter(p)[i]);
        assert(s.filter(p)[j] == t.filter(p)[j]);
        r
    } else {
        let k = lemma_filter_from(t, p, i);
        assert(s.filter(p)[i] == t.filter(p)[i]);
        (k, s.len() - 1)
    }
}

/// A query is refused just where it asks for nothing, may see nothing, or brings
/// a scope of another tenant.
pub proof fn law_queries_that_are_refused(q: MemoryQueryView)
    ensures
        query_problem(q) is None <==> q.limit > 0 && q.authorized_scopes.len() > 0 && forall|k: int|
            0 <= k < q.authorized_scopes.len() ==> (#[trigger] q.authorized_scopes[k]).tenant_id
                == q.tenant_id,
        query_problem(q) matches Some(KnowledgeErrorView::Unauthorized(_)) ==> exists|k: int|
            0 <= k < q.authorized_scopes.len() && (#[trigger] q.authorized_scopes[k]).tenant_id
                != q.tenant_id,
        q.limit > 0 && (exists|k: int|
            0 <= k < q.authorized_scopes.len() && (#[trigger] q.authorized_scopes[k]).tenant_id
                != q.tenant_id) ==> query_problem(q)->0 is Unauthorized,
{
    let f = |s: ScopeRefView| s.tenant_id != q.tenant_id;
    if exists|k: int|
        0 <= k < q.authorized_scopes.len() && (#[trigger] q.authorized_scopes[k]).tenant_id
            != q.tenant_id {
        let k = choose|k: int|
            0 <= k < q.authorized_scopes.len() && (#[trigger] q.authorized_scopes[k]).tenant_id
                != q.tenant_id;
        assert(f(q.authorized_scopes[k]));
    }
}

/// A proposal is kept only with an id, a key and a summary, in the namespace of
/// its owner, in a schema that fits, and to be seen by scopes of its tenant and
/// namespace alone, at least one.
pub proof fn law_proposals_that_are_refused(
    p: MemoryProposalView,
    schema: Option<KnowledgeErrorView>,
)
    ensures
        proposal_problem(p, schema) is None <==> {
            &&& trimmed(p.proposal_id).len() > 0
            &&& trimmed(p.idempotency_key).len() > 0
            &&& trimmed(p.summary).len() > 0
            &&& p.namespace == p.owner_scope.namespace
            &&& schema is None
            &&& p.visibility_scopes.len() > 0
            &&& forall|k: int|
                0 <= k < p.visibility_scopes.len() ==> (
                #[trigger] p.visibility_scopes[k]).tenant_id == p.owner_scope.tenant_id
                    && p.visibility_scopes[k].namespace == p.namespace
        },
{
    let f = |s: ScopeRefView|
        crate::memory::generic::is_foreign(s, p.owner_scope.tenant_id, p.namespace);
    if exists|k: int|
        0 <= k < p.visibility_scopes.len() && !((#[trigger] p.visibility_scopes[k]).tenant_id
            == p.owner_scope.tenant_id && p.visibility_scopes[k].namespace == p.namespace) {
        let k = choose|k: int|
            0 <= k < p.visibility_scopes.len() && !((#[trigger] p.visibility_scopes[k]).tenant_id
                == p.owner_scope.tenant_id && p.visibility_scopes[k].namespace == p.namespace);
        assert(f(p.visibility_scopes[k]));
    }
}

proof fn lemma_scope_inserted(s: Seq<ScopeRefView>, x: ScopeRefView, y: ScopeRefView)
    ensures
        scope_inserted(s, x).contains(y) <==> s.contains(y) || y == x,
    decreases s.len(),
{
    let r = scope_inserted(s, x);
    if s.len() == 0 {
        assert(r[0] == x);
    } else if x == s.last() {
        assert(s[s.len() - 1] == x);
    } else if scope_less(x, s.last()) {
        let t = s.drop_last();
        lemma_scope_inserted(t, x, y);
        let u = scope_inserted(t, x);
        if r.contains(y) {
            let i = choose|i: int| 0 <= i < r.len() && r[i] == y;
            if i < u.len() {
                assert(u[i] == y);
                if t.contains(y) {
                    let k = choose|k: int| 0 <= k < t.len() && t[k] == y;
                    assert(s[k] == y);
                }
            } else {
                assert(s[s.len() - 1] == y);
            }
        }
        if s.contains(y) || y == x {
            if u.contains(y) {
                let i = choose|i: int| 0 <= i < u.len() && u[i] == y;
                assert(r[i] == y);
            } else {
                let k = choose|k: int| 0 <= k < s.len() && s[k] == y;
                if k < t.len() {
                    assert(t[k] == y);
                }
                assert(r[r.len() - 1] == y);
            }
        }
    } else {
        if r.contains(y) {
            let i = choose|i: int| 0 <= i < r.len() && r[i] == y;
            if i < s.len() {
                assert(s[i] == y);
            }
        }
        if s.contains(y) {
            let i = choose|i: int| 0 <= i < s.len() && s[i] == y;
            assert(r[i] == y);
        }
        assert(r[s.len() as int] == x);
    }
}

/// Ordering scopes loses none of them and adds none.
pub proof fn law_scopes_stay(s: Seq<ScopeRefView>, y: ScopeRefView)
    ensures
        scopes_in_order(s).contains(y) <==> s.contains(y),
    decreases s.len(),
{
    if s.len() > 0 {
        let t = s.drop_last();
        law_scopes_stay(t, y);
        lemma_scope_inserted(scopes_in_order(t), s.last(), y);
        if s.contains(y) {
            let k = choose|k: int| 0 <= k < s.len() && s[k] == y;
            if k < t.len() {
                assert(t[k] == y);
            }
        }
        if t.contains(y) {
            let k = choose|k: int| 0 <= k < t.len() && t[k] == y;
            assert(s[k] == y);
        }
        assert(s[s.len() - 1] == s.last());
    }
}

/// A new proposal becomes an active memory of the first version with all that
/// was proposed, under the id, and is given back so; every memory that was there
/// stays, nothing else is added, and one event tells of it.
pub proof fn law_submitted_is_kept(
    s: GenericMemoryStoreView,
    p: MemoryProposalView,
    id: Seq<char>,
    now: i64,
    e: StoredEntryView,
)
    requires
        forall|i: int|
            0 <= i < s.entries.len() ==> (#[trigger] s.entries[i]).idempotency_key
                != p.idempotency_key && s.entries[i].entry.memory_entry_id != id,
        s.outbox.len() < u64::MAX,
    ensures
        submitted(s, p, id, now) is Ok,
        ({
            let (after, given) = submitted(s, p, id, now)->Ok_0;
            let event = after.outbox.last();
            &&& given.memory_entry_id == id
            &&& given.namespace == p.namespace
            &&& given.memory_type == p.memory_type
            &&& given.owner_scope == p.owner_scope
            &&& given.visibility_scopes == p.visibility_scopes
            &&& given.summary == p.summary
            &&& given.content_ref == p.content_ref
            &&& given.source_refs == p.source_refs
            &&& given.provenance == p.provenance
            &&& given.trust == p.trust
            &&& given.retention == p.retention
            &&& given.status == MemoryStatus::Active
            &&& given.version == 1
            &&& after.entries.len() == s.entries.len() + 1
            &&& s.entries.contains(e) ==> after.entries.contains(e)
            &&& after.entries.contains(e) && !s.entries.contains(e) ==> {
                &&& e.idempotency_key == p.idempotency_key
                &&& e.created_at == now && e.updated_at == now
                &&& e.entry == (KnowledgeEntryView {
                    visibility_scopes: e.entry.visibility_scopes,
                    ..given
                })
                &&& forall|x: ScopeRefView| #[trigger]
                    e.entry.visibility_scopes.contains(x) <==> p.visibility_scopes.contains(x)
            }
            &&& after.tombstones == s.tombstones
            &&& after.outbox.drop_last() == s.outbox
            &&& event.entry == given
            &&& event.aggregate_id == id
            &&& event.event_type == "memory_committed"@
            &&& event.sequence == s.outbox.len() + 1
            &&& event.reason is None && event.published_at is None && event.created_at == now
        }),
{
    let by_key = |x: StoredEntryView| x.idempotency_key == p.idempotency_key;
    lemma_first_index(s.entries, by_key);
    lemma_first_index(s.entries, with_key::<StoredEntry>(id));
    if keyed_index::<StoredEntry>(s.entries, id) is Some {
        let i = keyed_index::<StoredEntry>(s.entries, id)->0;
        assert(s.entries[i].entry.memory_entry_id == id);
    }
    if proposed_index(s.entries, p.idempotency_key) is Some {
        let i = proposed_index(s.entries, p.idempotency_key)->0;
        assert(by_key(s.entries[i]));
    }
    let (after, given) = submitted(s, p, id, now)->Ok_0;
    let kept = StoredEntryView {
        entry: KnowledgeEntryView {
            visibility_scopes: scopes_in_order(p.visibility_scopes),
            ..given
        },
        idempotency_key: p.idempotency_key,
        created_at: now,
        updated_at: now,
    };
    lemma_inserted_items::<StoredEntry>(s.entries, kept);
    assert(after.outbox.drop_last() =~= s.outbox);
    if s.entries.contains(e) {
        lemma_inserted_keeps(s.entries, kept, e);
    }
    if after.entries.contains(e) && !s.entries.contains(e) {
        let i = choose|i: int| 0 <= i < after.entries.len() && after.entries[i] == e;
        assert(e == kept);
        assert forall|x: ScopeRefView| #[trigger]
            e.entry.visibility_scopes.contains(x) <==> p.visibility_scopes.contains(x) by {
            law_scopes_stay(p.visibility_scopes, x);
        }
    }
}

proof fn lemma_inserted_keeps(s: Seq<StoredEntryView>, x: StoredEntryView, e: StoredEntryView)
    requires
        s.contains(e),
    ensures
        keyed_inserted::<StoredEntry>(s, x).contains(e),
    decreases s.len(),
{
    let r = keyed_inserted::<StoredEntry>(s, x);
    let k = choose|k: int| 0 <= k < s.len() && s[k] == e;
    if text_less(x.entry.memory_entry_id, s.last().entry.memory_entry_id) {
        if k < s.len() - 1 {
            assert(s.drop_last()[k] == e);
            lemma_inserted_keeps(s.drop_last(), x, e);
            let t = keyed_inserted::<StoredEntry>(s.drop_last(), x);
            let i = choose|i: int| 0 <= i < t.len() && t[i] == e;
            assert(r[i] == e);
        } else {
            assert(r[r.len() - 1] == e);
        }
    } else {
        assert(r[k] == e);
    }
}

/// A memory is superseded just where its id and a reason are given and the
/// version is the one that it has. Then only its status and its version differ,
/// every other memory stays, a tombstone keeps the reason, and one event tells
/// of it; else the store stays as it is.
pub proof fn law_superseded_memory(
    s: GenericMemoryStoreView,
    id: Seq<char>,
    expected: u64,
    reason: Seq<char>,
    now: i64,
    k: int,
)
    requires
        0 <= k < s.entries.len(),
        s.entries[k].entry.memory_entry_id == id,
        forall|i: int|
            0 <= i < k ==> (#[trigger] s.entries[i]).entry.memory_entry_id != id,
        expected < u64::MAX,
        s.outbox.len() < u64::MAX,
    ensures
        superseded_in(s, id, expected, reason, now) is Ok <==> trimmed(id).len() > 0 && trimmed(
            reason,
        ).len() > 0 && s.entries[k].entry.version == expected,
        trimmed(id).len() > 0 && trimmed(reason).len() > 0 && s.entries[k].entry.version != expected
            ==> superseded_in(s, id, expected, reason, now)->Err_0 == (
        KnowledgeErrorView::StaleRevision {
            record_id: id,
            expected,
            actual: s.entries[k].entry.version,
        }),
        superseded_in(s, id, expected, reason, now) matches Ok((after, given)) ==> {
            let event = after.outbox.last();
            let tomb = after.tombstones.last();
            &&& given == (KnowledgeEntryView {
                status: MemoryStatus::Superseded,
                version: (expected + 1) as u64,
                ..s.entries[k].entry
            })
            &&& after.entries.len() == s.entries.len()
            &&& after.entries[k].entry == given
            &&& after.entries[k].updated_at == now
            &&& after.entries[k].created_at == s.entries[k].created_at
            &&& after.entries[k].idempotency_key == s.entries[k].idempotency_key
            &&& forall|i: int|
                0 <= i < s.entries.len() && i != k ==> #[trigger] after.entries[i] == s.entries[i]
            &&& after.tombstones.drop_last() == s.tombstones
            &&& tomb.memory_entry_id == id && tomb.version == expected + 1 && tomb.reason == reason
                && tomb.created_at == now
            &&& after.outbox.drop_last() == s.outbox
            &&& event.entry == given && event.event_type == "memory_superseded"@ && event.reason
                == Some(reason) && event.sequence == s.outbox.len() + 1
        },
{
    let p = with_key::<StoredEntry>(id);
    assert forall|i: int| 0 <= i < k implies !p(#[trigger] s.entries[i]) by {}
    crate::seqs::lemma_first_index_some(s.entries, p, k);
    if superseded_in(s, id, expected, reason, now) is Ok {
        let (after, given) = superseded_in(s, id, expected, reason, now)->Ok_0;
        assert(after.tombstones.drop_last() =~= s.tombstones);
        assert(after.outbox.drop_last() =~= s.outbox);
    }
}

/// A memory that is not there cannot be superseded.
pub proof fn law_unknown_memory_stays_unknown(
    s: GenericMemoryStoreView,
    id: Seq<char>,
    expected: u64,
    reason: Seq<char>,
    now: i64,
)
    requires
        forall|i: int|
            0 <= i < s.entries.len() ==> (#[trigger] s.entries[i]).entry.memory_entry_id != id,
    ensures
        superseded_in(s, id, expected, reason, now) is Err,
        superseded_in(s, id, expected, reason, now)->Err_0 is InvalidInput,
{
    let p = with_key::<StoredEntry>(id);
    assert forall|i: int| 0 <= i < s.entries.len() implies !p(#[trigger] s.entries[i]) by {}
    crate::seqs::lemma_first_index_none(s.entries, p);
}

/// An event waits until it is heard, and the oldest are given first; once heard
/// it waits no more, and every other event stays as it was.
pub proof fn law_events_wait_until_heard(
    s: GenericMemoryStoreView,
    id: Seq<char>,
    now: i64,
    limit: nat,
    k: int,
    e: OutboxEventView,
)
    ensures
        pending_in(s.outbox, limit).len() <= limit,
        pending_in(s.outbox, limit).contains(e) ==> s.outbox.contains(e) && e.published_at is None,
        s.outbox.contains(e) && e.published_at is None ==> pending_in(s.outbox, limit).contains(e)
            || pending_in(s.outbox, limit).len() == limit,
        0 <= k < s.outbox.len() && s.outbox[k].event_id == id && s.outbox[k].published_at is None
            && (forall|i: int|
            0 <= i < k ==> (#[trigger] s.outbox[i]).event_id != id || s.outbox[i].published_at
                is Some) ==> {
            let (after, heard) = acknowledged(s, id, now);
            &&& heard
            &&& after.entries == s.entries && after.tombstones == s.tombstones
            &&& after.outbox.len() == s.outbox.len()
            &&& after.outbox[k] == (OutboxEventView { published_at: Some(now), ..s.outbox[k] })
            &&& forall|i: int|
                0 <= i < s.outbox.len() && i != k ==> #[trigger] after.outbox[i] == s.outbox[i]
        },
        (forall|i: int|
            0 <= i < s.outbox.len() ==> (#[trigger] s.outbox[i]).event_id != id
                || s.outbox[i].published_at is Some) ==> acknowledged(s, id, now) == (s, false),
{
    let waits = |e: OutboxEventView| e.published_at is None;
    lemma_filter_has(s.outbox, waits, e);
    let all = s.outbox.filter(waits);
    let given = pending_in(s.outbox, limit);
    if given.contains(e) {
        let i = choose|i: int| 0 <= i < given.len() && given[i] == e;
        assert(all[i] == e);
    }
    let p = |e: OutboxEventView| e.event_id == id && e.published_at is None;
    if 0 <= k < s.outbox.len() && s.outbox[k].event_id == id && s.outbox[k].published_at is None
        && (forall|i: int|
        0 <= i < k ==> (#[trigger] s.outbox[i]).event_id != id || s.outbox[i].published_at
            is Some) {
        assert forall|i: int| 0 <= i < k implies !p(#[trigger] s.outbox[i]) by {}
        crate::seqs::lemma_first_index_some(s.outbox, p, k);
    }
    if forall|i: int|
        0 <= i < s.outbox.len() ==> (#[trigger] s.outbox[i]).event_id != id
            || s.outbox[i].published_at is Some {
        assert forall|i: int| 0 <= i < s.outbox.len() implies !p(#[trigger] s.outbox[i]) by {}
        crate::seqs::lemma_first_index_none(s.outbox, p);
    }
}

/// A memory is written column by column, each under its own name, with what is
/// structured as JSON.
pub proof fn law_memory_is_written(e: KnowledgeEntryView)
    ensures
        ({
            let r = row_of(e);
            &&& r.tenant_id == e.owner_scope.tenant_id
            &&& r.namespace == e.namespace
            &&& r.memory_type == e.memory_type
            &&& r.owner_scope_type == e.owner_scope.scope_type
            &&& r.owner_scope_key == e.owner_scope.scope_key
            &&& r.summary == e.summary
            &&& r.version == e.version
            &&& r.provenance_json == text_of_json(e.provenance)
            &&& r.trust == text_of_json(JsonView::Str(e.trust))
            &&& r.retention == text_of_json(JsonView::Str(e.retention))
            &&& r.content_provider is Some <==> e.content_ref is Some
            &&& e.content_ref matches Some(c) ==> r.content_provider == Some(c.provider)
                && r.content_resource_id == Some(c.resource_id) && r.content_hash == Some(
                c.content_hash,
            ) && r.content_version == c.version
            &&& r.status == match e.status {
                MemoryStatus::Active => "active"@,
                MemoryStatus::Superseded => "superseded"@,
                MemoryStatus::Tombstoned => "tombstoned"@,
            }
        }),
{
}

} // verus!
