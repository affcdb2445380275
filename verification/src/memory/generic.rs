//! Memories of any kind, each with an owner, the scopes that may see it and
//! versions, and the events that tell others of them.

use crate::json::{Json, JsonView};
use crate::keyed::{
    ascending, find_keyed, insert_keyed, keyed_index, keyed_inserted, law_insert_keeps_order, Keyed,
};
use crate::memory::novel::canon::has_string;
use crate::order::{comes_first, text_less};
use crate::replicate::Replicate;
use crate::seqs::{
    first_index, lemma_filter_from, lemma_first_index, lemma_first_index_some, lemma_take_all,
    lemma_take_step, reorder, reordered, stable_order, stably_ordered,
};
use crate::text::{
    contains, decimal, has_text, is_blank, lowercase_of, number, same, text_of, trim, trimmed,
    chars_of,
};
use crate::walk::{
    any_is, at_most, filter_each, first_items, map_each, no_items, position, push_one, some_is,
};
use vstd::prelude::*;

verus! {

/// Whether a memory still counts.
#[derive(Debug, Clone, Copy, PartialEq, Eq, Structural)]
pub enum MemoryStatus {
    Active,
    Superseded,
    Tombstoned,
}

impl DeepView for MemoryStatus {
    type V = MemoryStatus;

    open spec fn deep_view(&self) -> MemoryStatus {
        *self
    }
}

impl Replicate for MemoryStatus {
    fn replicate(&self) -> (r: Self) {
        *self
    }
}

/// A scope: a part of a namespace of a tenant.
#[derive(Debug, PartialEq)]
pub struct ScopeRef {
    pub tenant_id: String,
    pub namespace: String,
    pub scope_type: String,
    pub scope_key: String,
}

/// What a scope is.
#[verifier::ext_equal]
pub struct ScopeRefView {
    pub tenant_id: Seq<char>,
    pub namespace: Seq<char>,
    pub scope_type: Seq<char>,
    pub scope_key: Seq<char>,
}

impl DeepView for ScopeRef {
    type V = ScopeRefView;

    open spec fn deep_view(&self) -> ScopeRefView {
        ScopeRefView {
            tenant_id: self.tenant_id@,
            namespace: self.namespace@,
            scope_type: self.scope_type@,
            scope_key: self.scope_key@,
        }
    }
}

impl Replicate for ScopeRef {
    fn replicate(&self) -> (r: Self) {
        ScopeRef {
            tenant_id: self.tenant_id.clone(),
            namespace: self.namespace.clone(),
            scope_type: self.scope_type.clone(),
            scope_key: self.scope_key.clone(),
        }
    }
}

/// Where the content of a memory is.
#[derive(Debug, PartialEq)]
pub struct ContentRef {
    pub provider: String,
    pub resource_id: String,
    pub version: Option<String>,
    pub content_hash: String,
}

/// What such a reference is.
#[verifier::ext_equal]
pub struct ContentRefView {
    pub provider: Seq<char>,
    pub resource_id: Seq<char>,
    pub version: Option<Seq<char>>,
    pub content_hash: Seq<char>,
}

impl DeepView for ContentRef {
    type V = ContentRefView;

    open spec fn deep_view(&self) -> ContentRefView {
        ContentRefView {
            provider: self.provider@,
            resource_id: self.resource_id@,
            version: self.version.deep_view(),
            content_hash: self.content_hash@,
        }
    }
}

impl Replicate for ContentRef {
    fn replicate(&self) -> (r: Self) {
        ContentRef {
            provider: self.provider.clone(),
            resource_id: self.resource_id.clone(),
            version: self.version.replicate(),
            content_hash: self.content_hash.clone(),
        }
    }
}

/// Where a memory is taken from.
#[derive(Debug, PartialEq)]
pub struct SourceRef {
    pub namespace: String,
    pub resource_type: String,
    pub resource_id: String,
    pub version: Option<String>,
    pub content_hash: Option<String>,
}

/// What such a reference is.
#[verifier::ext_equal]
pub struct SourceRefView {
    pub namespace: Seq<char>,
    pub resource_type: Seq<char>,
    pub resource_id: Seq<char>,
    pub version: Option<Seq<char>>,
    pub content_hash: Option<Seq<char>>,
}

impl DeepView for SourceRef {
    type V = SourceRefView;

    open spec fn deep_view(&self) -> SourceRefView {
        SourceRefView {
            namespace: self.namespace@,
            resource_type: self.resource_type@,
            resource_id: self.resource_id@,
            version: self.version.deep_view(),
            content_hash: self.content_hash.deep_view(),
        }
    }
}

impl Replicate for SourceRef {
    fn replicate(&self) -> (r: Self) {
        SourceRef {
            namespace: self.namespace.clone(),
            resource_type: self.resource_type.clone(),
            resource_id: self.resource_id.clone(),
            version: self.version.replicate(),
            content_hash: self.content_hash.replicate(),
        }
    }
}

/// A memory that is proposed.
#[derive(Debug, PartialEq)]
pub struct MemoryProposal {
    pub proposal_id: String,
    /// The key by which the proposal is known when it comes again.
    pub idempotency_key: String,
    pub namespace: String,
    pub memory_type: String,
    pub owner_scope: ScopeRef,
    pub visibility_scopes: Vec<ScopeRef>,
    pub summary: String,
    pub content_ref: Option<ContentRef>,
    pub source_refs: Vec<SourceRef>,
    pub provenance: Json,
    pub trust: String,
    pub retention: String,
}

/// What a proposal is.
#[verifier::ext_equal]
pub struct MemoryProposalView {
    pub proposal_id: Seq<char>,
    pub idempotency_key: Seq<char>,
    pub namespace: Seq<char>,
    pub memory_type: Seq<char>,
    pub owner_scope: ScopeRefView,
    pub visibility_scopes: Seq<ScopeRefView>,
    pub summary: Seq<char>,
    pub content_ref: Option<ContentRefView>,
    pub source_refs: Seq<SourceRefView>,
    pub provenance: JsonView,
    pub trust: Seq<char>,
    pub retention: Seq<char>,
}

impl DeepView for MemoryProposal {
    type V = MemoryProposalView;

    open spec fn deep_view(&self) -> MemoryProposalView {
        MemoryProposalView {
            proposal_id: self.proposal_id@,
            idempotency_key: self.idempotency_key@,
            namespace: self.namespace@,
            memory_type: self.memory_type@,
            owner_scope: self.owner_scope.deep_view(),
            visibility_scopes: self.visibility_scopes.deep_view(),
            summary: self.summary@,
            content_ref: self.content_ref.deep_view(),
            source_refs: self.source_refs.deep_view(),
            provenance: self.provenance.deep_view(),
            trust: self.trust@,
            retention: self.retention@,
        }
    }
}

impl Replicate for MemoryProposal {
    fn replicate(&self) -> (r: Self) {
        MemoryProposal {
            proposal_id: self.proposal_id.clone(),
            idempotency_key: self.idempotency_key.clone(),
            namespace: self.namespace.clone(),
            memory_type: self.memory_type.clone(),
            owner_scope: self.owner_scope.replicate(),
            visibility_scopes: self.visibility_scopes.replicate(),
            summary: self.summary.clone(),
            content_ref: self.content_ref.replicate(),
            source_refs: self.source_refs.replicate(),
            provenance: self.provenance.replicate(),
            trust: self.trust.clone(),
            retention: self.retention.clone(),
        }
    }
}

/// A memory that is kept.
#[derive(Debug, PartialEq)]
pub struct KnowledgeEntry {
    pub memory_entry_id: String,
    pub namespace: String,
    pub memory_type: String,
    pub owner_scope: ScopeRef,
    pub visibility_scopes: Vec<ScopeRef>,
    pub summary: String,
    pub content_ref: Option<ContentRef>,
    pub source_refs: Vec<SourceRef>,
    pub provenance: Json,
    pub trust: String,
    pub retention: String,
    pub status: MemoryStatus,
    pub version: u64,
}

/// What such a memory is.
#[verifier::ext_equal]
pub struct KnowledgeEntryView {
    pub memory_entry_id: Seq<char>,
    pub namespace: Seq<char>,
    pub memory_type: Seq<char>,
    pub owner_scope: ScopeRefView,
    pub visibility_scopes: Seq<ScopeRefView>,
    pub summary: Seq<char>,
    pub content_ref: Option<ContentRefView>,
    pub source_refs: Seq<SourceRefView>,
    pub provenance: JsonView,
    pub trust: Seq<char>,
    pub retention: Seq<char>,
    pub status: MemoryStatus,
    pub version: u64,
}

impl DeepView for KnowledgeEntry {
    type V = KnowledgeEntryView;

    open spec fn deep_view(&self) -> KnowledgeEntryView {
        KnowledgeEntryView {
            memory_entry_id: self.memory_entry_id@,
            namespace: self.namespace@,
            memory_type: self.memory_type@,
            owner_scope: self.owner_scope.deep_view(),
            visibility_scopes: self.visibility_scopes.deep_view(),
            summary: self.summary@,
            content_ref: self.content_ref.deep_view(),
            source_refs: self.source_refs.deep_view(),
            provenance: self.provenance.deep_view(),
            trust: self.trust@,
            retention: self.retention@,
            status: self.status,
            version: self.version,
        }
    }
}

impl Replicate for KnowledgeEntry {
    fn replicate(&self) -> (r: Self) {
        KnowledgeEntry {
            memory_entry_id: self.memory_entry_id.clone(),
            namespace: self.namespace.clone(),
            memory_type: self.memory_type.clone(),
            owner_scope: self.owner_scope.replicate(),
            visibility_scopes: self.visibility_scopes.replicate(),
            summary: self.summary.clone(),
            content_ref: self.content_ref.replicate(),
            source_refs: self.source_refs.replicate(),
            provenance: self.provenance.replicate(),
            trust: self.trust.clone(),
            retention: self.retention.clone(),
            status: self.status,
            version: self.version,
        }
    }
}

/// A memory and when it was changed.
#[derive(Debug, PartialEq)]
pub struct StoredEntry {
    pub entry: KnowledgeEntry,
    pub idempotency_key: String,
    pub created_at: i64,
    pub updated_at: i64,
}

/// What such a record is.
#[verifier::ext_equal]
pub struct StoredEntryView {
    pub entry: KnowledgeEntryView,
    pub idempotency_key: Seq<char>,
    pub created_at: i64,
    pub updated_at: i64,
}

impl DeepView for StoredEntry {
    type V = StoredEntryView;

    open spec fn deep_view(&self) -> StoredEntryView {
        StoredEntryView {
            entry: self.entry.deep_view(),
            idempotency_key: self.idempotency_key@,
            created_at: self.created_at,
            updated_at: self.updated_at,
        }
    }
}

impl Replicate for StoredEntry {
    fn replicate(&self) -> (r: Self) {
        StoredEntry {
            entry: self.entry.replicate(),
            idempotency_key: self.idempotency_key.clone(),
            created_at: self.created_at,
            updated_at: self.updated_at,
        }
    }
}

/// Why a memory no longer counts.
#[derive(Debug, PartialEq)]
pub struct Tombstone {
    pub memory_entry_id: String,
    pub version: u64,
    pub reason: String,
    pub created_at: i64,
}

/// What such a record is.
#[verifier::ext_equal]
pub struct TombstoneView {
    pub memory_entry_id: Seq<char>,
    pub version: u64,
    pub reason: Seq<char>,
    pub created_at: i64,
}

impl DeepView for Tombstone {
    type V = TombstoneView;

    open spec fn deep_view(&self) -> TombstoneView {
        TombstoneView {
            memory_entry_id: self.memory_entry_id@,
            version: self.version,
            reason: self.reason@,
            created_at: self.created_at,
        }
    }
}

impl Replicate for Tombstone {
    fn replicate(&self) -> (r: Self) {
        Tombstone {
            memory_entry_id: self.memory_entry_id.clone(),
            version: self.version,
            reason: self.reason.clone(),
            created_at: self.created_at,
        }
    }
}

/// An event for others to hear.
#[derive(Debug, PartialEq)]
pub struct OutboxEvent {
    pub event_id: String,
    pub aggregate_id: String,
    pub event_type: String,
    pub sequence: u64,
    pub entry: KnowledgeEntry,
    pub reason: Option<String>,
    pub created_at: i64,
    pub published_at: Option<i64>,
}

/// What an event is.
#[verifier::ext_equal]
pub struct OutboxEventView {
    pub event_id: Seq<char>,
    pub aggregate_id: Seq<char>,
    pub event_type: Seq<char>,
    pub sequence: u64,
    pub entry: KnowledgeEntryView,
    pub reason: Option<Seq<char>>,
    pub created_at: i64,
    pub published_at: Option<i64>,
}

impl DeepView for OutboxEvent {
    type V = OutboxEventView;

    open spec fn deep_view(&self) -> OutboxEventView {
        OutboxEventView {
            event_id: self.event_id@,
            aggregate_id: self.aggregate_id@,
            event_type: self.event_type@,
            sequence: self.sequence,
            entry: self.entry.deep_view(),
            reason: self.reason.deep_view(),
            created_at: self.created_at,
            published_at: self.published_at.deep_view(),
        }
    }
}

impl Replicate for OutboxEvent {
    fn replicate(&self) -> (r: Self) {
        OutboxEvent {
            event_id: self.event_id.clone(),
            aggregate_id: self.aggregate_id.clone(),
            event_type: self.event_type.clone(),
            sequence: self.sequence,
            entry: self.entry.replicate(),
            reason: self.reason.replicate(),
            created_at: self.created_at,
            published_at: self.published_at.replicate(),
        }
    }
}

/// What is looked for.
#[derive(Debug, PartialEq)]
pub struct MemoryQuery {
    pub tenant_id: String,
    /// The namespaces to look in; all where there is none.
    pub namespaces: Vec<String>,
    /// The types to look for; all where there is none.
    pub memory_types: Vec<String>,
    pub authorized_scopes: Vec<ScopeRef>,
    pub terms: Vec<String>,
    pub limit: usize,
}

/// What a query is.
#[verifier::ext_equal]
pub struct MemoryQueryView {
    pub tenant_id: Seq<char>,
    pub namespaces: Seq<Seq<char>>,
    pub memory_types: Seq<Seq<char>>,
    pub authorized_scopes: Seq<ScopeRefView>,
    pub terms: Seq<Seq<char>>,
    pub limit: usize,
}

impl DeepView for MemoryQuery {
    type V = MemoryQueryView;

    open spec fn deep_view(&self) -> MemoryQueryView {
        MemoryQueryView {
            tenant_id: self.tenant_id@,
            namespaces: self.namespaces.deep_view(),
            memory_types: self.memory_types.deep_view(),
            authorized_scopes: self.authorized_scopes.deep_view(),
            terms: self.terms.deep_view(),
            limit: self.limit,
        }
    }
}

/// What was found.
#[derive(Debug, PartialEq)]
pub struct MemoryQueryResult {
    pub entries: Vec<KnowledgeEntry>,
    /// How many memories were looked at.
    pub scanned: usize,
    /// Whether there is more.
    pub truncated: bool,
}

/// What a result is.
#[verifier::ext_equal]
pub struct MemoryQueryResultView {
    pub entries: Seq<KnowledgeEntryView>,
    pub scanned: usize,
    pub truncated: bool,
}

impl DeepView for MemoryQueryResult {
    type V = MemoryQueryResultView;

    open spec fn deep_view(&self) -> MemoryQueryResultView {
        MemoryQueryResultView {
            entries: self.entries.deep_view(),
            scanned: self.scanned,
            truncated: self.truncated,
        }
    }
}

/// What can go wrong.
#[derive(Debug, PartialEq)]
pub enum KnowledgeError {
    InvalidInput(String),
    Unauthorized(String),
    Storage(String),
    StaleRevision { record_id: String, expected: u64, actual: u64 },
}

/// What such an error is.
#[verifier::ext_equal]
pub enum KnowledgeErrorView {
    InvalidInput(Seq<char>),
    Unauthorized(Seq<char>),
    Storage(Seq<char>),
    StaleRevision { record_id: Seq<char>, expected: u64, actual: u64 },
}

impl DeepView for KnowledgeError {
    type V = KnowledgeErrorView;

    open spec fn deep_view(&self) -> KnowledgeErrorView {
        match self {
            KnowledgeError::InvalidInput(s) => KnowledgeErrorView::InvalidInput(s@),
            KnowledgeError::Unauthorized(s) => KnowledgeErrorView::Unauthorized(s@),
            KnowledgeError::Storage(s) => KnowledgeErrorView::Storage(s@),
            KnowledgeError::StaleRevision { record_id, expected, actual } =>
                KnowledgeErrorView::StaleRevision {
                record_id: record_id@,
                expected: *expected,
                actual: *actual,
            },
        }
    }
}

impl Keyed for StoredEntry {
    open spec fn key_of(v: StoredEntryView) -> Seq<char> {
        v.entry.memory_entry_id
    }

    fn key(&self) -> (r: &str) {
        self.entry.memory_entry_id.as_str()
    }
}

// ---------------------------------------------------------------------------
// Scopes
// ---------------------------------------------------------------------------

/// One scope comes before another: by tenant, namespace, type and key.
pub open spec fn scope_less(a: ScopeRefView, b: ScopeRefView) -> bool {
    if a.tenant_id != b.tenant_id {
        text_less(a.tenant_id, b.tenant_id)
    } else if a.namespace != b.namespace {
        text_less(a.namespace, b.namespace)
    } else if a.scope_type != b.scope_type {
        text_less(a.scope_type, b.scope_type)
    } else {
        text_less(a.scope_key, b.scope_key)
    }
}

/// A scope put in its place, unless it is there already.
pub open spec fn scope_inserted(s: Seq<ScopeRefView>, x: ScopeRefView) -> Seq<ScopeRefView>
    decreases s.len(),
{
    if s.len() == 0 {
        seq![x]
    } else if x == s.last() {
        s
    } else if scope_less(x, s.last()) {
        scope_inserted(s.drop_last(), x).push(s.last())
    } else {
        s.push(x)
    }
}

/// The scopes in order, each once.
pub open spec fn scopes_in_order(s: Seq<ScopeRefView>) -> Seq<ScopeRefView>
    decreases s.len(),
{
    if s.len() == 0 {
        Seq::empty()
    } else {
        scope_inserted(scopes_in_order(s.drop_last()), s.last())
    }
}

/// Whether two scopes are the same.
pub fn same_scope(a: &ScopeRef, b: &ScopeRef) -> (r: bool)
    ensures
        r == (a.deep_view() == b.deep_view()),
{
    same(a.tenant_id.as_str(), b.tenant_id.as_str()) && same(
        a.namespace.as_str(),
        b.namespace.as_str(),
    ) && same(a.scope_type.as_str(), b.scope_type.as_str()) && same(
        a.scope_key.as_str(),
        b.scope_key.as_str(),
    )
}

fn scope_comes_first(a: &ScopeRef, b: &ScopeRef) -> (r: bool)
    ensures
        r == scope_less(a.deep_view(), b.deep_view()),
{
    if !same(a.tenant_id.as_str(), b.tenant_id.as_str()) {
        comes_first(a.tenant_id.as_str(), b.tenant_id.as_str())
    } else if !same(a.namespace.as_str(), b.namespace.as_str()) {
        comes_first(a.namespace.as_str(), b.namespace.as_str())
    } else if !same(a.scope_type.as_str(), b.scope_type.as_str()) {
        comes_first(a.scope_type.as_str(), b.scope_type.as_str())
    } else {
        comes_first(a.scope_key.as_str(), b.scope_key.as_str())
    }
}

fn passes(x: &ScopeRef, other: &ScopeRef) -> (r: bool)
    ensures
        r == (x.deep_view() != other.deep_view() && scope_less(x.deep_view(), other.deep_view())),
{
    !same_scope(x, other) && scope_comes_first(x, other)
}

fn insert_scope(items: &mut Vec<ScopeRef>, x: &ScopeRef)
    ensures
        final(items).deep_view() == scope_inserted(old(items).deep_view(), x.deep_view()),
{
    let ghost before = items.deep_view();
    let ghost v = x.deep_view();
    let mut p: usize = items.len();
    assert(before.take(p as int) =~= before);
    assert(scope_inserted(before.take(p as int), v) + before.skip(p as int) =~= scope_inserted(
        before,
        v,
    ));
    while p > 0 && passes(x, &items[p - 1])
        invariant
            p <= items@.len(),
            before == items.deep_view(),
            v == x.deep_view(),
            scope_inserted(before.take(p as int), v) + before.skip(p as int) == scope_inserted(
                before,
                v,
            ),
        decreases p,
    {
        proof {
            let t = before.take(p as int);
            assert(t.last() == items@[p - 1].deep_view());
            assert(t.drop_last() =~= before.take(p - 1));
            assert(scope_inserted(t, v) + before.skip(p as int) =~= scope_inserted(
                before.take(p - 1),
                v,
            ) + before.skip(p - 1));
        }
        p = p - 1;
    }
    let ghost t = before.take(p as int);
    if p > 0 && same_scope(x, &items[p - 1]) {
        assert(t.last() == items@[p - 1].deep_view());
        assert(t + before.skip(p as int) =~= before);
        return ;
    }
    proof {
        if p > 0 {
            assert(t.last() == items@[p - 1].deep_view());
        } else {
            assert(t =~= Seq::<ScopeRefView>::empty());
            assert(scope_inserted(t, v) =~= t.push(v));
        }
        assert(scope_inserted(before, v) =~= before.insert(p as int, v));
    }
    items.insert(p, x.replicate());
    assert(items.deep_view() =~= before.insert(p as int, v));
}

/// The scopes in order, each once.
pub fn sort_scopes(items: &Vec<ScopeRef>) -> (r: Vec<ScopeRef>)
    ensures
        r.deep_view() == scopes_in_order(items.deep_view()),
{
    let ghost all = items.deep_view();
    let mut r: Vec<ScopeRef> = no_items();
    let mut i: usize = 0;
    assert(all.take(0) =~= Seq::<ScopeRefView>::empty());
    while i < items.len()
        invariant
            i <= items@.len(),
            all == items.deep_view(),
            r.deep_view() == scopes_in_order(all.take(i as int)),
        decreases items@.len() - i,
    {
        proof {
            lemma_take_step(all, i as int);
            assert(all[i as int] == items@[i as int].deep_view());
        }
        insert_scope(&mut r, &items[i]);
        i = i + 1;
    }
    proof {
        lemma_take_all(all);
    }
    r
}

// ---------------------------------------------------------------------------
// Proposals
// ---------------------------------------------------------------------------

/// A scope that is not of the tenant and the namespace.
pub open spec fn is_foreign(s: ScopeRefView, tenant: Seq<char>, namespace: Seq<char>) -> bool {
    s.tenant_id != tenant || s.namespace != namespace
}

/// What is wrong with a proposal; `schema` says what the schema has against it.
pub open spec fn proposal_problem(
    p: MemoryProposalView,
    schema: Option<KnowledgeErrorView>,
) -> Option<KnowledgeErrorView> {
    if trimmed(p.proposal_id).len() == 0 || trimmed(p.idempotency_key).len() == 0 || trimmed(
        p.summary,
    ).len() == 0 {
        Some(
            KnowledgeErrorView::InvalidInput(
                "proposal id, idempotency key, and summary are required"@,
            ),
        )
    } else if p.namespace != p.owner_scope.namespace {
        Some(
            KnowledgeErrorView::InvalidInput(
                "proposal namespace must match owner scope namespace"@,
            ),
        )
    } else if schema is Some {
        schema
    } else if p.visibility_scopes.len() == 0 || some_is(
        p.visibility_scopes,
        |s: ScopeRefView| is_foreign(s, p.owner_scope.tenant_id, p.namespace),
    ) {
        Some(
            KnowledgeErrorView::InvalidInput(
                "visibility scopes must be non-empty and match proposal tenant/namespace"@,
            ),
        )
    } else {
        None
    }
}

/// Checks a proposal; `schema` says what the schema has against it.
pub fn validate_proposal(proposal: &MemoryProposal, schema: Option<KnowledgeError>) -> (r: Result<
    (),
    KnowledgeError,
>)
    ensures
        match r {
            Ok(_) => proposal_problem(proposal.deep_view(), schema.deep_view()) is None,
            Err(e) => proposal_problem(proposal.deep_view(), schema.deep_view()) == Some(
                e.deep_view(),
            ),
        },
{
    if is_blank(proposal.proposal_id.as_str()) || is_blank(proposal.idempotency_key.as_str())
        || is_blank(proposal.summary.as_str()) {
        return Err(
            KnowledgeError::InvalidInput(
                "proposal id, idempotency key, and summary are required".to_owned(),
            ),
        );
    }
    if !same(proposal.namespace.as_str(), proposal.owner_scope.namespace.as_str()) {
        return Err(
            KnowledgeError::InvalidInput(
                "proposal namespace must match owner scope namespace".to_owned(),
            ),
        );
    }
    if let Some(e) = schema {
        return Err(e);
    }
    let foreign = |s: &ScopeRef| -> (r: bool)
        ensures
            r == is_foreign(
                s.deep_view(),
                proposal.deep_view().owner_scope.tenant_id,
                proposal.deep_view().namespace,
            )
    {
        !same(s.tenant_id.as_str(), proposal.owner_scope.tenant_id.as_str()) || !same(
            s.namespace.as_str(),
            proposal.namespace.as_str(),
        )
    };
    let any = any_is(
        proposal.visibility_scopes.as_slice(),
        foreign,
        Ghost(
            |s: ScopeRefView|
                is_foreign(
                    s,
                    proposal.deep_view().owner_scope.tenant_id,
                    proposal.deep_view().namespace,
                ),
        ),
    );
    assert(proposal.visibility_scopes.deep_view().len() == proposal.visibility_scopes@.len());
    if proposal.visibility_scopes.len() == 0 || any {
        return Err(
            KnowledgeError::InvalidInput(
                "visibility scopes must be non-empty and match proposal tenant/namespace".to_owned(),
            ),
        );
    }
    Ok(())
}

/// The text that a proposal is identified by; `owner_key` is the text that
/// stands for its owner.
pub open spec fn identity_of(p: MemoryProposalView, owner_key: Seq<char>) -> Seq<char> {
    p.owner_scope.tenant_id + "\0"@ + p.namespace + "\0"@ + p.memory_type + "\0"@ + owner_key
        + "\0"@ + p.idempotency_key
}

/// The text that a proposal is identified by.
pub fn proposal_identity(proposal: &MemoryProposal, owner_key: &str) -> (r: String)
    ensures
        r@ == identity_of(proposal.deep_view(), owner_key@),
{
    let mut r = proposal.owner_scope.tenant_id.clone();
    r.append("\0");
    r.append(proposal.namespace.as_str());
    r.append("\0");
    r.append(proposal.memory_type.as_str());
    r.append("\0");
    r.append(owner_key);
    r.append("\0");
    r.append(proposal.idempotency_key.as_str());
    r
}

/// The id of a memory, by the digest of the text that its proposal is
/// identified by.
pub fn deterministic_memory_id(digest: &str) -> (r: String)
    requires
        digest@.len() >= 24,
    ensures
        r@ == "memory-"@ + digest@.take(24),
{
    let cs = chars_of(digest);
    let start = text_of(&cs, 0, 24);
    assert(start@ =~= digest@.take(24));
    let mut r = "memory-".to_owned();
    r.append(start.as_str());
    r
}

/// The memory that a proposal makes.
pub open spec fn proposed_entry(p: MemoryProposalView, id: Seq<char>) -> KnowledgeEntryView {
    KnowledgeEntryView {
        memory_entry_id: id,
        namespace: p.namespace,
        memory_type: p.memory_type,
        owner_scope: p.owner_scope,
        visibility_scopes: p.visibility_scopes,
        summary: p.summary,
        content_ref: p.content_ref,
        source_refs: p.source_refs,
        provenance: p.provenance,
        trust: p.trust,
        retention: p.retention,
        status: MemoryStatus::Active,
        version: 1,
    }
}

fn make_entry(p: &MemoryProposal, id: &str) -> (r: KnowledgeEntry)
    ensures
        r.deep_view() == proposed_entry(p.deep_view(), id@),
{
    KnowledgeEntry {
        memory_entry_id: id.to_owned(),
        namespace: p.namespace.clone(),
        memory_type: p.memory_type.clone(),
        owner_scope: p.owner_scope.replicate(),
        visibility_scopes: p.visibility_scopes.replicate(),
        summary: p.summary.clone(),
        content_ref: p.content_ref.replicate(),
        source_refs: p.source_refs.replicate(),
        provenance: p.provenance.replicate(),
        trust: p.trust.clone(),
        retention: p.retention.clone(),
        status: MemoryStatus::Active,
        version: 1,
    }
}

// ---------------------------------------------------------------------------
// The store
// ---------------------------------------------------------------------------

/// The memories that are kept, by their ids; why some no longer count; and the
/// events, by their numbers.
pub struct GenericMemoryStore {
    pub entries: Vec<StoredEntry>,
    pub tombstones: Vec<Tombstone>,
    pub outbox: Vec<OutboxEvent>,
}

/// What a store is.
#[verifier::ext_equal]
pub struct GenericMemoryStoreView {
    pub entries: Seq<StoredEntryView>,
    pub tombstones: Seq<TombstoneView>,
    pub outbox: Seq<OutboxEventView>,
}

impl DeepView for GenericMemoryStore {
    type V = GenericMemoryStoreView;

    open spec fn deep_view(&self) -> GenericMemoryStoreView {
        GenericMemoryStoreView {
            entries: self.entries.deep_view(),
            tombstones: self.tombstones.deep_view(),
            outbox: self.outbox.deep_view(),
        }
    }
}

impl GenericMemoryStoreView {
    /// The memories stand in the order of their ids, each id once, and the
    /// events are numbered from 1.
    pub open spec fn wf(self) -> bool {
        &&& ascending::<StoredEntry>(self.entries)
        &&& forall|i: int|
            0 <= i < self.outbox.len() ==> (#[trigger] self.outbox[i]).sequence == i + 1
    }
}

/// The event that tells of a memory.
pub open spec fn event_of(
    e: KnowledgeEntryView,
    event_type: Seq<char>,
    reason: Option<Seq<char>>,
    sequence: u64,
    now: i64,
) -> OutboxEventView {
    OutboxEventView {
        event_id: "memory-outbox-"@ + e.memory_entry_id + "-"@ + decimal(e.version as nat),
        aggregate_id: e.memory_entry_id,
        event_type,
        sequence,
        entry: e,
        reason,
        created_at: now,
        published_at: None,
    }
}

/// Where a memory stands that was proposed under the key.
pub open spec fn proposed_index(s: Seq<StoredEntryView>, key: Seq<char>) -> Option<int> {
    first_index(s, |x: StoredEntryView| x.idempotency_key == key)
}

/// The store after a proposal that nothing is wrong with, and the memory that
/// came of it: a proposal that comes again changes nothing.
pub open spec fn submitted(
    s: GenericMemoryStoreView,
    p: MemoryProposalView,
    id: Seq<char>,
    now: i64,
) -> Result<(GenericMemoryStoreView, KnowledgeEntryView), KnowledgeErrorView> {
    match proposed_index(s.entries, p.idempotency_key) {
        Some(i) => Ok((s, s.entries[i].entry)),
        None => if keyed_index::<StoredEntry>(s.entries, id) is Some {
            Err(
                KnowledgeErrorView::Storage(
                    "UNIQUE constraint failed: memory_entries.memory_entry_id"@,
                ),
            )
        } else {
            let entry = proposed_entry(p, id);
            let kept = StoredEntryView {
                entry: KnowledgeEntryView {
                    visibility_scopes: scopes_in_order(entry.visibility_scopes),
                    ..entry
                },
                idempotency_key: p.idempotency_key,
                created_at: now,
                updated_at: now,
            };
            Ok(
                (
                    GenericMemoryStoreView {
                        entries: keyed_inserted::<StoredEntry>(s.entries, kept),
                        outbox: s.outbox.push(
                            event_of(
                                entry,
                                "memory_committed"@,
                                None,
                                (s.outbox.len() + 1) as u64,
                                now,
                            ),
                        ),
                        ..s
                    },
                    entry,
                ),
            )
        },
    }
}

/// The store after a memory was replaced, and that memory.
pub open spec fn superseded_in(
    s: GenericMemoryStoreView,
    id: Seq<char>,
    expected: u64,
    reason: Seq<char>,
    now: i64,
) -> Result<(GenericMemoryStoreView, KnowledgeEntryView), KnowledgeErrorView> {
    if trimmed(id).len() == 0 || trimmed(reason).len() == 0 {
        Err(
            KnowledgeErrorView::InvalidInput(
                "memory entry id and supersede reason are required"@,
            ),
        )
    } else {
        match keyed_index::<StoredEntry>(s.entries, id) {
            None => Err(KnowledgeErrorView::InvalidInput("unknown memory: "@ + id)),
            Some(i) => if s.entries[i].entry.version != expected {
                Err(
                    KnowledgeErrorView::StaleRevision {
                        record_id: id,
                        expected,
                        actual: s.entries[i].entry.version,
                    },
                )
            } else {
                let entry = KnowledgeEntryView {
                    status: MemoryStatus::Superseded,
                    version: (expected + 1) as u64,
                    ..s.entries[i].entry
                };
                Ok(
                    (
                        GenericMemoryStoreView {
                            entries: s.entries.update(
                                i,
                                StoredEntryView { entry, updated_at: now, ..s.entries[i] },
                            ),
                            tombstones: s.tombstones.push(
                                TombstoneView {
                                    memory_entry_id: id,
                                    version: entry.version,
                                    reason,
                                    created_at: now,
                                },
                            ),
                            outbox: s.outbox.push(
                                event_of(
                                    entry,
                                    "memory_superseded"@,
                                    Some(reason),
                                    (s.outbox.len() + 1) as u64,
                                    now,
                                ),
                            ),
                        },
                        entry,
                    ),
                )
            },
        }
    }
}

/// Where the event with the id stands that nobody has heard yet.
pub open spec fn pending_index(s: Seq<OutboxEventView>, id: Seq<char>) -> Option<int> {
    first_index(s, |e: OutboxEventView| e.event_id == id && e.published_at is None)
}

fn make_event(
    e: &KnowledgeEntry,
    event_type: &str,
    reason: Option<&str>,
    sequence: u64,
    now: i64,
) -> (r: OutboxEvent)
    ensures
        r.deep_view() == event_of(
            e.deep_view(),
            event_type@,
            reason.deep_view(),
            sequence,
            now,
        ),
{
    let mut event_id = "memory-outbox-".to_owned();
    event_id.append(e.memory_entry_id.as_str());
    event_id.append("-");
    let n = number(e.version);
    event_id.append(n.as_str());
    let why: Option<String> = match reason {
        Some(s) => Some(s.to_owned()),
        None => None,
    };
    OutboxEvent {
        event_id,
        aggregate_id: e.memory_entry_id.clone(),
        event_type: event_type.to_owned(),
        sequence,
        entry: e.replicate(),
        reason: why,
        created_at: now,
        published_at: None,
    }
}

impl GenericMemoryStore {
    /// A store with nothing in it yet.
    pub fn new() -> (r: Self)
        ensures
            r.deep_view() == (GenericMemoryStoreView {
                entries: Seq::empty(),
                tombstones: Seq::empty(),
                outbox: Seq::empty(),
            }),
            r.deep_view().wf(),
    {
        GenericMemoryStore { entries: no_items(), tombstones: no_items(), outbox: no_items() }
    }

    /// Keeps a memory that is proposed, under the id that was made for it;
    /// `schema` says what the schema has against it. A proposal that comes
    /// again gives the memory that is there.
    pub fn submit(
        &mut self,
        proposal: &MemoryProposal,
        schema: Option<KnowledgeError>,
        id: &str,
        now: i64,
    ) -> (r: Result<KnowledgeEntry, KnowledgeError>)
        requires
            old(self).deep_view().wf(),
            old(self).outbox@.len() < usize::MAX,
        ensures
            final(self).deep_view().wf(),
            match proposal_problem(proposal.deep_view(), schema.deep_view()) {
                Some(e) => r is Err && r->Err_0.deep_view() == e && final(self).deep_view()
                    == old(self).deep_view(),
                None => match submitted(old(self).deep_view(), proposal.deep_view(), id@, now) {
                    Ok((s, entry)) => r is Ok && r->Ok_0.deep_view() == entry && final(
                        self).deep_view() == s,
                    Err(e) => r is Err && r->Err_0.deep_view() == e && final(self).deep_view()
                        == old(self).deep_view(),
                },
            },
    {
        if let Err(e) = validate_proposal(proposal, schema) {
            return Err(e);
        }
        let ghost before = self.deep_view();
        let known = |x: &StoredEntry| -> (r: bool)
            ensures r == (x.deep_view().idempotency_key == proposal.deep_view().idempotency_key)
        {
            same(x.idempotency_key.as_str(), proposal.idempotency_key.as_str())
        };
        let found = position(
            self.entries.as_slice(),
            known,
            Ghost(
                |x: StoredEntryView| x.idempotency_key == proposal.deep_view().idempotency_key,
            ),
        );
        if let Some(i) = found {
            assert(before.entries[i as int] == self.entries@[i as int].deep_view());
            return Ok(self.entries[i].entry.replicate());
        }
        if find_keyed(&self.entries, id).is_some() {
            return Err(
                KnowledgeError::Storage(
                    "UNIQUE constraint failed: memory_entries.memory_entry_id".to_owned(),
                ),
            );
        }
        let entry = make_entry(proposal, id);
        let mut kept = entry.replicate();
        kept.visibility_scopes = sort_scopes(&entry.visibility_scopes);
        let record = StoredEntry {
            entry: kept,
            idempotency_key: proposal.idempotency_key.clone(),
            created_at: now,
            updated_at: now,
        };
        let total: usize = self.outbox.len();
        let sequence: u64 = (total + 1) as u64;
        let event = make_event(&entry, "memory_committed", None, sequence, now);
        proof {
            law_insert_keeps_order::<StoredEntry>(before.entries, record.deep_view());
            assert(before.outbox.len() == total);
        }
        insert_keyed(&mut self.entries, record);
        push_one(&mut self.outbox, event);
        Ok(entry)
    }

    /// Marks a memory as replaced, where it still has the version that is
    /// expected.
    pub fn supersede(
        &mut self,
        memory_entry_id: &str,
        expected_version: u64,
        reason: &str,
        now: i64,
    ) -> (r: Result<KnowledgeEntry, KnowledgeError>)
        requires
            old(self).deep_view().wf(),
            old(self).outbox@.len() < usize::MAX,
            expected_version < u64::MAX,
        ensures
            final(self).deep_view().wf(),
            match superseded_in(
                old(self).deep_view(),
                memory_entry_id@,
                expected_version,
                reason@,
                now,
            ) {
                Ok((s, entry)) => r is Ok && r->Ok_0.deep_view() == entry && final(
                    self).deep_view() == s,
                Err(e) => r is Err && r->Err_0.deep_view() == e && final(self).deep_view() == old(
                    self).deep_view(),
            },
    {
        if is_blank(memory_entry_id) || is_blank(reason) {
            return Err(
                KnowledgeError::InvalidInput(
                    "memory entry id and supersede reason are required".to_owned(),
                ),
            );
        }
        let ghost before = self.deep_view();
        let i: usize = match find_keyed(&self.entries, memory_entry_id) {
            Some(i) => i,
            None => {
                let mut text = "unknown memory: ".to_owned();
                text.append(memory_entry_id);
                return Err(KnowledgeError::InvalidInput(text));
            },
        };
        assert(before.entries[i as int] == self.entries@[i as int].deep_view());
        let actual: u64 = self.entries[i].entry.version;
        if actual != expected_version {
            return Err(
                KnowledgeError::StaleRevision {
                    record_id: memory_entry_id.to_owned(),
                    expected: expected_version,
                    actual,
                },
            );
        }
        let mut record = self.entries[i].replicate();
        record.entry.status = MemoryStatus::Superseded;
        record.entry.version = expected_version + 1;
        record.updated_at = now;
        let entry = record.entry.replicate();
        let total: usize = self.outbox.len();
        let sequence: u64 = (total + 1) as u64;
        let event = make_event(&entry, "memory_superseded", Some(reason), sequence, now);
        let tombstone = Tombstone {
            memory_entry_id: memory_entry_id.to_owned(),
            version: entry.version,
            reason: reason.to_owned(),
            created_at: now,
        };
        self.entries.set(i, record);
        push_one(&mut self.tombstones, tombstone);
        push_one(&mut self.outbox, event);
        proof {
            let expected = superseded_in(
                before,
                memory_entry_id@,
                expected_version,
                reason@,
                now,
            )->Ok_0;
            assert(before.outbox.len() == total);
            assert(entry.deep_view() =~= expected.1);
            assert(self.entries.deep_view() =~= expected.0.entries);
            assert forall|a: int, b: int| 0 <= a < b < expected.0.entries.len() implies text_less(
                StoredEntry::key_of(#[trigger] expected.0.entries[a]),
                StoredEntry::key_of(#[trigger] expected.0.entries[b]),
            ) by {
                assert(text_less(
                    StoredEntry::key_of(before.entries[a]),
                    StoredEntry::key_of(before.entries[b]),
                ));
            }
        }
        Ok(entry)
    }

    /// The events that nobody has heard yet, the oldest first.
    pub fn pending_outbox(&self, limit: usize) -> (r: Result<Vec<OutboxEvent>, KnowledgeError>)
        ensures
            if limit == 0 {
                r is Err && r->Err_0.deep_view() == KnowledgeErrorView::InvalidInput(
                    "outbox limit must be positive"@,
                )
            } else {
                r is Ok && r->Ok_0.deep_view() == pending_in(
                    self.deep_view().outbox,
                    limit as nat,
                )
            },
    {
        if limit == 0 {
            return Err(KnowledgeError::InvalidInput("outbox limit must be positive".to_owned()));
        }
        let f = |e: &OutboxEvent| -> (r: bool)
            ensures r == (e.deep_view().published_at is None)
        {
            e.published_at.is_none()
        };
        let pending = filter_each(
            self.outbox.as_slice(),
            f,
            Ghost(|e: OutboxEventView| e.published_at is None),
        );
        Ok(first_items(pending.as_slice(), limit))
    }

    /// Marks an event as heard; says whether it was waiting.
    pub fn acknowledge_outbox(&mut self, event_id: &str, now: i64) -> (r: bool)
        requires
            old(self).deep_view().wf(),
        ensures
            final(self).deep_view().wf(),
            (final(self).deep_view(), r) == acknowledged(old(self).deep_view(), event_id@, now),
    {
        let ghost before = self.deep_view();
        let f = |e: &OutboxEvent| -> (r: bool)
            ensures r == (e.deep_view().event_id == event_id@ && e.deep_view().published_at is None)
        {
            same(e.event_id.as_str(), event_id) && e.published_at.is_none()
        };
        let found = position(
            self.outbox.as_slice(),
            f,
            Ghost(|e: OutboxEventView| e.event_id == event_id@ && e.published_at is None),
        );
        match found {
            Some(i) => {
                assert(before.outbox[i as int] == self.outbox@[i as int].deep_view());
                let mut e = self.outbox[i].replicate();
                e.published_at = Some(now);
                self.outbox.set(i, e);
                assert(e.deep_view() =~= (OutboxEventView {
                    published_at: Some(now),
                    ..before.outbox[i as int]
                }));
                assert(self.outbox.deep_view() =~= before.outbox.update(
                    i as int,
                    e.deep_view(),
                ));
                true
            },
            None => false,
        }
    }
}

// ---------------------------------------------------------------------------
// Queries
// ---------------------------------------------------------------------------

/// The oldest events that nobody has heard yet, up to `limit`.
pub open spec fn pending_in(outbox: Seq<OutboxEventView>, limit: nat) -> Seq<OutboxEventView> {
    at_most(outbox.filter(|e: OutboxEventView| e.published_at is None), limit)
}

/// The store after an event was heard, and whether it was waiting.
pub open spec fn acknowledged(s: GenericMemoryStoreView, id: Seq<char>, now: i64) -> (
    GenericMemoryStoreView,
    bool,
) {
    match pending_index(s.outbox, id) {
        Some(i) => (
            GenericMemoryStoreView {
                outbox: s.outbox.update(
                    i,
                    OutboxEventView { published_at: Some(now), ..s.outbox[i] },
                ),
                ..s
            },
            true,
        ),
        None => (s, false),
    }
}

/// The terms of a query, in small letters and without the white space around
/// them; blank ones do not count.
pub open spec fn terms_of(terms: Seq<Seq<char>>) -> Seq<Seq<char>> {
    terms.map_values(|t: Seq<char>| lowercase_of(trimmed(t))).filter(|t: Seq<char>| t.len() > 0)
}

/// A memory is what a query looks for.
pub open spec fn answers(e: KnowledgeEntryView, q: MemoryQueryView) -> bool {
    &&& q.namespaces.len() == 0 || q.namespaces.contains(e.namespace)
    &&& q.memory_types.len() == 0 || q.memory_types.contains(e.memory_type)
    &&& some_is(e.visibility_scopes, |s: ScopeRefView| q.authorized_scopes.contains(s))
    &&& terms_of(q.terms).len() == 0 || some_is(
        terms_of(q.terms),
        |t: Seq<char>| has_text(lowercase_of(e.summary), t),
    )
}

/// The memories of the tenant that count.
pub open spec fn active_of(s: Seq<StoredEntryView>, tenant: Seq<char>) -> Seq<StoredEntryView> {
    s.filter(
        |x: StoredEntryView|
            x.entry.owner_scope.tenant_id == tenant && x.entry.status == MemoryStatus::Active,
    )
}

/// What is wrong with a query.
pub open spec fn query_problem(q: MemoryQueryView) -> Option<KnowledgeErrorView> {
    if q.limit == 0 || q.authorized_scopes.len() == 0 {
        Some(
            KnowledgeErrorView::InvalidInput(
                "memory query requires scopes and a positive limit"@,
            ),
        )
    } else if some_is(q.authorized_scopes, |s: ScopeRefView| s.tenant_id != q.tenant_id) {
        Some(
            KnowledgeErrorView::Unauthorized(
                "query scope tenant does not match requested tenant"@,
            ),
        )
    } else {
        None
    }
}

/// What a query finds among the memories that count, taken in an order.
pub open spec fn found_in(
    active: Seq<StoredEntryView>,
    order: Seq<usize>,
    q: MemoryQueryView,
) -> MemoryQueryResultView {
    let hits = reordered(active, order).map_values(|x: StoredEntryView| x.entry).filter(
        |e: KnowledgeEntryView| answers(e, q),
    );
    MemoryQueryResultView {
        entries: at_most(hits, q.limit as nat),
        scanned: active.len() as usize,
        truncated: hits.len() > q.limit,
    }
}

/// What a query finds: the memory changed last first, and of those changed at
/// one time in the order of their ids.
pub open spec fn is_answer(
    s: Seq<StoredEntryView>,
    q: MemoryQueryView,
    r: MemoryQueryResultView,
) -> bool {
    let active = active_of(s, q.tenant_id);
    exists|order: Seq<usize>|
        #![trigger reordered(active, order)]
        stably_ordered(active.map_values(|x: StoredEntryView| x.updated_at), true, order) && r
            == found_in(active, order, q)
}

fn find_terms(terms: &Vec<String>) -> (r: Vec<String>)
    ensures
        r.deep_view() == terms_of(terms.deep_view()),
{
    let f = |t: &String| -> (r: String)
        ensures r@ == lowercase_of(trimmed(t@))
    {
        let s = trim(t.as_str());
        s.as_str().to_lowercase()
    };
    let low = map_each(
        terms.as_slice(),
        f,
        Ghost(|t: Seq<char>| lowercase_of(trimmed(t))),
    );
    let f = |t: &String| -> (r: bool)
        ensures r == (t@.len() > 0)
    {
        !t.as_str().is_empty()
    };
    filter_each(low.as_slice(), f, Ghost(|t: Seq<char>| t.len() > 0))
}

fn has_scope(items: &Vec<ScopeRef>, x: &ScopeRef) -> (r: bool)
    ensures
        r == items.deep_view().contains(x.deep_view()),
{
    let f = |s: &ScopeRef| -> (r: bool)
        ensures r == (s.deep_view() == x.deep_view())
    {
        same_scope(s, x)
    };
    any_is(items.as_slice(), f, Ghost(|s: ScopeRefView| s == x.deep_view()))
}

fn is_hit(e: &KnowledgeEntry, q: &MemoryQuery, terms: &Vec<String>) -> (r: bool)
    requires
        terms.deep_view() == terms_of(q.deep_view().terms),
    ensures
        r == answers(e.deep_view(), q.deep_view()),
{
    assert(q.namespaces.deep_view().len() == q.namespaces@.len());
    assert(q.memory_types.deep_view().len() == q.memory_types@.len());
    assert(terms.deep_view().len() == terms@.len());
    if q.namespaces.len() > 0 && !has_string(&q.namespaces, e.namespace.as_str()) {
        return false;
    }
    if q.memory_types.len() > 0 && !has_string(&q.memory_types, e.memory_type.as_str()) {
        return false;
    }
    let f = |s: &ScopeRef| -> (r: bool)
        ensures r == q.deep_view().authorized_scopes.contains(s.deep_view())
    {
        has_scope(&q.authorized_scopes, s)
    };
    if !any_is(
        e.visibility_scopes.as_slice(),
        f,
        Ghost(|s: ScopeRefView| q.deep_view().authorized_scopes.contains(s)),
    ) {
        return false;
    }
    if terms.len() == 0 {
        return true;
    }
    let summary = e.summary.as_str().to_lowercase();
    let f = |t: &String| -> (r: bool)
        ensures r == has_text(lowercase_of(e.deep_view().summary), t@)
    {
        contains(summary.as_str(), t.as_str())
    };
    any_is(
        terms.as_slice(),
        f,
        Ghost(|t: Seq<char>| has_text(lowercase_of(e.deep_view().summary), t)),
    )
}

impl GenericMemoryStore {
    /// What a query finds.
    pub fn query(&self, query: &MemoryQuery) -> (r: Result<MemoryQueryResult, KnowledgeError>)
        ensures
            match query_problem(query.deep_view()) {
                Some(e) => r is Err && r->Err_0.deep_view() == e,
                None => r is Ok && is_answer(
                    self.deep_view().entries,
                    query.deep_view(),
                    r->Ok_0.deep_view(),
                ),
            },
    {
        assert(query.authorized_scopes.deep_view().len() == query.authorized_scopes@.len());
        if query.limit == 0 || query.authorized_scopes.len() == 0 {
            return Err(
                KnowledgeError::InvalidInput(
                    "memory query requires scopes and a positive limit".to_owned(),
                ),
            );
        }
        let f = |s: &ScopeRef| -> (r: bool)
            ensures r == (s.deep_view().tenant_id != query.deep_view().tenant_id)
        {
            !same(s.tenant_id.as_str(), query.tenant_id.as_str())
        };
        if any_is(
            query.authorized_scopes.as_slice(),
            f,
            Ghost(|s: ScopeRefView| s.tenant_id != query.deep_view().tenant_id),
        ) {
            return Err(
                KnowledgeError::Unauthorized(
                    "query scope tenant does not match requested tenant".to_owned(),
                ),
            );
        }
        let ghost q = query.deep_view();
        let f = |x: &StoredEntry| -> (r: bool)
            ensures
                r == (x.deep_view().entry.owner_scope.tenant_id == query.deep_view().tenant_id
                    && x.deep_view().entry.status == MemoryStatus::Active)
        {
            same(x.entry.owner_scope.tenant_id.as_str(), query.tenant_id.as_str())
                && x.entry.status == MemoryStatus::Active
        };
        let active = filter_each(
            self.entries.as_slice(),
            f,
            Ghost(
                |x: StoredEntryView|
                    x.entry.owner_scope.tenant_id == q.tenant_id && x.entry.status
                        == MemoryStatus::Active,
            ),
        );
        let ghost all = active.deep_view();
        assert(all == active_of(self.deep_view().entries, q.tenant_id));
        let f = |x: &StoredEntry| -> (r: i64)
            ensures r == x.deep_view().updated_at
        {
            x.updated_at
        };
        let keys = map_each(active.as_slice(), f, Ghost(|x: StoredEntryView| x.updated_at));
        assert(keys@ =~= keys.deep_view());
        let order = stable_order(&keys, true);
        let items = active.as_slice();
        assert(items.deep_view() =~= all);
        let sorted = reorder(items, &order);
        let f = |x: &StoredEntry| -> (r: KnowledgeEntry)
            ensures r.deep_view() == x.deep_view().entry
        {
            x.entry.replicate()
        };
        let entries = map_each(sorted.as_slice(), f, Ghost(|x: StoredEntryView| x.entry));
        let terms = find_terms(&query.terms);
        let f = |e: &KnowledgeEntry| -> (r: bool)
            ensures r == answers(e.deep_view(), query.deep_view())
        {
            is_hit(e, query, &terms)
        };
        let hits = filter_each(
            entries.as_slice(),
            f,
            Ghost(|e: KnowledgeEntryView| answers(e, q)),
        );
        let scanned: usize = active.len();
        assert(hits.deep_view().len() == hits@.len());
        assert(all.len() == scanned);
        let r = MemoryQueryResult {
            entries: first_items(hits.as_slice(), query.limit),
            scanned,
            truncated: hits.len() > query.limit,
        };
        assert(r.deep_view() == found_in(all, order@, q));
        Ok(r)
    }
}

// ---------------------------------------------------------------------------
// Laws
// ---------------------------------------------------------------------------

pub(crate) proof fn lemma_inserted_has<T: Keyed>(s: Seq<T::V>, x: T::V) -> (i: int)
    ensures
        0 <= i < keyed_inserted::<T>(s, x).len(),
        keyed_inserted::<T>(s, x)[i] == x,
    decreases s.len(),
{
    if s.len() > 0 && text_less(T::key_of(x), T::key_of(s.last())) {
        let i = lemma_inserted_has::<T>(s.drop_last(), x);
        assert(keyed_inserted::<T>(s, x)[i] == keyed_inserted::<T>(s.drop_last(), x)[i]);
        i
    } else {
        s.len() as int
    }
}

/// A proposal that was kept and comes again, under any id, changes nothing and
/// gives a memory that was proposed under its key.
pub proof fn law_submitting_again_changes_nothing(
    s: GenericMemoryStoreView,
    p: MemoryProposalView,
    id: Seq<char>,
    now: i64,
    again: MemoryProposalView,
    other: Seq<char>,
    later: i64,
)
    requires
        submitted(s, p, id, now) is Ok,
        again.idempotency_key == p.idempotency_key,
    ensures
        ({
            let after = submitted(s, p, id, now)->Ok_0.0;
            let second = submitted(after, again, other, later);
            &&& second is Ok
            &&& second->Ok_0.0 == after
            &&& exists|i: int|
                0 <= i < after.entries.len() && (#[trigger] after.entries[i]).idempotency_key
                    == p.idempotency_key && second->Ok_0.1 == after.entries[i].entry
        }),
{
    let after = submitted(s, p, id, now)->Ok_0.0;
    let q = |x: StoredEntryView| x.idempotency_key == p.idempotency_key;
    lemma_first_index(s.entries, q);
    lemma_first_index(after.entries, q);
    if proposed_index(s.entries, p.idempotency_key) is None {
        let entry = proposed_entry(p, id);
        let kept = StoredEntryView {
            entry: KnowledgeEntryView {
                visibility_scopes: scopes_in_order(entry.visibility_scopes),
                ..entry
            },
            idempotency_key: p.idempotency_key,
            created_at: now,
            updated_at: now,
        };
        let i = lemma_inserted_has::<StoredEntry>(s.entries, kept);
        assert(q(after.entries[i]));
    }
    let k = proposed_index(after.entries, again.idempotency_key);
    assert(k is Some);
    assert(q(after.entries[k->0]));
}

/// A memory can be replaced once at a version: with the version that it had,
/// it is stale afterwards, and nothing changes.
pub proof fn law_superseding_again_is_stale(
    s: GenericMemoryStoreView,
    id: Seq<char>,
    expected: u64,
    reason: Seq<char>,
    now: i64,
    later: i64,
)
    requires
        expected < u64::MAX,
        superseded_in(s, id, expected, reason, now) is Ok,
    ensures
        ({
            let after = superseded_in(s, id, expected, reason, now)->Ok_0.0;
            superseded_in(after, id, expected, reason, later) == Err::<
                (GenericMemoryStoreView, KnowledgeEntryView),
                KnowledgeErrorView,
            >(
                KnowledgeErrorView::StaleRevision {
                    record_id: id,
                    expected,
                    actual: (expected + 1) as u64,
                },
            )
        }),
{
    let after = superseded_in(s, id, expected, reason, now)->Ok_0.0;
    let q = crate::keyed::with_key::<StoredEntry>(id);
    lemma_first_index(s.entries, q);
    let i = keyed_index::<StoredEntry>(s.entries, id)->0;
    assert(q(s.entries[i]));
    assert forall|k: int| 0 <= k < i implies !q(#[trigger] after.entries[k]) by {
        assert(!q(s.entries[k]));
    }
    lemma_first_index_some(after.entries, q, i);
}

/// A query gives at most as many memories as it asks for, and each is one of
/// the tenant's that counts and that one of its scopes may see.
pub proof fn law_query_gives_what_may_be_seen(
    s: Seq<StoredEntryView>,
    q: MemoryQueryView,
    r: MemoryQueryResultView,
)
    requires
        is_answer(s, q, r),
    ensures
        r.entries.len() <= q.limit,
        forall|i: int|
            0 <= i < r.entries.len() ==> {
                let e = #[trigger] r.entries[i];
                &&& e.owner_scope.tenant_id == q.tenant_id
                &&& e.status == MemoryStatus::Active
                &&& some_is(e.visibility_scopes, |x: ScopeRefView| q.authorized_scopes.contains(x))
            },
{
    let active = active_of(s, q.tenant_id);
    let order = choose|order: Seq<usize>|
        #![trigger reordered(active, order)]
        stably_ordered(active.map_values(|x: StoredEntryView| x.updated_at), true, order) && r
            == found_in(active, order, q);
    let entries = reordered(active, order).map_values(|x: StoredEntryView| x.entry);
    let p = |e: KnowledgeEntryView| answers(e, q);
    let a = |x: StoredEntryView|
        x.entry.owner_scope.tenant_id == q.tenant_id && x.entry.status == MemoryStatus::Active;
    let hits = entries.filter(p);
    assert forall|i: int| 0 <= i < r.entries.len() implies {
        let e = #[trigger] r.entries[i];
        &&& e.owner_scope.tenant_id == q.tenant_id
        &&& e.status == MemoryStatus::Active
        &&& some_is(e.visibility_scopes, |x: ScopeRefView| q.authorized_scopes.contains(x))
    } by {
        let e = r.entries[i];
        assert(e == hits[i]);
        let k = lemma_filter_from(entries, p, i);
        assert(p(e));
        let x = active[order[k] as int];
        assert(e == x.entry);
        let j = lemma_filter_from(s, a, order[k] as int);
        assert(a(x));
    }
}

} // verus!
