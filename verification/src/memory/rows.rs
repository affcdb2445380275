//! The rows of a table in which memories are kept.

use crate::json::{json_of_text, reads_back, text_of_json, Json, JsonView, DEEPEST};
use crate::memory::generic::{
    scope_inserted, scope_less, scopes_in_order, sort_scopes, ContentRef, ContentRefView,
    KnowledgeEntry, KnowledgeEntryView, KnowledgeError, KnowledgeErrorView, MemoryStatus, ScopeRef,
    ScopeRefView, SourceRef, SourceRefView,
};
use crate::order::{
    lemma_text_less_irreflexive, lemma_text_less_total, lemma_text_less_transitive, text_less,
};
use crate::replicate::Replicate;
use crate::text::same;
use crate::walk::{filter_each, map_each};
use vstd::prelude::*;

verus! {

/// The row of a memory.
#[derive(Debug, PartialEq)]
pub struct EntryRow {
    pub tenant_id: String,
    pub namespace: String,
    pub memory_type: String,
    pub owner_scope_type: String,
    pub owner_scope_key: String,
    pub summary: String,
    pub content_provider: Option<String>,
    pub content_resource_id: Option<String>,
    pub content_version: Option<String>,
    pub content_hash: Option<String>,
    pub provenance_json: String,
    /// The trust as JSON text.
    pub trust: String,
    /// The retention as JSON text.
    pub retention: String,
    pub status: String,
    pub version: u64,
}

/// What such a row is.
#[verifier::ext_equal]
pub struct EntryRowView {
    pub tenant_id: Seq<char>,
    pub namespace: Seq<char>,
    pub memory_type: Seq<char>,
    pub owner_scope_type: Seq<char>,
    pub owner_scope_key: Seq<char>,
    pub summary: Seq<char>,
    pub content_provider: Option<Seq<char>>,
    pub content_resource_id: Option<Seq<char>>,
    pub content_version: Option<Seq<char>>,
    pub content_hash: Option<Seq<char>>,
    pub provenance_json: Seq<char>,
    pub trust: Seq<char>,
    pub retention: Seq<char>,
    pub status: Seq<char>,
    pub version: u64,
}

impl DeepView for EntryRow {
    type V = EntryRowView;

    open spec fn deep_view(&self) -> EntryRowView {
        EntryRowView {
            tenant_id: self.tenant_id@,
            namespace: self.namespace@,
            memory_type: self.memory_type@,
            owner_scope_type: self.owner_scope_type@,
            owner_scope_key: self.owner_scope_key@,
            summary: self.summary@,
            content_provider: self.content_provider.deep_view(),
            content_resource_id: self.content_resource_id.deep_view(),
            content_version: self.content_version.deep_view(),
            content_hash: self.content_hash.deep_view(),
            provenance_json: self.provenance_json@,
            trust: self.trust@,
            retention: self.retention@,
            status: self.status@,
            version: self.version,
        }
    }
}

impl Replicate for EntryRow {
    fn replicate(&self) -> (r: Self) {
        EntryRow {
            tenant_id: self.tenant_id.clone(),
            namespace: self.namespace.clone(),
            memory_type: self.memory_type.clone(),
            owner_scope_type: self.owner_scope_type.clone(),
            owner_scope_key: self.owner_scope_key.clone(),
            summary: self.summary.clone(),
            content_provider: self.content_provider.replicate(),
            content_resource_id: self.content_resource_id.replicate(),
            content_version: self.content_version.replicate(),
            content_hash: self.content_hash.replicate(),
            provenance_json: self.provenance_json.clone(),
            trust: self.trust.clone(),
            retention: self.retention.clone(),
            status: self.status.clone(),
            version: self.version,
        }
    }
}

/// The row of a scope of a memory.
#[derive(Debug, PartialEq)]
pub struct ScopeRow {
    /// Whether the scope owns the memory or may see it.
    pub role: String,
    pub scope: ScopeRef,
}

/// What such a row is.
#[verifier::ext_equal]
pub struct ScopeRowView {
    pub role: Seq<char>,
    pub scope: ScopeRefView,
}

impl DeepView for ScopeRow {
    type V = ScopeRowView;

    open spec fn deep_view(&self) -> ScopeRowView {
        ScopeRowView {
            role: self.role@,
            scope: self.scope.deep_view(),
        }
    }
}

impl Replicate for ScopeRow {
    fn replicate(&self) -> (r: Self) {
        ScopeRow {
            role: self.role.clone(),
            scope: self.scope.replicate(),
        }
    }
}

/// How a status is written.
pub open spec fn status_word(s: MemoryStatus) -> Seq<char> {
    match s {
        MemoryStatus::Active => "active"@,
        MemoryStatus::Superseded => "superseded"@,
        MemoryStatus::Tombstoned => "tombstoned"@,
    }
}

/// The status that a word stands for.
pub open spec fn status_of_word(word: Seq<char>) -> Option<MemoryStatus> {
    if word == "active"@ {
        Some(MemoryStatus::Active)
    } else if word == "superseded"@ {
        Some(MemoryStatus::Superseded)
    } else if word == "tombstoned"@ {
        Some(MemoryStatus::Tombstoned)
    } else {
        None
    }
}

/// A status is read back from its word.
pub proof fn law_status_is_read_back(s: MemoryStatus)
    ensures
        status_of_word(status_word(s)) == Some(s),
{
    reveal_strlit("active");
    reveal_strlit("superseded");
    reveal_strlit("tombstoned");
    assert("active"@[0] != "superseded"@[0]);
    assert("active"@[0] != "tombstoned"@[0]);
    assert("superseded"@[0] != "tombstoned"@[0]);
}

/// How a status is written.
pub fn write_status(s: MemoryStatus) -> (r: &'static str)
    ensures
        r@ == status_word(s),
{
    match s {
        MemoryStatus::Active => "active",
        MemoryStatus::Superseded => "superseded",
        MemoryStatus::Tombstoned => "tombstoned",
    }
}

/// The status that a word stands for.
pub fn read_status(word: &str) -> (r: Option<MemoryStatus>)
    ensures
        r == status_of_word(word@),
{
    if same(word, "active") {
        Some(MemoryStatus::Active)
    } else if same(word, "superseded") {
        Some(MemoryStatus::Superseded)
    } else if same(word, "tombstoned") {
        Some(MemoryStatus::Tombstoned)
    } else {
        None
    }
}

/// The row that a memory is kept in.
pub open spec fn row_of(e: KnowledgeEntryView) -> EntryRowView {
    EntryRowView {
        tenant_id: e.owner_scope.tenant_id,
        namespace: e.namespace,
        memory_type: e.memory_type,
        owner_scope_type: e.owner_scope.scope_type,
        owner_scope_key: e.owner_scope.scope_key,
        summary: e.summary,
        content_provider: match e.content_ref {
            Some(c) => Some(c.provider),
            None => None,
        },
        content_resource_id: match e.content_ref {
            Some(c) => Some(c.resource_id),
            None => None,
        },
        content_version: match e.content_ref {
            Some(c) => c.version,
            None => None,
        },
        content_hash: match e.content_ref {
            Some(c) => Some(c.content_hash),
            None => None,
        },
        provenance_json: text_of_json(e.provenance),
        trust: text_of_json(JsonView::Str(e.trust)),
        retention: text_of_json(JsonView::Str(e.retention)),
        status: status_word(e.status),
        version: e.version,
    }
}

/// Where the content is that a row points to: it takes a provider, a resource
/// and a hash.
pub open spec fn content_of_row(row: EntryRowView) -> Option<ContentRefView> {
    match (row.content_provider, row.content_resource_id, row.content_hash) {
        (Some(provider), Some(resource_id), Some(content_hash)) => Some(
            ContentRefView {
                provider,
                resource_id,
                version: row.content_version,
                content_hash,
            },
        ),
        _ => None,
    }
}

/// The text that a field with JSON text stands for, as it was read.
pub open spec fn word_of(read: Result<JsonView, Seq<char>>) -> Result<Seq<char>, KnowledgeErrorView> {
    match read {
        Ok(JsonView::Str(s)) => Ok(s),
        Ok(_) => Err(KnowledgeErrorView::Storage("expected a string"@)),
        Err(e) => Err(KnowledgeErrorView::Storage(e)),
    }
}

/// The memory that a row stands for, with what its fields with JSON text were
/// read as, its scopes and its sources; or what is wrong with the row.
pub open spec fn entry_of_row(
    id: Seq<char>,
    row: EntryRowView,
    provenance: Result<JsonView, Seq<char>>,
    trust: Result<JsonView, Seq<char>>,
    retention: Result<JsonView, Seq<char>>,
    visibility_scopes: Seq<ScopeRefView>,
    source_refs: Seq<SourceRefView>,
) -> Result<KnowledgeEntryView, KnowledgeErrorView> {
    match provenance {
        Err(e) => Err(KnowledgeErrorView::Storage(e)),
        Ok(p) => match word_of(trust) {
            Err(e) => Err(e),
            Ok(t) => match word_of(retention) {
                Err(e) => Err(e),
                Ok(k) => match status_of_word(row.status) {
                    None => Err(
                        KnowledgeErrorView::Storage("unknown memory status: "@ + row.status),
                    ),
                    Some(status) => Ok(
                        KnowledgeEntryView {
                            memory_entry_id: id,
                            namespace: row.namespace,
                            memory_type: row.memory_type,
                            owner_scope: ScopeRefView {
                                tenant_id: row.tenant_id,
                                namespace: row.namespace,
                                scope_type: row.owner_scope_type,
                                scope_key: row.owner_scope_key,
                            },
                            visibility_scopes,
                            summary: row.summary,
                            content_ref: content_of_row(row),
                            source_refs,
                            provenance: p,
                            trust: t,
                            retention: k,
                            status,
                            version: row.version,
                        },
                    ),
                },
            },
        },
    }
}

/// A memory that is kept in a row is read back from it: where its owner is of its
/// namespace and the fields with JSON text are read as what was written.
pub proof fn law_row_is_read_back(e: KnowledgeEntryView)
    requires
        e.owner_scope.namespace == e.namespace,
    ensures
        entry_of_row(
            e.memory_entry_id,
            row_of(e),
            Ok(e.provenance),
            Ok(JsonView::Str(e.trust)),
            Ok(JsonView::Str(e.retention)),
            e.visibility_scopes,
            e.source_refs,
        ) == Ok::<KnowledgeEntryView, KnowledgeErrorView>(e),
{
    law_status_is_read_back(e.status);
}

/// The memory that a row with these texts stands for.
pub open spec fn loaded_entry(
    id: Seq<char>,
    row: EntryRowView,
    visibility_scopes: Seq<ScopeRefView>,
    source_refs: Seq<SourceRefView>,
) -> Result<KnowledgeEntryView, KnowledgeErrorView> {
    entry_of_row(
        id,
        row,
        json_of_text(row.provenance_json),
        json_of_text(row.trust),
        json_of_text(row.retention),
        visibility_scopes,
        source_refs,
    )
}

/// The row that a memory is kept in. The memory is read back from it, where its
/// owner is of its namespace and a text can stand for its provenance.
pub fn write_entry(e: &KnowledgeEntry) -> (r: EntryRow)
    ensures
        r.deep_view() == row_of(e.deep_view()),
        e.deep_view().owner_scope.namespace == e.deep_view().namespace && reads_back(
            e.deep_view().provenance,
            DEEPEST as nat,
        ) ==> loaded_entry(
            e.deep_view().memory_entry_id,
            r.deep_view(),
            e.deep_view().visibility_scopes,
            e.deep_view().source_refs,
        ) == Ok::<KnowledgeEntryView, KnowledgeErrorView>(e.deep_view()),
{
    let (provider, resource_id, version, hash) = match &e.content_ref {
        Some(c) => (
            Some(c.provider.clone()),
            Some(c.resource_id.clone()),
            c.version.replicate(),
            Some(c.content_hash.clone()),
        ),
        None => (None, None, None, None),
    };
    let trust = Json::Str(e.trust.clone());
    let retention = Json::Str(e.retention.clone());
    let r = EntryRow {
        tenant_id: e.owner_scope.tenant_id.clone(),
        namespace: e.namespace.clone(),
        memory_type: e.memory_type.clone(),
        owner_scope_type: e.owner_scope.scope_type.clone(),
        owner_scope_key: e.owner_scope.scope_key.clone(),
        summary: e.summary.clone(),
        content_provider: provider,
        content_resource_id: resource_id,
        content_version: version,
        content_hash: hash,
        provenance_json: e.provenance.to_text(),
        trust: trust.to_text(),
        retention: retention.to_text(),
        status: write_status(e.status).to_owned(),
        version: e.version,
    };
    assert(r.deep_view() =~= row_of(e.deep_view()));
    proof {
        if e.deep_view().owner_scope.namespace == e.deep_view().namespace {
            law_row_is_read_back(e.deep_view());
        }
    }
    r
}

fn read_word(read: Result<Json, String>) -> (r: Result<String, KnowledgeError>)
    ensures
        match word_of(
            match read {
                Ok(j) => Ok(j.deep_view()),
                Err(e) => Err(e@),
            },
        ) {
            Ok(s) => r is Ok && r->Ok_0@ == s,
            Err(e) => r is Err && r->Err_0.deep_view() == e,
        },
{
    match read {
        Ok(j) => match j.as_str() {
            Some(s) => Ok(s.to_owned()),
            None => Err(KnowledgeError::Storage("expected a string".to_owned())),
        },
        Err(e) => Err(KnowledgeError::Storage(e)),
    }
}

/// The memory that a row stands for, with what its fields with JSON text were
/// read as, its scopes and its sources; or what is wrong with the row.
pub fn take_entry(
    id: &str,
    row: EntryRow,
    provenance: Result<Json, String>,
    trust: Result<Json, String>,
    retention: Result<Json, String>,
    visibility_scopes: Vec<ScopeRef>,
    source_refs: Vec<SourceRef>,
) -> (r: Result<KnowledgeEntry, KnowledgeError>)
    ensures
        match entry_of_row(
            id@,
            row.deep_view(),
            match provenance {
                Ok(j) => Ok(j.deep_view()),
                Err(e) => Err(e@),
            },
            match trust {
                Ok(j) => Ok(j.deep_view()),
                Err(e) => Err(e@),
            },
            match retention {
                Ok(j) => Ok(j.deep_view()),
                Err(e) => Err(e@),
            },
            visibility_scopes.deep_view(),
            source_refs.deep_view(),
        ) {
            Ok(e) => r is Ok && r->Ok_0.deep_view() == e,
            Err(e) => r is Err && r->Err_0.deep_view() == e,
        },
{
    let provenance = match provenance {
        Ok(p) => p,
        Err(e) => {
            return Err(KnowledgeError::Storage(e));
        },
    };
    let trust = match read_word(trust) {
        Ok(t) => t,
        Err(e) => {
            return Err(e);
        },
    };
    let retention = match read_word(retention) {
        Ok(k) => k,
        Err(e) => {
            return Err(e);
        },
    };
    let status = match read_status(row.status.as_str()) {
        Some(s) => s,
        None => {
            let mut text = "unknown memory status: ".to_owned();
            text.append(row.status.as_str());
            return Err(KnowledgeError::Storage(text));
        },
    };
    let ghost v = row.deep_view();
    let content_ref = match (row.content_provider, row.content_resource_id, row.content_hash) {
        (Some(provider), Some(resource_id), Some(content_hash)) => Some(
            ContentRef { provider, resource_id, version: row.content_version, content_hash },
        ),
        _ => None,
    };
    assert(content_ref.deep_view() == content_of_row(v));
    Ok(
        KnowledgeEntry {
            memory_entry_id: id.to_owned(),
            namespace: row.namespace.clone(),
            memory_type: row.memory_type,
            owner_scope: ScopeRef {
                tenant_id: row.tenant_id,
                namespace: row.namespace,
                scope_type: row.owner_scope_type,
                scope_key: row.owner_scope_key,
            },
            visibility_scopes,
            summary: row.summary,
            content_ref,
            source_refs,
            provenance,
            trust,
            retention,
            status,
            version: row.version,
        },
    )
}

/// The memory that a row stands for, where there is one, with its scopes and
/// its sources; or what is wrong with the row.
pub fn load_entry(
    id: &str,
    row: Option<EntryRow>,
    visibility_scopes: Vec<ScopeRef>,
    source_refs: Vec<SourceRef>,
) -> (r: Result<Option<KnowledgeEntry>, KnowledgeError>)
    ensures
        match row {
            None => r is Ok && r->Ok_0 is None,
            Some(row) => match loaded_entry(
                id@,
                row.deep_view(),
                visibility_scopes.deep_view(),
                source_refs.deep_view(),
            ) {
                Ok(e) => r is Ok && r->Ok_0.deep_view() == Some(e),
                Err(e) => r is Err && r->Err_0.deep_view() == e,
            },
        },
{
    let row = match row {
        Some(row) => row,
        None => {
            return Ok(None);
        },
    };
    let provenance = Json::parse(row.provenance_json.as_str());
    let trust = Json::parse(row.trust.as_str());
    let retention = Json::parse(row.retention.as_str());
    match take_entry(id, row, provenance, trust, retention, visibility_scopes, source_refs) {
        Ok(e) => Ok(Some(e)),
        Err(e) => Err(e),
    }
}

/// The rows of the scopes of a memory: its owner, and those that may see it.
pub open spec fn scope_rows_of(e: KnowledgeEntryView) -> Seq<ScopeRowView> {
    seq![ScopeRowView { role: "owner"@, scope: e.owner_scope }]
        + scopes_in_order(e.visibility_scopes).map_values(
        |s: ScopeRefView| ScopeRowView { role: "visibility"@, scope: s },
    )
}

/// The scopes that may see a memory, by the rows of its scopes: in order, each
/// once.
pub open spec fn visible_to(rows: Seq<ScopeRowView>) -> Seq<ScopeRefView> {
    scopes_in_order(
        rows.filter(|x: ScopeRowView| x.role == "visibility"@).map_values(
            |x: ScopeRowView| x.scope,
        ),
    )
}

/// The scopes that may see a memory, by the rows of its scopes.
pub fn load_visibility_scopes(rows: &Vec<ScopeRow>) -> (r: Vec<ScopeRef>)
    ensures
        r.deep_view() == visible_to(rows.deep_view()),
{
    let f = |x: &ScopeRow| -> (r: bool)
        ensures r == (x.deep_view().role == "visibility"@)
    {
        same(x.role.as_str(), "visibility")
    };
    let seen = filter_each(
        rows.as_slice(),
        f,
        Ghost(|x: ScopeRowView| x.role == "visibility"@),
    );
    let f = |x: &ScopeRow| -> (r: ScopeRef)
        ensures r.deep_view() == x.deep_view().scope
    {
        x.scope.replicate()
    };
    let scopes = map_each(seen.as_slice(), f, Ghost(|x: ScopeRowView| x.scope));
    sort_scopes(&scopes)
}

/// The scopes stand in order, each once.
pub open spec fn scopes_ascend(s: Seq<ScopeRefView>) -> bool {
    forall|i: int, j: int|
        0 <= i < j < s.len() ==> scope_less(#[trigger] s[i], #[trigger] s[j])
}

proof fn lemma_scope_less(a: ScopeRefView, b: ScopeRefView, c: ScopeRefView)
    ensures
        !scope_less(a, a),
        scope_less(a, b) || scope_less(b, a) || a == b,
        scope_less(a, b) && scope_less(b, c) ==> scope_less(a, c),
{
    lemma_text_less_irreflexive(a.scope_key);
    lemma_text_less_total(a.tenant_id, b.tenant_id);
    lemma_text_less_total(a.namespace, b.namespace);
    lemma_text_less_total(a.scope_type, b.scope_type);
    lemma_text_less_total(a.scope_key, b.scope_key);
    if scope_less(a, b) && scope_less(b, c) {
        if text_less(a.tenant_id, b.tenant_id) && text_less(b.tenant_id, c.tenant_id) {
            lemma_text_less_transitive(a.tenant_id, b.tenant_id, c.tenant_id);
            lemma_text_less_irreflexive(a.tenant_id);
        }
        if text_less(a.namespace, b.namespace) && text_less(b.namespace, c.namespace) {
            lemma_text_less_transitive(a.namespace, b.namespace, c.namespace);
            lemma_text_less_irreflexive(a.namespace);
        }
        if text_less(a.scope_type, b.scope_type) && text_less(b.scope_type, c.scope_type) {
            lemma_text_less_transitive(a.scope_type, b.scope_type, c.scope_type);
            lemma_text_less_irreflexive(a.scope_type);
        }
        if text_less(a.scope_key, b.scope_key) && text_less(b.scope_key, c.scope_key) {
            lemma_text_less_transitive(a.scope_key, b.scope_key, c.scope_key);
        }
    }
}

proof fn lemma_scope_inserted(s: Seq<ScopeRefView>, x: ScopeRefView)
    requires
        scopes_ascend(s),
    ensures
        scopes_ascend(scope_inserted(s, x)),
        forall|y: ScopeRefView| #[trigger]
            scope_inserted(s, x).contains(y) ==> y == x || s.contains(y),
    decreases s.len(),
{
    let r = scope_inserted(s, x);
    if s.len() == 0 {
        assert(forall|y: ScopeRefView| #[trigger] r.contains(y) ==> y == x);
    } else if x != s.last() {
        if scope_less(x, s.last()) {
            let t = s.drop_last();
            lemma_scope_inserted(t, x);
            let r0 = scope_inserted(t, x);
            assert forall|i: int| 0 <= i < r0.len() implies scope_less(
                #[trigger] r0[i],
                s.last(),
            ) by {
                assert(r0.contains(r0[i]));
                if r0[i] != x {
                    let k = t.index_of(r0[i]);
                    assert(s[k] == r0[i]);
                }
            }
            assert forall|y: ScopeRefView| #[trigger] r.contains(y) implies y == x || s.contains(
                y,
            ) by {
                let k = r.index_of(y);
                if k < r0.len() {
                    assert(r0[k] == y);
                    assert(r0.contains(y));
                    if y != x {
                        let m = t.index_of(y);
                        assert(s[m] == y);
                    }
                } else {
                    assert(s[s.len() - 1] == y);
                }
            }
        } else {
            lemma_scope_less(x, s.last(), x);
            assert forall|i: int| 0 <= i < s.len() implies scope_less(#[trigger] s[i], x) by {
                lemma_scope_less(s[i], s.last(), x);
            }
            assert forall|y: ScopeRefView| #[trigger] r.contains(y) implies y == x || s.contains(
                y,
            ) by {
                let k = r.index_of(y);
                if k < s.len() {
                    assert(s[k] == y);
                }
            }
        }
    }
}

proof fn lemma_in_order(s: Seq<ScopeRefView>)
    ensures
        scopes_ascend(scopes_in_order(s)),
    decreases s.len(),
{
    if s.len() > 0 {
        lemma_in_order(s.drop_last());
        lemma_scope_inserted(scopes_in_order(s.drop_last()), s.last());
    }
}

proof fn lemma_ordered_already(s: Seq<ScopeRefView>)
    requires
        scopes_ascend(s),
    ensures
        scopes_in_order(s) == s,
    decreases s.len(),
{
    if s.len() > 0 {
        let t = s.drop_last();
        lemma_ordered_already(t);
        if t.len() > 0 {
            assert(scope_less(s[t.len() - 1], s[s.len() - 1]));
            lemma_scope_less(t.last(), s.last(), t.last());
            lemma_scope_less(s.last(), t.last(), s.last());
        }
        assert(scope_inserted(t, s.last()) =~= t.push(s.last()));
        assert(t.push(s.last()) =~= s);
    } else {
        assert(s =~= Seq::<ScopeRefView>::empty());
    }
}

/// The scopes that may see a memory are read back from its rows.
pub proof fn law_scopes_are_read_back(e: KnowledgeEntryView)
    ensures
        visible_to(scope_rows_of(e)) == scopes_in_order(e.visibility_scopes),
{
    let scopes = scopes_in_order(e.visibility_scopes);
    let seen = scopes.map_values(
        |s: ScopeRefView| ScopeRowView { role: "visibility"@, scope: s },
    );
    let one = seq![ScopeRowView { role: "owner"@, scope: e.owner_scope }];
    let f = |x: ScopeRowView| x.role == "visibility"@;
    assert("owner"@ != "visibility"@) by {
        reveal_strlit("owner");
        reveal_strlit("visibility");
        assert("owner"@[0] != "visibility"@[0]);
    }
    assert((one + seen).filter(f) =~= seen) by {
        Seq::filter_distributes_over_add(one, seen, f);
        reveal_with_fuel(Seq::filter, 2);
        assert(one.drop_last() =~= Seq::<ScopeRowView>::empty());
        assert(one.filter(f) =~= Seq::<ScopeRowView>::empty());
        lemma_all_pass(seen, f);
    }
    assert(seen.map_values(|x: ScopeRowView| x.scope) =~= scopes);
    lemma_in_order(e.visibility_scopes);
    lemma_ordered_already(scopes);
}

proof fn lemma_all_pass<A>(s: Seq<A>, f: spec_fn(A) -> bool)
    requires
        forall|i: int| 0 <= i < s.len() ==> f(#[trigger] s[i]),
    ensures
        s.filter(f) == s,
    decreases s.len(),
{
    reveal(Seq::filter);
    if s.len() > 0 {
        lemma_all_pass(s.drop_last(), f);
        assert(f(s[s.len() - 1]));
        assert(s.drop_last().push(s.last()) =~= s);
    } else {
        assert(s.filter(f) =~= s);
    }
}

/// The rows of the scopes of a memory.
pub fn write_scopes(e: &KnowledgeEntry) -> (r: Vec<ScopeRow>)
    ensures
        r.deep_view() == scope_rows_of(e.deep_view()),
{
    let mut r: Vec<ScopeRow> = Vec::new();
    r.push(ScopeRow { role: "owner".to_owned(), scope: e.owner_scope.replicate() });
    let scopes = sort_scopes(&e.visibility_scopes);
    let f = |s: &ScopeRef| -> (r: ScopeRow)
        ensures
            r.deep_view() == (ScopeRowView { role: "visibility"@, scope: s.deep_view() })
    {
        ScopeRow { role: "visibility".to_owned(), scope: s.replicate() }
    };
    let mut seen = map_each(
        scopes.as_slice(),
        f,
        Ghost(|s: ScopeRefView| ScopeRowView { role: "visibility"@, scope: s }),
    );
    let ghost one = r.deep_view();
    let ghost rest = seen.deep_view();
    r.append(&mut seen);
    assert(r.deep_view() =~= one + rest);
    r
}

} // verus!
