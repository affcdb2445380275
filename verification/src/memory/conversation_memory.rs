//! The memory of conversations that are edited: what was said on a branch that
//! was given up no longer counts.

use crate::memory::error::{MemoryError, MemoryErrorView};
use crate::memory::ids::{all_id_chars, only_id_chars};
use crate::memory::novel::canon::has_string;
use crate::replicate::Replicate;
use crate::seqs::{lemma_take_all, lemma_take_step};
use crate::text::{byte_count, byte_len, same};
use crate::walk::{no_items, push_one};
use vstd::prelude::*;

verus! {

/// How many records of what was given up are kept.
pub const MAX_INVALIDATION_RECORDS: usize = 500;

/// A turn of a conversation, as it was generated once.
#[derive(Debug, PartialEq)]
pub struct ConversationMemoryScope {
    pub conversation_id: String,
    pub generation_id: String,
}

/// What a scope is.
#[verifier::ext_equal]
pub struct ConversationMemoryScopeView {
    pub conversation_id: Seq<char>,
    pub generation_id: Seq<char>,
}

impl DeepView for ConversationMemoryScope {
    type V = ConversationMemoryScopeView;

    open spec fn deep_view(&self) -> ConversationMemoryScopeView {
        ConversationMemoryScopeView {
            conversation_id: self.conversation_id@,
            generation_id: self.generation_id@,
        }
    }
}

impl Replicate for ConversationMemoryScope {
    fn replicate(&self) -> (r: Self) {
        ConversationMemoryScope {
            conversation_id: self.conversation_id.clone(),
            generation_id: self.generation_id.clone(),
        }
    }
}

/// What is given up of a conversation.
#[derive(Debug, PartialEq)]
pub struct ConversationMemoryInvalidation {
    pub conversation_id: String,
    pub generation_ids: Vec<String>,
    /// Whether it has turns whose rows cannot be told apart.
    pub includes_legacy_unscoped: bool,
}

/// What is given up.
#[verifier::ext_equal]
pub struct ConversationMemoryInvalidationView {
    pub conversation_id: Seq<char>,
    pub generation_ids: Seq<Seq<char>>,
    pub includes_legacy_unscoped: bool,
}

impl DeepView for ConversationMemoryInvalidation {
    type V = ConversationMemoryInvalidationView;

    open spec fn deep_view(&self) -> ConversationMemoryInvalidationView {
        ConversationMemoryInvalidationView {
            conversation_id: self.conversation_id@,
            generation_ids: self.generation_ids.deep_view(),
            includes_legacy_unscoped: self.includes_legacy_unscoped,
        }
    }
}

impl Replicate for ConversationMemoryInvalidation {
    fn replicate(&self) -> (r: Self) {
        ConversationMemoryInvalidation {
            conversation_id: self.conversation_id.clone(),
            generation_ids: self.generation_ids.replicate(),
            includes_legacy_unscoped: self.includes_legacy_unscoped,
        }
    }
}

/// What a rebuild starts from.
#[derive(Debug, PartialEq)]
pub struct ConversationMemoryRebuildSnapshot {
    pub revision: u64,
    pub derived_stale: bool,
    pub legacy_unscoped: bool,
}

/// What such a snapshot is.
#[verifier::ext_equal]
pub struct ConversationMemoryRebuildSnapshotView {
    pub revision: u64,
    pub derived_stale: bool,
    pub legacy_unscoped: bool,
}

impl DeepView for ConversationMemoryRebuildSnapshot {
    type V = ConversationMemoryRebuildSnapshotView;

    open spec fn deep_view(&self) -> ConversationMemoryRebuildSnapshotView {
        ConversationMemoryRebuildSnapshotView {
            revision: self.revision,
            derived_stale: self.derived_stale,
            legacy_unscoped: self.legacy_unscoped,
        }
    }
}

impl Replicate for ConversationMemoryRebuildSnapshot {
    fn replicate(&self) -> (r: Self) {
        ConversationMemoryRebuildSnapshot {
            revision: self.revision,
            derived_stale: self.derived_stale,
            legacy_unscoped: self.legacy_unscoped,
        }
    }
}

/// The record of something given up.
#[derive(Debug, PartialEq)]
pub struct InvalidationRecord {
    pub conversation_id: String,
    pub generation_ids: Vec<String>,
    pub includes_legacy_unscoped: bool,
    pub invalidated_at: i64,
}

/// What such a record is.
#[verifier::ext_equal]
pub struct InvalidationRecordView {
    pub conversation_id: Seq<char>,
    pub generation_ids: Seq<Seq<char>>,
    pub includes_legacy_unscoped: bool,
    pub invalidated_at: i64,
}

impl DeepView for InvalidationRecord {
    type V = InvalidationRecordView;

    open spec fn deep_view(&self) -> InvalidationRecordView {
        InvalidationRecordView {
            conversation_id: self.conversation_id@,
            generation_ids: self.generation_ids.deep_view(),
            includes_legacy_unscoped: self.includes_legacy_unscoped,
            invalidated_at: self.invalidated_at,
        }
    }
}

impl Replicate for InvalidationRecord {
    fn replicate(&self) -> (r: Self) {
        InvalidationRecord {
            conversation_id: self.conversation_id.clone(),
            generation_ids: self.generation_ids.replicate(),
            includes_legacy_unscoped: self.includes_legacy_unscoped,
            invalidated_at: self.invalidated_at,
        }
    }
}

/// A text that can stand for a conversation or a generation.
pub open spec fn is_identifier(s: Seq<char>) -> bool {
    s.len() > 0 && byte_count(s) <= 128 && all_id_chars(s)
}

/// What is said of a text that cannot.
pub open spec fn bad_identifier(field: Seq<char>) -> MemoryErrorView {
    MemoryErrorView::Conflict(
        "invalid "@ + field + ": only ASCII letters, digits, '-' and '_' are allowed"@,
    )
}

/// Checks that a text can stand for a conversation or a generation.
pub fn validate_identifier(field: &str, value: &str) -> (r: Result<(), MemoryError>)
    ensures
        match r {
            Ok(_) => is_identifier(value@),
            Err(e) => !is_identifier(value@) && e.deep_view() == bad_identifier(field@),
        },
{
    if !value.is_empty() && byte_len(value) <= 128 && only_id_chars(value) {
        Ok(())
    } else {
        let mut text = "invalid ".to_owned();
        text.append(field);
        text.append(": only ASCII letters, digits, '-' and '_' are allowed");
        Err(MemoryError::Conflict(text))
    }
}

/// The session under which what is said in a generation is kept.
pub open spec fn scoped_session(base: Seq<char>, generation: Seq<char>) -> Seq<char> {
    base + "--web--"@ + generation
}

fn make_scoped_session(base: &str, generation: &str) -> (r: String)
    ensures
        r@ == scoped_session(base@, generation@),
{
    let mut r = base.to_owned();
    r.append("--web--");
    r.append(generation);
    r
}

impl ConversationMemoryScope {
    /// The scope of a conversation and a generation.
    pub fn new(conversation_id: &str, generation_id: &str) -> (r: Result<Self, MemoryError>)
        ensures
            if !is_identifier(conversation_id@) {
                r is Err && r->Err_0.deep_view() == bad_identifier("conversation_id"@)
            } else if !is_identifier(generation_id@) {
                r is Err && r->Err_0.deep_view() == bad_identifier("generation_id"@)
            } else {
                r is Ok && r->Ok_0.deep_view() == (ConversationMemoryScopeView {
                    conversation_id: conversation_id@,
                    generation_id: generation_id@,
                })
            },
    {
        if let Err(e) = validate_identifier("conversation_id", conversation_id) {
            return Err(e);
        }
        if let Err(e) = validate_identifier("generation_id", generation_id) {
            return Err(e);
        }
        Ok(
            ConversationMemoryScope {
                conversation_id: conversation_id.to_owned(),
                generation_id: generation_id.to_owned(),
            },
        )
    }

    /// The session under which what is said is kept.
    pub fn storage_session_id(&self, base_session_id: &str) -> (r: Result<String, MemoryError>)
        ensures
            if is_identifier(self.generation_id@) {
                r is Ok && r->Ok_0@ == scoped_session(base_session_id@, self.generation_id@)
            } else {
                r is Err && r->Err_0.deep_view() == bad_identifier("generation_id"@)
            },
    {
        if let Err(e) = validate_identifier("generation_id", self.generation_id.as_str()) {
            return Err(e);
        }
        Ok(make_scoped_session(base_session_id, self.generation_id.as_str()))
    }
}

/// The sessions of what was said, those given up, and what is known of what was
/// derived from them.
pub struct ConversationMemoryStore {
    pub base_session_id: String,
    pub active_sessions: Vec<String>,
    pub invalidated_sessions: Vec<String>,
    pub revision: u64,
    pub derived_stale: bool,
    pub legacy_unscoped: bool,
    pub records: Vec<InvalidationRecord>,
}

/// What a store is.
#[verifier::ext_equal]
pub struct ConversationMemoryStoreView {
    pub base_session_id: Seq<char>,
    pub active_sessions: Seq<Seq<char>>,
    pub invalidated_sessions: Seq<Seq<char>>,
    pub revision: u64,
    pub derived_stale: bool,
    pub legacy_unscoped: bool,
    pub records: Seq<InvalidationRecordView>,
}

impl DeepView for ConversationMemoryStore {
    type V = ConversationMemoryStoreView;

    open spec fn deep_view(&self) -> ConversationMemoryStoreView {
        ConversationMemoryStoreView {
            base_session_id: self.base_session_id@,
            active_sessions: self.active_sessions.deep_view(),
            invalidated_sessions: self.invalidated_sessions.deep_view(),
            revision: self.revision,
            derived_stale: self.derived_stale,
            legacy_unscoped: self.legacy_unscoped,
            records: self.records.deep_view(),
        }
    }
}

/// What is wrong with what is to be given up.
pub open spec fn invalidation_problem(i: ConversationMemoryInvalidationView) -> Option<
    MemoryErrorView,
> {
    if !is_identifier(i.conversation_id) {
        Some(bad_identifier("conversation_id"@))
    } else if exists|k: int|
        0 <= k < i.generation_ids.len() && !is_identifier(#[trigger] i.generation_ids[k]) {
        Some(bad_identifier("generation_id"@))
    } else {
        None
    }
}

/// The revision after one more.
pub open spec fn next_revision(r: u64) -> u64 {
    if r == u64::MAX {
        r
    } else {
        (r + 1) as u64
    }
}

/// The last records, as many as are kept.
pub open spec fn last_records(s: Seq<InvalidationRecordView>) -> Seq<InvalidationRecordView> {
    if s.len() > MAX_INVALIDATION_RECORDS {
        s.skip(s.len() - MAX_INVALIDATION_RECORDS as int)
    } else {
        s
    }
}

/// The store once it is noted that something is given up, before any session
/// is moved.
pub open spec fn noted(
    s: ConversationMemoryStoreView,
    i: ConversationMemoryInvalidationView,
    now: i64,
) -> ConversationMemoryStoreView {
    ConversationMemoryStoreView {
        revision: next_revision(s.revision),
        derived_stale: true,
        legacy_unscoped: s.legacy_unscoped || i.includes_legacy_unscoped,
        records: last_records(
            s.records.push(
                InvalidationRecordView {
                    conversation_id: i.conversation_id,
                    generation_ids: i.generation_ids,
                    includes_legacy_unscoped: i.includes_legacy_unscoped,
                    invalidated_at: now,
                },
            ),
        ),
        ..s
    }
}

/// The sessions while generations are given up: those that count, those that do
/// not, how many were moved, and the generation that stopped it.
#[verifier::ext_equal]
pub struct Moves {
    pub active: Seq<Seq<char>>,
    pub invalidated: Seq<Seq<char>>,
    pub moved: nat,
    pub stopped: Option<Seq<char>>,
}

/// One generation more is given up: its session, where it counts, is moved; one
/// that was given up before stops it.
pub open spec fn moved_one(m: Moves, base: Seq<char>, generation: Seq<char>) -> Moves {
    let s = scoped_session(base, generation);
    if m.stopped is Some || !m.active.contains(s) {
        m
    } else if m.invalidated.contains(s) {
        Moves { stopped: Some(generation), ..m }
    } else {
        Moves {
            active: m.active.remove(m.active.index_of_first(s)->0),
            invalidated: m.invalidated.push(s),
            moved: m.moved + 1,
            ..m
        }
    }
}

/// Several generations are given up, in order.
pub open spec fn moved_all(
    s: ConversationMemoryStoreView,
    generations: Seq<Seq<char>>,
) -> Moves
    decreases generations.len(),
{
    if generations.len() == 0 {
        Moves {
            active: s.active_sessions,
            invalidated: s.invalidated_sessions,
            moved: 0,
            stopped: None,
        }
    } else {
        moved_one(
            moved_all(s, generations.drop_last()),
            s.base_session_id,
            generations.last(),
        )
    }
}

/// The store after something was given up.
pub open spec fn invalidated(
    s: ConversationMemoryStoreView,
    i: ConversationMemoryInvalidationView,
    now: i64,
) -> ConversationMemoryStoreView {
    let m = moved_all(s, i.generation_ids);
    ConversationMemoryStoreView {
        active_sessions: m.active,
        invalidated_sessions: m.invalidated,
        ..noted(s, i, now)
    }
}

/// A rebuild that started at a revision may take effect: nothing was given up
/// since, and nothing that cannot be told apart ever was.
pub open spec fn may_commit(s: ConversationMemoryStoreView, revision: u64) -> bool {
    s.revision == revision && !s.legacy_unscoped
}

fn find_text(items: &Vec<String>, x: &str) -> (r: Option<usize>)
    ensures
        match r {
            Some(i) => i < items@.len() && items.deep_view().contains(x@)
                && items.deep_view().index_of_first(x@) == Some(i as int),
            None => !items.deep_view().contains(x@),
        },
{
    let ghost all = items.deep_view();
    let mut i: usize = 0;
    while i < items.len()
        invariant
            i <= items@.len(),
            all == items.deep_view(),
            forall|k: int| 0 <= k < i ==> #[trigger] all[k] != x@,
        decreases items@.len() - i,
    {
        assert(all[i as int] == items@[i as int]@);
        if same(items[i].as_str(), x) {
            proof {
                assert(all.contains(x@));
                all.index_of_first_ensures(x@);
                let k = all.index_of_first(x@)->0;
                assert(k == i);
            }
            return Some(i);
        }
        i = i + 1;
    }
    None
}

impl ConversationMemoryStore {
    /// A store with nothing given up yet.
    pub fn new(base_session_id: &str) -> (r: Self)
        ensures
            r.deep_view() == (ConversationMemoryStoreView {
                base_session_id: base_session_id@,
                active_sessions: Seq::empty(),
                invalidated_sessions: Seq::empty(),
                revision: 0,
                derived_stale: false,
                legacy_unscoped: false,
                records: Seq::empty(),
            }),
    {
        ConversationMemoryStore {
            base_session_id: base_session_id.to_owned(),
            active_sessions: no_items(),
            invalidated_sessions: no_items(),
            revision: 0,
            derived_stale: false,
            legacy_unscoped: false,
            records: no_items(),
        }
    }

    /// How often something was given up.
    pub fn revision(&self) -> (r: u64)
        ensures
            r == self.revision,
    {
        self.revision
    }

    /// Whether what was derived must not be used.
    pub fn is_derived_stale(&self) -> (r: bool)
        ensures
            r == self.derived_stale,
    {
        self.derived_stale
    }

    /// What a rebuild starts from.
    pub fn rebuild_snapshot(&self) -> (r: ConversationMemoryRebuildSnapshot)
        ensures
            r.deep_view() == (ConversationMemoryRebuildSnapshotView {
                revision: self.revision,
                derived_stale: self.derived_stale,
                legacy_unscoped: self.legacy_unscoped,
            }),
    {
        ConversationMemoryRebuildSnapshot {
            revision: self.revision,
            derived_stale: self.derived_stale,
            legacy_unscoped: self.legacy_unscoped,
        }
    }

    /// Gives up generations of a conversation. It is noted first that what was
    /// derived is stale, so that it stays so where a session cannot be moved.
    pub fn invalidate(&mut self, invalidation: &ConversationMemoryInvalidation, now: i64) -> (r:
        Result<usize, MemoryError>)
        ensures
            ({
                let before = old(self).deep_view();
                let i = invalidation.deep_view();
                let m = moved_all(before, i.generation_ids);
                match invalidation_problem(i) {
                    Some(e) => r is Err && r->Err_0.deep_view() == e && final(self).deep_view()
                        == before,
                    None => final(self).deep_view() == invalidated(before, i, now) && match m.stopped {
                        Some(g) => r is Err && r->Err_0.deep_view() == MemoryErrorView::Conflict(
                            "memory generation already invalidated: "@ + g,
                        ),
                        None => r is Ok && r->Ok_0 == m.moved,
                    },
                }
            }),
    {
        if let Err(e) = validate_identifier(
            "conversation_id",
            invalidation.conversation_id.as_str(),
        ) {
            return Err(e);
        }
        let ghost before = self.deep_view();
        let ghost inv = invalidation.deep_view();
        let ghost ids = inv.generation_ids;
        let mut i: usize = 0;
        while i < invalidation.generation_ids.len()
            invariant
                i <= invalidation.generation_ids@.len(),
                inv == invalidation.deep_view(),
                ids == inv.generation_ids,
                is_identifier(inv.conversation_id),
                before == self.deep_view(),
                *self == *old(self),
                forall|k: int| 0 <= k < i ==> is_identifier(#[trigger] ids[k]),
            decreases invalidation.generation_ids@.len() - i,
        {
            assert(ids[i as int] == invalidation.generation_ids@[i as int]@);
            if let Err(e) = validate_identifier(
                "generation_id",
                invalidation.generation_ids[i].as_str(),
            ) {
                assert(!is_identifier(ids[i as int]));
                return Err(e);
            }
            i = i + 1;
        }
        if self.revision < u64::MAX {
            self.revision = self.revision + 1;
        }
        self.derived_stale = true;
        self.legacy_unscoped = self.legacy_unscoped || invalidation.includes_legacy_unscoped;
        push_one(
            &mut self.records,
            InvalidationRecord {
                conversation_id: invalidation.conversation_id.clone(),
                generation_ids: invalidation.generation_ids.replicate(),
                includes_legacy_unscoped: invalidation.includes_legacy_unscoped,
                invalidated_at: now,
            },
        );
        let ghost all = self.records.deep_view();
        assert(all.len() == self.records@.len());
        if self.records.len() > MAX_INVALIDATION_RECORDS {
            let remove: usize = self.records.len() - MAX_INVALIDATION_RECORDS;
            let kept = self.records.split_off(remove);
            assert(kept.deep_view() =~= all.skip(remove as int));
            self.records = kept;
        }
        let ghost n = noted(before, inv, now);
        assert(self.deep_view() =~= n);
        let mut moved: usize = 0;
        let mut i: usize = 0;
        assert(ids.take(0) =~= Seq::<Seq<char>>::empty());
        while i < invalidation.generation_ids.len()
            invariant
                i <= invalidation.generation_ids@.len(),
                moved <= i,
                inv == invalidation.deep_view(),
                ids == inv.generation_ids,
                n == noted(before, inv, now),
                before == old(self).deep_view(),
                invalidation_problem(inv) is None,
                self.deep_view() == (ConversationMemoryStoreView {
                    active_sessions: self.active_sessions.deep_view(),
                    invalidated_sessions: self.invalidated_sessions.deep_view(),
                    ..n
                }),
                (Moves {
                    active: self.active_sessions.deep_view(),
                    invalidated: self.invalidated_sessions.deep_view(),
                    moved: moved as nat,
                    stopped: None,
                }) == moved_all(before, ids.take(i as int)),
            decreases invalidation.generation_ids@.len() - i,
        {
            let g = &invalidation.generation_ids[i];
            proof {
                lemma_take_step(ids, i as int);
                assert(ids[i as int] == g@);
            }
            let base = self.base_session_id.clone();
            let session = make_scoped_session(base.as_str(), g.as_str());
            if let Some(at) = find_text(&self.active_sessions, session.as_str()) {
                if has_string(&self.invalidated_sessions, session.as_str()) {
                    proof {
                        lemma_stopped(before, ids, i + 1);
                    }
                    let mut text = "memory generation already invalidated: ".to_owned();
                    text.append(g.as_str());
                    return Err(MemoryError::Conflict(text));
                }
                let ghost active = self.active_sessions.deep_view();
                self.active_sessions.remove(at);
                assert(self.active_sessions.deep_view() =~= active.remove(at as int));
                push_one(&mut self.invalidated_sessions, session);
                moved = moved + 1;
            }
            i = i + 1;
        }
        proof {
            lemma_take_all(ids);
        }
        Ok(moved)
    }

    /// Whether a rebuild that started at a revision may take effect.
    pub fn may_rebuild(&self, expected_revision: u64) -> (r: bool)
        ensures
            r == may_commit(self.deep_view(), expected_revision),
    {
        self.revision == expected_revision && !self.legacy_unscoped
    }

    /// Lets a rebuild that started at a revision take effect, by what came of
    /// writing it: what was derived is no longer stale. A rebuild that something
    /// was given up since has no effect.
    pub fn commit_rebuild(
        &mut self,
        expected_revision: u64,
        written: Result<(), MemoryError>,
    ) -> (r: Result<bool, MemoryError>)
        ensures
            if !may_commit(old(self).deep_view(), expected_revision) {
                r is Ok && !r->Ok_0 && final(self).deep_view() == old(self).deep_view()
            } else {
                match written {
                    Err(e) => r is Err && r->Err_0 == e && final(self).deep_view() == old(
                        self).deep_view(),
                    Ok(_) => r is Ok && r->Ok_0 && final(self).deep_view() == (
                    ConversationMemoryStoreView {
                        derived_stale: false,
                        ..old(self).deep_view()
                    }),
                }
            },
    {
        if !self.may_rebuild(expected_revision) {
            return Ok(false);
        }
        match written {
            Err(e) => Err(e),
            Ok(_) => {
                self.derived_stale = false;
                Ok(true)
            },
        }
    }

    /// Lets a rebuild that started at a revision take effect.
    pub fn mark_rebuilt(&mut self, expected_revision: u64) -> (r: bool)
        ensures
            r == may_commit(old(self).deep_view(), expected_revision),
            final(self).deep_view() == if r {
                ConversationMemoryStoreView { derived_stale: false, ..old(self).deep_view() }
            } else {
                old(self).deep_view()
            },
    {
        if !self.may_rebuild(expected_revision) {
            return false;
        }
        self.derived_stale = false;
        true
    }
}

proof fn lemma_stopped(s: ConversationMemoryStoreView, ids: Seq<Seq<char>>, i: int)
    requires
        0 <= i <= ids.len(),
        moved_all(s, ids.take(i)).stopped is Some,
    ensures
        moved_all(s, ids) == moved_all(s, ids.take(i)),
    decreases ids.len() - i,
{
    if i < ids.len() {
        lemma_take_step(ids, i);
        lemma_stopped(s, ids, i + 1);
    } else {
        lemma_take_all(ids);
    }
}

/// A rebuild that started before something was given up has no effect: what was
/// derived stays stale.
pub proof fn law_late_rebuild_has_no_effect(
    s: ConversationMemoryStoreView,
    i: ConversationMemoryInvalidationView,
    now: i64,
)
    requires
        s.revision < u64::MAX,
    ensures
        invalidated(s, i, now).derived_stale,
        !may_commit(invalidated(s, i, now), s.revision),
{
}

/// Once something was given up that cannot be told apart, no rebuild ever takes
/// effect, whatever else is given up.
pub proof fn law_legacy_stays_suppressed(
    s: ConversationMemoryStoreView,
    i: ConversationMemoryInvalidationView,
    now: i64,
    revision: u64,
)
    requires
        s.legacy_unscoped || i.includes_legacy_unscoped,
    ensures
        invalidated(s, i, now).legacy_unscoped,
        !may_commit(invalidated(s, i, now), revision),
{
}

} // verus!
