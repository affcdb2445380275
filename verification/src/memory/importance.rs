//! What the memory lets go of.

use crate::memory::memory_iteration::MemoryStoreType;
use crate::memory::types::{SessionSummary, SessionSummaryView};
use crate::replicate::Replicate;
use vstd::prelude::*;

verus! {

/// After how many days a summary is let go of.
pub const PRUNE_DAYS: i64 = 30;

/// The milliseconds of a day.
pub const DAY_MILLIS: i64 = 86_400_000;

/// What was let go of.
#[derive(Debug, PartialEq, Eq)]
pub struct DecayReport {
    pub pruned_count: usize,
}

/// A summary is let go of: it still counts, it is not archived, and more than
/// thirty full days have gone by since it was made, so thirty-one at least.
pub open spec fn is_expired(s: SessionSummaryView, now: i64) -> bool {
    !s.superseded && !s.archived && now - s.created_at >= (PRUNE_DAYS + 1) * DAY_MILLIS
}

/// The summaries after those that have expired were let go of.
pub open spec fn decayed(s: Seq<SessionSummaryView>, now: i64) -> Seq<SessionSummaryView> {
    s.map_values(
        |x: SessionSummaryView|
            if is_expired(x, now) {
                SessionSummaryView { superseded: true, ..x }
            } else {
                x
            },
    )
}

/// How many summaries have expired.
pub open spec fn expired_count(s: Seq<SessionSummaryView>, now: i64) -> nat {
    s.filter(|x: SessionSummaryView| is_expired(x, now)).len()
}

/// How much things matter.
pub struct ImportanceManager;

impl ImportanceManager {
    /// What was recalled gets no stronger: no store has an importance of its
    /// own any more. Gives the ids whose importance changes: none.
    pub fn reinforce(entry_ids: &Vec<String>, store_type: MemoryStoreType) -> (r: Vec<String>)
        ensures
            r@.len() == 0,
    {
        Vec::new()
    }

    /// Lets go of the summaries that have expired.
    pub fn decay_all(summaries: &mut Vec<SessionSummary>, now: i64) -> (r: DecayReport)
        ensures
            final(summaries).deep_view() == decayed(old(summaries).deep_view(), now),
            r.pruned_count == expired_count(old(summaries).deep_view(), now),
    {
        let ghost all = summaries.deep_view();
        let ghost p = |x: SessionSummaryView| is_expired(x, now);
        let total: usize = summaries.len();
        let mut pruned: usize = 0;
        let mut i: usize = 0;
        proof {
            crate::seqs::lemma_filter_none(all, p);
        }
        while i < total
            invariant
                i <= total == summaries@.len() == all.len(),
                pruned <= i,
                p == (|x: SessionSummaryView| is_expired(x, now)),
                pruned == all.take(i as int).filter(p).len(),
                forall|k: int|
                    0 <= k < i ==> (#[trigger] summaries@[k]).deep_view() == decayed(all, now)[k],
                forall|k: int| i <= k < total ==> (#[trigger] summaries@[k]).deep_view() == all[k],
            decreases total - i,
        {
            proof {
                crate::seqs::lemma_filter_step(all, i as int, p);
                assert(summaries@[i as int].deep_view() == all[i as int]);
            }
            let age: i128 = now as i128 - summaries[i].created_at as i128;
            if !summaries[i].superseded && !summaries[i].archived && age >= 2_678_400_000 {
                let mut s = summaries[i].replicate();
                s.superseded = true;
                assert(s.deep_view() =~= (SessionSummaryView {
                    superseded: true,
                    ..all[i as int]
                }));
                summaries.set(i, s);
                pruned = pruned + 1;
            }
            i = i + 1;
        }
        proof {
            crate::seqs::lemma_take_all(all);
        }
        assert(summaries.deep_view() =~= decayed(all, now));
        DecayReport { pruned_count: pruned }
    }
}

} // verus!
