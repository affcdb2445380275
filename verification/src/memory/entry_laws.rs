//! What counts as a hit, and where the hits stand among what is recalled.

use crate::brains::MemoryEntryView;
use crate::memory::keywords::keywords_of;
use crate::memory::memory_brain::{filled_up, has_keyword, law_recall_is_full, recalled};
use crate::seqs::{lemma_filter_from, lemma_filter_has};
use crate::text::{has_text, lowercase_of};
use crate::text_laws::{law_text_stands_in, stands_in};
use crate::walk::{at_most, some_is};
use vstd::prelude::*;

verus! {

/// One of the first eight keywords of `query` stands in `content`, small and
/// capital letters taken for one.
pub open spec fn is_hit(query: Seq<char>, content: Seq<char>) -> bool {
    exists|k: int|
        0 <= k < keywords_of(query, 8).len() && stands_in(
            lowercase_of(content),
            lowercase_of(#[trigger] keywords_of(query, 8)[k]),
        )
}

/// An entry counts as a hit for a query where one of the keywords of the query
/// stands in it, be it any of them, and nowhere else.
pub proof fn law_one_keyword_is_enough(query: Seq<char>, content: Seq<char>)
    ensures
        has_keyword(content, keywords_of(query, 8)) == is_hit(query, content),
{
    let kws = keywords_of(query, 8);
    let p = |kw: Seq<char>| has_text(lowercase_of(content), lowercase_of(kw));
    assert(has_keyword(content, kws) == some_is(kws, p));
    if some_is(kws, p) {
        let k = choose|k: int| 0 <= k < kws.len() && p(#[trigger] kws[k]);
        law_text_stands_in(lowercase_of(content), lowercase_of(kws[k]));
        assert(stands_in(lowercase_of(content), lowercase_of(keywords_of(query, 8)[k])));
    }
    if is_hit(query, content) {
        let k = choose|k: int|
            0 <= k < kws.len() && stands_in(
                lowercase_of(content),
                lowercase_of(#[trigger] keywords_of(query, 8)[k]),
            );
        law_text_stands_in(lowercase_of(content), lowercase_of(kws[k]));
        assert(p(kws[k]));
    }
}

proof fn lemma_filter_first<A>(s: Seq<A>, p: spec_fn(A) -> bool, i: int)
    requires
        0 <= i < s.len(),
        p(s[i]),
        forall|k: int| 0 <= k < i ==> !p(#[trigger] s[k]),
    ensures
        s.filter(p).len() >= 1,
        s.filter(p)[0] == s[i],
    decreases s.len(),
{
    reveal(Seq::filter);
    let t = s.drop_last();
    if i < t.len() {
        assert(t[i] == s[i]);
        lemma_filter_first(t, p, i);
    } else {
        if t.filter(p).len() > 0 {
            let k = lemma_filter_from(t, p, 0);
            assert(p(s[k]));
        }
    }
}

/// Where something is asked for and some candidate is a hit, the first thing
/// recalled is the first candidate that is one.
pub proof fn law_first_hit_is_recalled_first(
    candidates: Seq<MemoryEntryView>,
    query: Seq<char>,
    max: nat,
    i: int,
)
    requires
        max >= 1,
        0 <= i < candidates.len(),
        is_hit(query, candidates[i].content),
        forall|k: int| 0 <= k < i ==> !is_hit(query, (#[trigger] candidates[k]).content),
    ensures
        recalled(candidates, query, max).len() >= 1,
        recalled(candidates, query, max)[0] == candidates[i],
{
    let p = |e: MemoryEntryView| has_keyword(e.content, keywords_of(query, 8));
    let all = candidates.filter(p);
    let first = at_most(all, max);
    law_recall_is_full(candidates, query, max);
    law_one_keyword_is_enough(query, candidates[i].content);
    assert forall|k: int| 0 <= k < i implies !p(#[trigger] candidates[k]) by {
        law_one_keyword_is_enough(query, candidates[k].content);
    }
    lemma_filter_first(candidates, p, i);
    let r = recalled(candidates, query, max);
    assert(first[0] == all[0]);
    assert(r.take(first.len() as int)[0] == r[0]);
}

proof fn lemma_fill(
    found: Seq<MemoryEntryView>,
    candidates: Seq<MemoryEntryView>,
    max: nat,
    b: int,
)
    requires
        found.len() <= b < filled_up(found, candidates, max).len(),
    ensures
        candidates.contains(filled_up(found, candidates, max)[b]),
        forall|a: int|
            0 <= a < b ==> (#[trigger] filled_up(found, candidates, max)[a]).id != filled_up(
                found,
                candidates,
                max,
            )[b].id,
        found.len() < max,
    decreases candidates.len(),
{
    let r = filled_up(found, candidates, max);
    if candidates.len() > 0 {
        let rest = candidates.drop_last();
        let before = filled_up(found, rest, max);
        if b < before.len() {
            lemma_fill(found, rest, max, b);
            let k = choose|k: int| 0 <= k < rest.len() && rest[k] == before[b];
            assert(candidates[k] == r[b]);
            assert forall|a: int| 0 <= a < b implies (#[trigger] r[a]).id != r[b].id by {
                assert(r[a] == before[a]);
            }
        } else {
            let next = candidates.last();
            let p = |x: MemoryEntryView| x.id == next.id;
            assert(candidates[candidates.len() - 1] == r[b]);
            assert forall|a: int| 0 <= a < b implies (#[trigger] r[a]).id != r[b].id by {
                assert(r[a] == before[a]);
                assert(!p(before[a]));
            }
            lemma_found_stays(found, rest, max);
        }
    }
}

proof fn lemma_found_stays(found: Seq<MemoryEntryView>, candidates: Seq<MemoryEntryView>, max: nat)
    ensures
        found.len() <= filled_up(found, candidates, max).len(),
        forall|a: int|
            0 <= a < found.len() ==> filled_up(found, candidates, max)[a] == #[trigger] found[a],
    decreases candidates.len(),
{
    if candidates.len() > 0 {
        lemma_found_stays(found, candidates.drop_last(), max);
    }
}

/// All that is recalled was a candidate; what is a hit stands before all that
/// is none; a hit is left out only where as many hits as were asked for stand
/// there; and what is no hit comes in only under an id that is not there yet.
pub proof fn law_hits_stand_before_the_rest(
    candidates: Seq<MemoryEntryView>,
    query: Seq<char>,
    max: nat,
)
    ensures
        ({
            let r = recalled(candidates, query, max);
            &&& forall|a: int| 0 <= a < r.len() ==> candidates.contains(#[trigger] r[a])
            &&& forall|a: int, b: int|
                0 <= a < b < r.len() && is_hit(query, (#[trigger] r[b]).content) ==> is_hit(
                    query,
                    (#[trigger] r[a]).content,
                )
            &&& forall|a: int, b: int|
                0 <= a < b < r.len() && !is_hit(query, (#[trigger] r[b]).content) ==> (
                #[trigger] r[a]).id != r[b].id
            &&& forall|i: int|
                0 <= i < candidates.len() && is_hit(query, (#[trigger] candidates[i]).content) ==> {
                    ||| r.contains(candidates[i])
                    ||| r.len() == max && (max > 0 ==> is_hit(query, r.last().content))
                }
        }),
{
    let p = |e: MemoryEntryView| has_keyword(e.content, keywords_of(query, 8));
    let all = candidates.filter(p);
    let first = at_most(all, max);
    let r = recalled(candidates, query, max);
    law_recall_is_full(candidates, query, max);
    lemma_found_stays(first, candidates, max);
    assert forall|a: int| 0 <= a < first.len() implies is_hit(query, (#[trigger] r[a]).content)
        && candidates.contains(r[a]) by {
        assert(r[a] == first[a] && first[a] == all[a]);
        let k = lemma_filter_from(candidates, p, a);
        law_one_keyword_is_enough(query, r[a].content);
        assert(candidates[k] == r[a]);
    }
    assert forall|b: int| first.len() <= b < r.len() implies {
        &&& candidates.contains(#[trigger] r[b])
        &&& !is_hit(query, r[b].content)
        &&& forall|a: int| 0 <= a < b ==> (#[trigger] r[a]).id != r[b].id
    } by {
        lemma_fill(first, candidates, max, b);
        lemma_filter_has(candidates, p, r[b]);
        law_one_keyword_is_enough(query, r[b].content);
        if is_hit(query, r[b].content) {
            assert(all.contains(r[b]));
            let a = choose|a: int| 0 <= a < all.len() && all[a] == r[b];
            assert(first == all);
            assert(r[a] == all[a]);
            assert(r[a].id == r[b].id);
        }
    }
    assert forall|i: int|
        0 <= i < candidates.len() && is_hit(query, (#[trigger] candidates[i]).content) implies {
        ||| r.contains(candidates[i])
        ||| r.len() == max && (max > 0 ==> is_hit(query, r.last().content))
    } by {
        law_one_keyword_is_enough(query, candidates[i].content);
        assert(candidates.contains(candidates[i]));
        lemma_filter_has(candidates, p, candidates[i]);
        if all.len() <= max {
            let a = choose|a: int| 0 <= a < all.len() && all[a] == candidates[i];
            assert(r[a] == candidates[i]);
        } else if max > 0 {
            assert(first.len() == max);
            assert(is_hit(query, r[max - 1].content));
        }
    }
}

} // verus!
