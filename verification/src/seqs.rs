//! Facts about sequences that loops over a prefix rely on.

use crate::replicate::Replicate;
use vstd::prelude::*;

verus! {

/// Filtering one item more.
pub proof fn lemma_filter_step<A>(s: Seq<A>, i: int, p: spec_fn(A) -> bool)
    requires
        0 <= i < s.len(),
    ensures
        s.take(i + 1).filter(p) == if p(s[i]) {
            s.take(i).filter(p).push(s[i])
        } else {
            s.take(i).filter(p)
        },
{
    reveal(Seq::filter);
    assert(s.take(i + 1).drop_last() =~= s.take(i));
}

/// Filtering and mapping one item more.
pub proof fn lemma_filter_map_step<A, B>(s: Seq<A>, i: int, f: spec_fn(A) -> Option<B>)
    requires
        0 <= i < s.len(),
    ensures
        s.take(i + 1).filter_map(f) == match f(s[i]) {
            Some(b) => s.take(i).filter_map(f).push(b),
            None => s.take(i).filter_map(f),
        },
{
    reveal(Seq::filter_map);
    assert(s.take(i + 1).drop_last() =~= s.take(i));
}

/// What filtering leaves was there, and `p` picks it out.
pub proof fn lemma_filter_from<A>(s: Seq<A>, p: spec_fn(A) -> bool, i: int) -> (k: int)
    requires
        0 <= i < s.filter(p).len(),
    ensures
        0 <= k < s.len(),
        s[k] == s.filter(p)[i],
        p(s.filter(p)[i]),
    decreases s.len(),
{
    reveal(Seq::filter);
    let t = s.drop_last();
    if i < t.filter(p).len() {
        let k = lemma_filter_from(t, p, i);
        assert(s.filter(p)[i] == t.filter(p)[i]);
        k
    } else {
        s.len() - 1
    }
}

/// What filtering and mapping leaves was made of something that was there.
pub proof fn lemma_filter_map_from<A, B>(s: Seq<A>, f: spec_fn(A) -> Option<B>, i: int) -> (k: int)
    requires
        0 <= i < s.filter_map(f).len(),
    ensures
        0 <= k < s.len(),
        f(s[k]) == Some(s.filter_map(f)[i]),
    decreases s.len(),
{
    reveal(Seq::filter_map);
    let t = s.drop_last();
    if i < t.filter_map(f).len() {
        let k = lemma_filter_map_from(t, f, i);
        assert(s.filter_map(f)[i] == t.filter_map(f)[i]);
        k
    } else {
        s.len() - 1
    }
}

/// Filtering and mapping leaves no more than there was.
pub proof fn lemma_filter_map_len<A, B>(s: Seq<A>, f: spec_fn(A) -> Option<B>)
    ensures
        s.filter_map(f).len() <= s.len(),
    decreases s.len(),
{
    reveal(Seq::filter_map);
    if s.len() > 0 {
        lemma_filter_map_len(s.drop_last(), f);
    }
}

/// What filtering and mapping makes of an item is there.
pub proof fn lemma_filter_map_contains<A, B>(s: Seq<A>, f: spec_fn(A) -> Option<B>, i: int)
    requires
        0 <= i < s.len(),
        f(s[i]) is Some,
    ensures
        s.filter_map(f).contains(f(s[i])->0),
    decreases s.len(),
{
    reveal(Seq::filter_map);
    let t = s.drop_last();
    if i < t.len() {
        assert(t[i] == s[i]);
        lemma_filter_map_contains(t, f, i);
        let k = choose|k: int| 0 <= k < t.filter_map(f).len() && t.filter_map(f)[k] == f(s[i])->0;
        assert(s.filter_map(f)[k] == f(s[i])->0);
    } else {
        let r = s.filter_map(f);
        assert(r[r.len() - 1] == f(s[i])->0);
    }
}

/// Filtering and mapping two sequences one after the other.
pub proof fn lemma_filter_map_parts<A, B>(a: Seq<A>, b: Seq<A>, f: spec_fn(A) -> Option<B>)
    ensures
        (a + b).filter_map(f) == a.filter_map(f) + b.filter_map(f),
    decreases b.len(),
{
    reveal(Seq::filter_map);
    if b.len() == 0 {
        assert(a + b =~= a);
        assert(a.filter_map(f) + b.filter_map(f) =~= a.filter_map(f));
    } else {
        let t = b.drop_last();
        lemma_filter_map_parts(a, t, f);
        assert((a + b).drop_last() =~= a + t);
        assert((a + b).filter_map(f) =~= a.filter_map(f) + b.filter_map(f));
    }
}

/// Filtering and mapping one item.
pub proof fn lemma_filter_map_one<A, B>(x: A, f: spec_fn(A) -> Option<B>)
    ensures
        seq![x].filter_map(f) == match f(x) {
            Some(b) => seq![b],
            None => Seq::empty(),
        },
{
    reveal(Seq::filter_map);
    let t = seq![x].drop_last();
    assert(t =~= Seq::<A>::empty());
    assert(t.filter_map(f) =~= Seq::<B>::empty());
    assert(seq![x].filter_map(f) =~= match f(x) {
        Some(b) => seq![b],
        None => Seq::empty(),
    });
}

/// Filtering two sequences one after the other.
pub proof fn lemma_filter_parts<A>(a: Seq<A>, b: Seq<A>, p: spec_fn(A) -> bool)
    ensures
        (a + b).filter(p) == a.filter(p) + b.filter(p),
    decreases b.len(),
{
    reveal(Seq::filter);
    if b.len() == 0 {
        assert(a + b =~= a);
        assert(a.filter(p) + b.filter(p) =~= a.filter(p));
    } else {
        let t = b.drop_last();
        lemma_filter_parts(a, t, p);
        assert((a + b).drop_last() =~= a + t);
        assert((a + b).filter(p) =~= a.filter(p) + b.filter(p));
    }
}

/// An item is left by filtering just where it was there and `p` picks it out.
pub proof fn lemma_filter_has<A>(s: Seq<A>, p: spec_fn(A) -> bool, x: A)
    ensures
        s.filter(p).contains(x) == (s.contains(x) && p(x)),
    decreases s.len(),
{
    reveal(Seq::filter);
    if s.len() > 0 {
        let t = s.drop_last();
        lemma_filter_has(t, p, x);
        if s.filter(p).contains(x) {
            let i = choose|i: int| 0 <= i < s.filter(p).len() && s.filter(p)[i] == x;
            let k = lemma_filter_from(s, p, i);
            assert(s[k] == x);
        }
        if s.contains(x) && p(x) {
            let k = choose|k: int| 0 <= k < s.len() && s[k] == x;
            if k < t.len() {
                assert(t[k] == x);
                let i = choose|i: int| 0 <= i < t.filter(p).len() && t.filter(p)[i] == x;
                assert(s.filter(p)[i] == x);
            } else {
                assert(s.filter(p)[s.filter(p).len() - 1] == x);
            }
        }
    }
}

/// Something is made of an item just where it was there and `f` makes that of it.
pub proof fn lemma_filter_map_has<A, B>(s: Seq<A>, f: spec_fn(A) -> Option<B>, y: B)
    ensures
        s.filter_map(f).contains(y) == exists|i: int|
            0 <= i < s.len() && f(#[trigger] s[i]) == Some(y),
{
    if s.filter_map(f).contains(y) {
        let i = choose|i: int| 0 <= i < s.filter_map(f).len() && s.filter_map(f)[i] == y;
        let k = lemma_filter_map_from(s, f, i);
        assert(f(s[k]) == Some(y));
    }
    if exists|i: int| 0 <= i < s.len() && f(#[trigger] s[i]) == Some(y) {
        let i = choose|i: int| 0 <= i < s.len() && f(#[trigger] s[i]) == Some(y);
        lemma_filter_map_contains(s, f, i);
    }
}

/// Nothing is left of an empty prefix.
pub proof fn lemma_filter_none<A>(s: Seq<A>, p: spec_fn(A) -> bool)
    ensures
        s.take(0).filter(p) == Seq::<A>::empty(),
{
    reveal(Seq::filter);
    assert(s.take(0) =~= Seq::<A>::empty());
}

/// Nothing is left of an empty prefix.
pub proof fn lemma_filter_map_none<A, B>(s: Seq<A>, f: spec_fn(A) -> Option<B>)
    ensures
        s.take(0).filter_map(f) == Seq::<B>::empty(),
{
    reveal(Seq::filter_map);
    assert(s.take(0) =~= Seq::<A>::empty());
}

/// The whole of a sequence is a prefix of it.
pub proof fn lemma_take_all<A>(s: Seq<A>)
    ensures
        s.take(s.len() as int) == s,
{
    assert(s.take(s.len() as int) =~= s);
}

/// A prefix and one item more.
pub proof fn lemma_take_step<A>(s: Seq<A>, i: int)
    requires
        0 <= i < s.len(),
    ensures
        s.take(i + 1) == s.take(i).push(s[i]),
        s.take(i + 1).drop_last() == s.take(i),
        s.take(i + 1).last() == s[i],
{
    assert(s.take(i + 1) =~= s.take(i).push(s[i]));
    assert(s.take(i + 1).drop_last() =~= s.take(i));
}

/// Pushing a value pushes what it is.
pub proof fn lemma_deep_push<T: DeepView>(before: Vec<T>, after: Vec<T>, x: T)
    requires
        after@ == before@.push(x),
    ensures
        after.deep_view() == before.deep_view().push(x.deep_view()),
{
    assert(after.deep_view() =~= before.deep_view().push(x.deep_view()));
}

// ---------------------------------------------------------------------------
// The first item of a kind
// ---------------------------------------------------------------------------

/// The position of the first item that `p` picks out.
pub open spec fn first_index<A>(s: Seq<A>, p: spec_fn(A) -> bool) -> Option<int>
    decreases s.len(),
{
    if s.len() == 0 {
        None
    } else {
        match first_index(s.drop_last(), p) {
            Some(i) => Some(i),
            None => if p(s.last()) {
                Some(s.len() - 1)
            } else {
                None
            },
        }
    }
}

/// The first item that `p` picks out is the one before which it picks none.
pub proof fn lemma_first_index_some<A>(s: Seq<A>, p: spec_fn(A) -> bool, i: int)
    requires
        0 <= i < s.len(),
        p(s[i]),
        forall|k: int| 0 <= k < i ==> !p(#[trigger] s[k]),
    ensures
        first_index(s, p) == Some(i),
    decreases s.len(),
{
    let t = s.drop_last();
    if i == s.len() - 1 {
        lemma_first_index_none(t, p);
    } else {
        assert(t[i] == s[i]);
        lemma_first_index_some(t, p, i);
    }
}

/// Where `p` picks out nothing there is no first item.
pub proof fn lemma_first_index_none<A>(s: Seq<A>, p: spec_fn(A) -> bool)
    requires
        forall|k: int| 0 <= k < s.len() ==> !p(#[trigger] s[k]),
    ensures
        first_index(s, p) is None,
    decreases s.len(),
{
    if s.len() > 0 {
        assert(!p(s[s.len() - 1]));
        lemma_first_index_none(s.drop_last(), p);
    }
}

/// What a first position says.
pub proof fn lemma_first_index<A>(s: Seq<A>, p: spec_fn(A) -> bool)
    ensures
        match first_index(s, p) {
            Some(i) => 0 <= i < s.len() && p(s[i]) && (forall|k: int|
                0 <= k < i ==> !p(#[trigger] s[k])),
            None => forall|k: int| 0 <= k < s.len() ==> !p(#[trigger] s[k]),
        },
    decreases s.len(),
{
    if s.len() > 0 {
        let t = s.drop_last();
        lemma_first_index(t, p);
        assert forall|k: int| 0 <= k < t.len() implies t[k] == s[k] by {}
        if first_index(s, p) is None {
            assert forall|k: int| 0 <= k < s.len() implies !p(#[trigger] s[k]) by {
                if k < t.len() {
                    assert(!p(t[k]));
                }
            }
        } else {
            let i = first_index(s, p)->0;
            assert forall|k: int| 0 <= k < i implies !p(#[trigger] s[k]) by {
                assert(!p(t[k]));
            }
        }
    }
}

// ---------------------------------------------------------------------------
// Orders
// ---------------------------------------------------------------------------

/// The item at `a` comes before the item at `b`: by its key, and by its
/// position where the keys are equal.
pub open spec fn comes_before(keys: Seq<i64>, descending: bool, a: usize, b: usize) -> bool {
    if keys[a as int] == keys[b as int] {
        a < b
    } else if descending {
        keys[a as int] > keys[b as int]
    } else {
        keys[a as int] < keys[b as int]
    }
}

/// `order` lists the positions of `keys` by their keys, those with equal keys
/// in the order in which they stand.
pub open spec fn stably_ordered(keys: Seq<i64>, descending: bool, order: Seq<usize>) -> bool {
    &&& order.len() == keys.len()
    &&& forall|i: int| 0 <= i < order.len() ==> #[trigger] order[i] < keys.len()
    &&& forall|i: int, j: int|
        0 <= i < j < order.len() ==> comes_before(
            keys,
            descending,
            #[trigger] order[i],
            #[trigger] order[j],
        )
}

fn not_after(a: i64, b: i64, descending: bool) -> (r: bool)
    ensures
        r == (a == b || (descending && a > b) || (!descending && a < b)),
{
    a == b || (descending && a > b) || (!descending && a < b)
}

/// The positions of `keys` by their keys, those with equal keys in the order in
/// which they stand.
pub fn stable_order(keys: &Vec<i64>, descending: bool) -> (r: Vec<usize>)
    ensures
        stably_ordered(keys@, descending, r@),
{
    let mut r: Vec<usize> = Vec::new();
    let mut i: usize = 0;
    while i < keys.len()
        invariant
            i <= keys@.len(),
            r@.len() == i,
            forall|a: int| 0 <= a < i ==> #[trigger] r@[a] < i,
            forall|a: int, b: int|
                0 <= a < b < i ==> comes_before(
                    keys@,
                    descending,
                    #[trigger] r@[a],
                    #[trigger] r@[b],
                ),
        decreases keys@.len() - i,
    {
        let key: i64 = keys[i];
        let mut p: usize = 0;
        while p < r.len() && not_after(keys[r[p]], key, descending)
            invariant
                p <= r@.len() == i < keys@.len(),
                key == keys@[i as int],
                forall|a: int| 0 <= a < i ==> #[trigger] r@[a] < i,
                forall|a: int| 0 <= a < p ==> comes_before(keys@, descending, #[trigger] r@[a], i),
            decreases r@.len() - p,
        {
            p = p + 1;
        }
        let ghost before = r@;
        proof {
            assert forall|a: int| p <= a < before.len() implies comes_before(
                keys@,
                descending,
                i,
                #[trigger] before[a],
            ) by {
                if p < a {
                    assert(comes_before(keys@, descending, before[p as int], before[a]));
                }
            }
        }
        r.insert(p, i);
        i = i + 1;
    }
    r
}

/// An order lists each position.
pub proof fn lemma_order_covers(keys: Seq<i64>, descending: bool, order: Seq<usize>, k: int) -> (i:
    int)
    requires
        stably_ordered(keys, descending, order),
        0 <= k < keys.len(),
    ensures
        0 <= i < order.len(),
        order[i] == k,
{
    let s = order.map_values(|x: usize| x as int);
    assert forall|i: int, j: int| 0 <= i < s.len() && 0 <= j < s.len() && i != j implies s[i]
        != s[j] by {
        if i < j {
            assert(comes_before(keys, descending, order[i], order[j]));
        } else {
            assert(comes_before(keys, descending, order[j], order[i]));
        }
    }
    s.unique_seq_to_set();
    let all = vstd::set_lib::set_int_range(0, keys.len() as int);
    vstd::set_lib::lemma_int_range(0, keys.len() as int);
    assert forall|x: int| s.to_set().contains(x) implies all.contains(x) by {
        let i = choose|i: int| 0 <= i < s.len() && s[i] == x;
        assert(order[i] < keys.len());
    }
    vstd::seq_lib::seq_to_set_is_finite(s);
    vstd::set_lib::lemma_subset_equality(s.to_set(), all);
    assert(s.to_set().contains(k));
    let i = choose|i: int| 0 <= i < s.len() && s[i] == k;
    assert(order[i] == k);
    i
}

/// `items` in the order that `order` lists.
pub open spec fn reordered<A>(items: Seq<A>, order: Seq<usize>) -> Seq<A> {
    Seq::new(order.len(), |i: int| items[order[i] as int])
}

/// Copies of `items` in the order that `order` lists.
pub fn reorder<T: Replicate>(items: &[T], order: &Vec<usize>) -> (r: Vec<T>)
    requires
        forall|i: int| 0 <= i < order@.len() ==> #[trigger] order@[i] < items@.len(),
    ensures
        r.deep_view() == reordered(items.deep_view(), order@),
{
    let mut r: Vec<T> = Vec::new();
    let mut i: usize = 0;
    while i < order.len()
        invariant
            i <= order@.len(),
            r@.len() == i,
            forall|k: int| 0 <= k < order@.len() ==> #[trigger] order@[k] < items@.len(),
            forall|k: int|
                0 <= k < i ==> (#[trigger] r@[k]).deep_view()
                    == items@[order@[k] as int].deep_view(),
        decreases order@.len() - i,
    {
        r.push(items[order[i]].replicate());
        i = i + 1;
    }
    assert(r.deep_view() =~= reordered(items.deep_view(), order@));
    r
}

/// `r` has the items by their keys, those with equal keys in the order in which
/// they stand in `s`.
pub open spec fn sorted_by<A>(
    s: Seq<A>,
    key: spec_fn(A) -> i64,
    descending: bool,
    r: Seq<A>,
) -> bool {
    exists|order: Seq<usize>|
        #![trigger reordered(s, order)]
        stably_ordered(s.map_values(key), descending, order) && r == reordered(s, order)
}

/// What is sorted has the same items, none more often than before, each after
/// none that should come after it, and those with one key in their old order.
pub proof fn law_sorted_is_in_order<A>(
    s: Seq<A>,
    key: spec_fn(A) -> i64,
    descending: bool,
    r: Seq<A>,
)
    requires
        sorted_by(s, key, descending, r),
    ensures
        r.len() == s.len(),
        forall|x: A| r.contains(x) <==> s.contains(x),
        forall|i: int, j: int|
            0 <= i < j < r.len() ==> if descending {
                key(#[trigger] r[i]) >= key(#[trigger] r[j])
            } else {
                key(r[i]) <= key(r[j])
            },
        (forall|i: int, j: int|
            0 <= i < j < s.len() ==> if descending {
                key(#[trigger] s[i]) >= key(#[trigger] s[j])
            } else {
                key(s[i]) <= key(s[j])
            }) ==> r == s,
{
    let order = choose|order: Seq<usize>|
        #![trigger reordered(s, order)]
        stably_ordered(s.map_values(key), descending, order) && r == reordered(s, order);
    let keys = s.map_values(key);
    assert forall|i: int, j: int| 0 <= i < j < r.len() implies if descending {
        key(#[trigger] r[i]) >= key(#[trigger] r[j])
    } else {
        key(r[i]) <= key(r[j])
    } by {
        assert(comes_before(keys, descending, order[i], order[j]));
    }
    assert forall|x: A| r.contains(x) <==> s.contains(x) by {
        if r.contains(x) {
            let i = choose|i: int| 0 <= i < r.len() && r[i] == x;
            assert(s[order[i] as int] == x);
        }
        if s.contains(x) {
            let k = choose|k: int| 0 <= k < s.len() && s[k] == x;
            let i = lemma_order_covers(keys, descending, order, k);
            assert(r[i] == x);
        }
    }
    if forall|i: int, j: int|
        0 <= i < j < s.len() ==> if descending {
            key(#[trigger] s[i]) >= key(#[trigger] s[j])
        } else {
            key(s[i]) <= key(s[j])
        } {
        assert forall|i: int, j: int| 0 <= i < j < order.len() implies order[i] < order[j] by {
            assert(comes_before(keys, descending, order[i], order[j]));
            if order[j] < order[i] {
                assert(key(s[order[j] as int]) == keys[order[j] as int]);
                assert(key(s[order[i] as int]) == keys[order[i] as int]);
            }
        }
        lemma_ascending_is_all(order, s.len() as int);
        assert(r =~= s);
    }
}

proof fn lemma_ascending_is_all(order: Seq<usize>, n: int)
    requires
        order.len() == n,
        forall|i: int| 0 <= i < n ==> (#[trigger] order[i]) < n,
        forall|i: int, j: int| 0 <= i < j < n ==> order[i] < order[j],
    ensures
        forall|i: int| 0 <= i < n ==> (#[trigger] order[i]) == i,
{
    assert forall|i: int| 0 <= i < n implies (#[trigger] order[i]) == i by {
        lemma_at_least(order, i);
        lemma_at_most(order, i);
    }
}

proof fn lemma_at_least(order: Seq<usize>, i: int)
    requires
        0 <= i < order.len(),
        forall|i: int, j: int| 0 <= i < j < order.len() ==> order[i] < order[j],
    ensures
        order[i] >= i,
    decreases i,
{
    if i > 0 {
        lemma_at_least(order, i - 1);
        assert(order[i - 1] < order[i]);
    }
}

proof fn lemma_at_most(order: Seq<usize>, i: int)
    requires
        0 <= i < order.len(),
        forall|i: int| 0 <= i < order.len() ==> (#[trigger] order[i]) < order.len(),
        forall|i: int, j: int| 0 <= i < j < order.len() ==> order[i] < order[j],
    ensures
        order[i] <= i,
    decreases order.len() - i,
{
    if i < order.len() - 1 {
        lemma_at_most(order, i + 1);
        assert(order[i] < order[i + 1]);
    }
}

/// What two sequences hold, their concatenation holds.
pub proof fn lemma_has_parts<A>(a: Seq<A>, b: Seq<A>, x: A)
    ensures
        (a + b).contains(x) == (a.contains(x) || b.contains(x)),
{
    if a.contains(x) {
        let k = choose|k: int| 0 <= k < a.len() && a[k] == x;
        assert((a + b)[k] == x);
    }
    if b.contains(x) {
        let k = choose|k: int| 0 <= k < b.len() && b[k] == x;
        assert((a + b)[a.len() + k] == x);
    }
    if (a + b).contains(x) {
        let k = choose|k: int| 0 <= k < (a + b).len() && (a + b)[k] == x;
        if k < a.len() {
            assert(a[k] == x);
        } else {
            assert(b[k - a.len()] == x);
        }
    }
}

/// What is pushed is there, beside what was.
pub proof fn lemma_push_has<A>(s: Seq<A>, a: A, x: A)
    ensures
        s.push(a).contains(x) <==> s.contains(x) || x == a,
{
    if s.contains(x) {
        let k = choose|k: int| 0 <= k < s.len() && s[k] == x;
        assert(s.push(a)[k] == x);
    }
    assert(s.push(a)[s.len() as int] == a);
    if s.push(a).contains(x) && x != a {
        let k = choose|k: int| 0 <= k < s.push(a).len() && s.push(a)[k] == x;
        assert(s[k] == x);
    }
}

} // verus!
