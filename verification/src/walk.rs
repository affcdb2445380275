//! Walks over sequences with a function for each item.

use crate::replicate::Replicate;
use crate::seqs::{
    reorder, sorted_by, stable_order,
    first_index, lemma_deep_push, lemma_filter_map_none, lemma_filter_map_step, lemma_filter_none,
    lemma_filter_step, lemma_first_index_none, lemma_first_index_some, lemma_take_all,
    lemma_take_step,
};
use vstd::prelude::*;

verus! {

/// What `f` makes of each item is what `g` makes of what the item is.
pub open spec fn computes<T: DeepView, U: DeepView, F: Fn(&T) -> U>(
    f: F,
    g: spec_fn(T::V) -> U::V,
) -> bool {
    &&& forall|x: &T| #[trigger] call_requires(f, (x,))
    &&& forall|x: &T, y: U| #[trigger]
        call_ensures(f, (x,), y) ==> y.deep_view() == g(x.deep_view())
}

/// `f` says of each item what `p` says of what the item is.
pub open spec fn decides<T: DeepView, F: Fn(&T) -> bool>(f: F, p: spec_fn(T::V) -> bool) -> bool {
    &&& forall|x: &T| #[trigger] call_requires(f, (x,))
    &&& forall|x: &T, y: bool| #[trigger] call_ensures(f, (x,), y) ==> y == p(x.deep_view())
}

/// What `f` makes of each item, in order.
pub(crate) fn map_each<T: DeepView, U: DeepView, F: Fn(&T) -> U>(
    items: &[T],
    f: F,
    Ghost(g): Ghost<spec_fn(T::V) -> U::V>,
) -> (r: Vec<U>)
    requires
        computes(f, g),
    ensures
        r.deep_view() == items.deep_view().map_values(g),
{
    let mut r: Vec<U> = Vec::new();
    let mut i: usize = 0;
    while i < items.len()
        invariant
            i <= items@.len(),
            computes(f, g),
            r@.len() == i,
            forall|k: int|
                0 <= k < i ==> (#[trigger] r@[k]).deep_view() == g(items@[k].deep_view()),
        decreases items@.len() - i,
    {
        r.push(f(&items[i]));
        i = i + 1;
    }
    assert(r.deep_view() =~= items.deep_view().map_values(g));
    r
}

/// Copies of the items that `f` picks out, in order.
pub(crate) fn filter_each<T: Replicate, F: Fn(&T) -> bool>(
    items: &[T],
    f: F,
    Ghost(p): Ghost<spec_fn(T::V) -> bool>,
) -> (r: Vec<T>)
    requires
        decides(f, p),
    ensures
        r.deep_view() == items.deep_view().filter(p),
{
    let ghost all = items.deep_view();
    let mut r: Vec<T> = Vec::new();
    let mut i: usize = 0;
    proof {
        lemma_filter_none(all, p);
        assert(r.deep_view() =~= Seq::<T::V>::empty());
    }
    while i < items.len()
        invariant
            i <= items@.len(),
            all == items.deep_view(),
            decides(f, p),
            r.deep_view() == all.take(i as int).filter(p),
        decreases items@.len() - i,
    {
        let ghost before = r;
        proof {
            lemma_filter_step(all, i as int, p);
            assert(all[i as int] == items@[i as int].deep_view());
        }
        if f(&items[i]) {
            let x = items[i].replicate();
            r.push(x);
            proof {
                lemma_deep_push(before, r, x);
            }
        }
        i = i + 1;
    }
    proof {
        lemma_take_all(all);
    }
    r
}

/// What `f` makes of each item of which it makes something, in order.
pub(crate) fn filter_map_each<T: DeepView, U: DeepView, F: Fn(&T) -> Option<U>>(
    items: &[T],
    f: F,
    Ghost(g): Ghost<spec_fn(T::V) -> Option<U::V>>,
) -> (r: Vec<U>)
    requires
        computes(f, g),
    ensures
        r.deep_view() == items.deep_view().filter_map(g),
{
    let ghost all = items.deep_view();
    let mut r: Vec<U> = Vec::new();
    let mut i: usize = 0;
    proof {
        lemma_filter_map_none(all, g);
        assert(r.deep_view() =~= Seq::<U::V>::empty());
    }
    while i < items.len()
        invariant
            i <= items@.len(),
            all == items.deep_view(),
            computes(f, g),
            r.deep_view() == all.take(i as int).filter_map(g),
        decreases items@.len() - i,
    {
        let ghost before = r;
        proof {
            lemma_filter_map_step(all, i as int, g);
            assert(all[i as int] == items@[i as int].deep_view());
        }
        match f(&items[i]) {
            Some(x) => {
                r.push(x);
                proof {
                    lemma_deep_push(before, r, x);
                }
            },
            None => {},
        }
        i = i + 1;
    }
    proof {
        lemma_take_all(all);
    }
    r
}

/// `p` picks out one of the items.
pub open spec fn some_is<A>(s: Seq<A>, p: spec_fn(A) -> bool) -> bool {
    exists|i: int| 0 <= i < s.len() && p(#[trigger] s[i])
}

/// Whether `f` picks out one of the items.
pub(crate) fn any_is<T: DeepView, F: Fn(&T) -> bool>(
    items: &[T],
    f: F,
    Ghost(p): Ghost<spec_fn(T::V) -> bool>,
) -> (r: bool)
    requires
        decides(f, p),
    ensures
        r == some_is(items.deep_view(), p),
{
    let ghost all = items.deep_view();
    let mut i: usize = 0;
    while i < items.len()
        invariant
            i <= items@.len(),
            all == items.deep_view(),
            decides(f, p),
            forall|k: int| 0 <= k < i ==> !p(#[trigger] all[k]),
        decreases items@.len() - i,
    {
        assert(all[i as int] == items@[i as int].deep_view());
        if f(&items[i]) {
            assert(p(all[i as int]));
            return true;
        }
        i = i + 1;
    }
    false
}

/// The position of the first item that `f` picks out.
pub(crate) fn position<T: DeepView, F: Fn(&T) -> bool>(
    items: &[T],
    f: F,
    Ghost(p): Ghost<spec_fn(T::V) -> bool>,
) -> (r: Option<usize>)
    requires
        decides(f, p),
    ensures
        match r {
            Some(i) => i < items@.len() && first_index(items.deep_view(), p) == Some(i as int),
            None => first_index(items.deep_view(), p) is None,
        },
{
    let ghost all = items.deep_view();
    let mut i: usize = 0;
    while i < items.len()
        invariant
            i <= items@.len(),
            all == items.deep_view(),
            decides(f, p),
            forall|k: int| 0 <= k < i ==> !p(#[trigger] all[k]),
        decreases items@.len() - i,
    {
        assert(all[i as int] == items@[i as int].deep_view());
        if f(&items[i]) {
            proof {
                lemma_first_index_some(all, p, i as int);
            }
            return Some(i);
        }
        i = i + 1;
    }
    proof {
        lemma_first_index_none(all, p);
    }
    None
}

/// The first `n` items, or all where there are fewer.
pub open spec fn at_most<A>(s: Seq<A>, n: nat) -> Seq<A> {
    if s.len() <= n {
        s
    } else {
        s.take(n as int)
    }
}

/// Copies of the first `n` items, or of all where there are fewer.
pub fn first_items<T: Replicate>(items: &[T], n: usize) -> (r: Vec<T>)
    ensures
        r.deep_view() == at_most(items.deep_view(), n as nat),
{
    let mut r: Vec<T> = Vec::new();
    let mut i: usize = 0;
    while i < items.len() && i < n
        invariant
            i <= items@.len(),
            i <= n,
            r@.len() == i,
            forall|k: int| 0 <= k < i ==> (#[trigger] r@[k]).deep_view() == items@[k].deep_view(),
        decreases items@.len() - i,
    {
        r.push(items[i].replicate());
        i = i + 1;
    }
    assert(r.deep_view() =~= at_most(items.deep_view(), n as nat));
    r
}

/// Copies of the items, the last first.
pub fn reversed<T: Replicate>(items: &[T]) -> (r: Vec<T>)
    ensures
        r.deep_view() == items.deep_view().reverse(),
{
    let mut r: Vec<T> = Vec::new();
    let total: usize = items.len();
    let mut i: usize = 0;
    while i < total
        invariant
            i <= total == items@.len(),
            r@.len() == i,
            forall|k: int|
                0 <= k < i ==> (#[trigger] r@[k]).deep_view() == items@[total - 1 - k].deep_view(),
        decreases total - i,
    {
        r.push(items[total - 1 - i].replicate());
        i = i + 1;
    }
    assert(r.deep_view() =~= items.deep_view().reverse());
    r
}

/// Adds `more` at the end.
pub fn append_all<T: DeepView>(items: &mut Vec<T>, more: Vec<T>)
    ensures
        final(items).deep_view() == old(items).deep_view() + more.deep_view(),
{
    let ghost before = items.deep_view();
    let ghost added = more.deep_view();
    let mut rest = more;
    items.append(&mut rest);
    assert(items.deep_view() =~= before + added);
}

/// Adds one item at the end.
pub fn push_one<T: DeepView>(items: &mut Vec<T>, x: T)
    ensures
        final(items).deep_view() == old(items).deep_view().push(x.deep_view()),
{
    let ghost before = *items;
    items.push(x);
    proof {
        lemma_deep_push(before, *items, x);
    }
}

/// No items.
pub fn no_items<T: DeepView>() -> (r: Vec<T>)
    ensures
        r.deep_view() == Seq::<T::V>::empty(),
{
    let r: Vec<T> = Vec::new();
    assert(r.deep_view() =~= Seq::<T::V>::empty());
    r
}

/// What `g` makes of each item, one after the other.
pub open spec fn flat_mapped<A, B>(s: Seq<A>, g: spec_fn(A) -> Seq<B>) -> Seq<B>
    decreases s.len(),
{
    if s.len() == 0 {
        Seq::empty()
    } else {
        flat_mapped(s.drop_last(), g) + g(s.last())
    }
}

/// What `f` makes of each item, one after the other.
pub(crate) fn flat_map_each<T: DeepView, U: DeepView, F: Fn(&T) -> Vec<U>>(
    items: &[T],
    f: F,
    Ghost(g): Ghost<spec_fn(T::V) -> Seq<U::V>>,
) -> (r: Vec<U>)
    requires
        computes(f, g),
    ensures
        r.deep_view() == flat_mapped(items.deep_view(), g),
{
    let ghost all = items.deep_view();
    let mut r: Vec<U> = no_items();
    let mut i: usize = 0;
    assert(all.take(0) =~= Seq::<T::V>::empty());
    while i < items.len()
        invariant
            i <= items@.len(),
            all == items.deep_view(),
            computes(f, g),
            r.deep_view() == flat_mapped(all.take(i as int), g),
        decreases items@.len() - i,
    {
        proof {
            lemma_take_step(all, i as int);
            assert(all[i as int] == items@[i as int].deep_view());
        }
        append_all(&mut r, f(&items[i]));
        i = i + 1;
    }
    proof {
        lemma_take_all(all);
    }
    r
}

/// Copies of the items by their keys, those with equal keys in the order in
/// which they stand.
pub(crate) fn sort_each<T: Replicate, F: Fn(&T) -> i64>(
    items: &[T],
    f: F,
    descending: bool,
    Ghost(g): Ghost<spec_fn(T::V) -> i64>,
) -> (r: Vec<T>)
    requires
        computes(f, g),
    ensures
        sorted_by(items.deep_view(), g, descending, r.deep_view()),
{
    let keys = map_each(items, f, Ghost(g));
    assert(keys@ =~= keys.deep_view());
    let order = stable_order(&keys, descending);
    reorder(items, &order)
}

} // verus!
