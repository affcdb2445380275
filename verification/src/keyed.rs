//! Items that are kept under a key of their own.

use crate::order::{
    comes_first, lemma_text_less_total, lemma_text_less_transitive, text_less,
};
use crate::replicate::Replicate;
use crate::seqs::{
    first_index, lemma_first_index, lemma_first_index_none, lemma_first_index_some, lemma_take_all,
    lemma_take_step,
};
use crate::text::same;
use crate::walk::position;
use vstd::prelude::*;

verus! {

/// A type whose values have a key.
pub trait Keyed: Replicate {
    /// The key of a value.
    spec fn key_of(v: Self::V) -> Seq<char>;

    /// The key of this value.
    fn key(&self) -> (r: &str)
        ensures
            r@ == Self::key_of(self.deep_view()),
    ;
}

/// The items with the key.
pub open spec fn with_key<T: Keyed>(key: Seq<char>) -> spec_fn(T::V) -> bool {
    |x: T::V| T::key_of(x) == key
}

/// Where the item with the key stands.
pub open spec fn keyed_index<T: Keyed>(s: Seq<T::V>, key: Seq<char>) -> Option<int> {
    first_index(s, with_key::<T>(key))
}

/// The item with the key.
pub open spec fn keyed_item<T: Keyed>(s: Seq<T::V>, key: Seq<char>) -> Option<T::V> {
    match keyed_index::<T>(s, key) {
        Some(i) => Some(s[i]),
        None => None,
    }
}

/// The items with `x` in place of the one with its key, or at the end.
pub open spec fn keyed_put<T: Keyed>(s: Seq<T::V>, x: T::V) -> Seq<T::V> {
    match keyed_index::<T>(s, T::key_of(x)) {
        Some(i) => s.update(i, x),
        None => s.push(x),
    }
}

/// The items with each of `more` put among them.
pub open spec fn keyed_put_all<T: Keyed>(s: Seq<T::V>, more: Seq<T::V>) -> Seq<T::V>
    decreases more.len(),
{
    if more.len() == 0 {
        s
    } else {
        keyed_put::<T>(keyed_put_all::<T>(s, more.drop_last()), more.last())
    }
}

/// No two items have one key.
pub open spec fn distinct_keys<T: Keyed>(s: Seq<T::V>) -> bool {
    forall|i: int, j: int|
        0 <= i < j < s.len() ==> T::key_of(#[trigger] s[i]) != T::key_of(#[trigger] s[j])
}

/// Where the item with the key stands.
pub fn find_keyed<T: Keyed>(items: &Vec<T>, key: &str) -> (r: Option<usize>)
    ensures
        match r {
            Some(i) => i < items@.len() && keyed_index::<T>(items.deep_view(), key@) == Some(
                i as int,
            ),
            None => keyed_index::<T>(items.deep_view(), key@) is None,
        },
{
    let f = |x: &T| -> (r: bool)
        ensures r == (T::key_of(x.deep_view()) == key@)
    {
        same(x.key(), key)
    };
    position(items.as_slice(), f, Ghost(with_key::<T>(key@)))
}

/// A copy of the item with the key.
pub fn get_keyed<T: Keyed>(items: &Vec<T>, key: &str) -> (r: Option<T>)
    ensures
        r.deep_view() == keyed_item::<T>(items.deep_view(), key@),
{
    match find_keyed(items, key) {
        Some(i) => {
            assert(items.deep_view()[i as int] == items@[i as int].deep_view());
            Some(items[i].replicate())
        },
        None => None,
    }
}

/// Puts an item in place of the one with its key, or at the end.
pub fn put_keyed<T: Keyed>(items: &mut Vec<T>, x: T)
    ensures
        final(items).deep_view() == keyed_put::<T>(old(items).deep_view(), x.deep_view()),
{
    let ghost before = items.deep_view();
    match find_keyed(items, x.key()) {
        Some(i) => {
            items.set(i, x);
            assert(items.deep_view() =~= before.update(i as int, x.deep_view()));
        },
        None => {
            items.push(x);
            assert(items.deep_view() =~= before.push(x.deep_view()));
        },
    }
}

/// Puts each of several items in place of the one with its key, or at the end.
pub fn put_all<T: Keyed>(items: &mut Vec<T>, more: &Vec<T>)
    ensures
        final(items).deep_view() == keyed_put_all::<T>(old(items).deep_view(), more.deep_view()),
{
    let ghost start = items.deep_view();
    let ghost all = more.deep_view();
    let mut i: usize = 0;
    assert(all.take(0) =~= Seq::<T::V>::empty());
    while i < more.len()
        invariant
            i <= more@.len(),
            all == more.deep_view(),
            items.deep_view() == keyed_put_all::<T>(start, all.take(i as int)),
        decreases more@.len() - i,
    {
        proof {
            lemma_take_step(all, i as int);
            assert(all[i as int] == more@[i as int].deep_view());
        }
        put_keyed(items, more[i].replicate());
        i = i + 1;
    }
    proof {
        lemma_take_all(all);
    }
}

/// An item that was put is found under its key, and every other item is found
/// as it was.
pub proof fn law_put_is_found<T: Keyed>(s: Seq<T::V>, x: T::V, key: Seq<char>)
    ensures
        keyed_item::<T>(keyed_put::<T>(s, x), T::key_of(x)) == Some(x),
        key != T::key_of(x) ==> keyed_item::<T>(keyed_put::<T>(s, x), key) == keyed_item::<T>(
            s,
            key,
        ),
{
    let after = keyed_put::<T>(s, x);
    let p = with_key::<T>(T::key_of(x));
    let q = with_key::<T>(key);
    lemma_first_index(s, p);
    let at = match keyed_index::<T>(s, T::key_of(x)) {
        Some(i) => i,
        None => s.len() as int,
    };
    assert forall|k: int| 0 <= k < at implies !p(#[trigger] after[k]) by {
        assert(!p(s[k]));
    }
    lemma_first_index_some(after, p, at);
    if key != T::key_of(x) {
        lemma_first_index(s, q);
        match keyed_index::<T>(s, key) {
            Some(i) => {
                assert(q(s[i]));
                assert(after[i] == s[i]);
                assert forall|k: int| 0 <= k < i implies !q(#[trigger] after[k]) by {
                    assert(!q(s[k]));
                }
                lemma_first_index_some(after, q, i);
            },
            None => {
                assert forall|k: int| 0 <= k < after.len() implies !q(#[trigger] after[k]) by {
                    if k < s.len() && k != at {
                        assert(!q(s[k]));
                    }
                }
                lemma_first_index_none(after, q);
            },
        }
    }
}

/// Putting an item keeps the keys distinct.
pub proof fn law_put_keeps_keys_distinct<T: Keyed>(s: Seq<T::V>, x: T::V)
    requires
        distinct_keys::<T>(s),
    ensures
        distinct_keys::<T>(keyed_put::<T>(s, x)),
{
    let after = keyed_put::<T>(s, x);
    let p = with_key::<T>(T::key_of(x));
    lemma_first_index(s, p);
    assert forall|i: int, j: int| 0 <= i < j < after.len() implies T::key_of(#[trigger] after[i])
        != T::key_of(#[trigger] after[j]) by {
        if j < s.len() {
            assert(T::key_of(s[i]) != T::key_of(s[j]));
            if keyed_index::<T>(s, T::key_of(x)) is Some {
                assert(p(s[keyed_index::<T>(s, T::key_of(x))->0]));
            }
        } else {
            assert(!p(s[i]));
        }
    }
}

proof fn lemma_put_some<T: Keyed>(s: Seq<T::V>, more: Seq<T::V>, n: int)
    requires
        distinct_keys::<T>(more),
        s.len() <= more.len(),
        forall|i: int|
            0 <= i < s.len() ==> T::key_of(#[trigger] s[i]) == T::key_of(more[i]),
        0 <= n <= more.len(),
    ensures
        keyed_put_all::<T>(s, more.take(n)) == if n < s.len() {
            more.take(n) + s.skip(n)
        } else {
            more.take(n)
        },
    decreases n,
{
    if n == 0 {
        assert(more.take(0) =~= Seq::<T::V>::empty());
        assert(keyed_put_all::<T>(s, more.take(0)) =~= if 0 < s.len() {
            more.take(0) + s.skip(0)
        } else {
            more.take(0)
        });
    } else {
        lemma_put_some::<T>(s, more, n - 1);
        lemma_take_step(more, n - 1);
        let x = more[n - 1];
        let before = keyed_put_all::<T>(s, more.take(n - 1));
        let p = with_key::<T>(T::key_of(x));
        assert forall|k: int| 0 <= k < before.len() && k != n - 1 implies !p(
            #[trigger] before[k],
        ) by {
            if k < n - 1 {
                assert(before[k] == more[k]);
                assert(T::key_of(more[k]) != T::key_of(more[n - 1]));
            } else {
                assert(before[k] == s[k]);
                assert(T::key_of(more[n - 1]) != T::key_of(more[k]));
            }
        }
        if n - 1 < s.len() {
            assert(before[n - 1] == s[n - 1]);
            lemma_first_index_some(before, p, n - 1);
        } else {
            lemma_first_index_none(before, p);
        }
        assert(keyed_put::<T>(before, x) =~= if n < s.len() {
            more.take(n) + s.skip(n)
        } else {
            more.take(n)
        });
    }
}

/// Putting items that begin with the keys of those that are there, and whose
/// keys are distinct, leaves just these items.
pub proof fn law_put_all_replaces<T: Keyed>(s: Seq<T::V>, more: Seq<T::V>)
    requires
        distinct_keys::<T>(more),
        s.len() <= more.len(),
        forall|i: int|
            0 <= i < s.len() ==> T::key_of(#[trigger] s[i]) == T::key_of(more[i]),
    ensures
        keyed_put_all::<T>(s, more) == more,
{
    lemma_put_some::<T>(s, more, more.len() as int);
    lemma_take_all(more);
}

// ---------------------------------------------------------------------------
// In the order of the keys
// ---------------------------------------------------------------------------

/// The keys come one after the other.
pub open spec fn ascending<T: Keyed>(s: Seq<T::V>) -> bool {
    forall|i: int, j: int|
        0 <= i < j < s.len() ==> text_less(T::key_of(#[trigger] s[i]), T::key_of(#[trigger] s[j]))
}

/// `x` put behind the last item whose key does not come after its own.
pub open spec fn keyed_inserted<T: Keyed>(s: Seq<T::V>, x: T::V) -> Seq<T::V>
    decreases s.len(),
{
    if s.len() == 0 {
        seq![x]
    } else if text_less(T::key_of(x), T::key_of(s.last())) {
        keyed_inserted::<T>(s.drop_last(), x).push(s.last())
    } else {
        s.push(x)
    }
}

/// Puts an item in its place by the order of the keys.
pub fn insert_keyed<T: Keyed>(items: &mut Vec<T>, x: T)
    ensures
        final(items).deep_view() == keyed_inserted::<T>(old(items).deep_view(), x.deep_view()),
{
    let ghost before = items.deep_view();
    let ghost v = x.deep_view();
    let mut p: usize = items.len();
    assert(before.take(p as int) =~= before);
    assert(keyed_inserted::<T>(before.take(p as int), v) + before.skip(p as int)
        =~= keyed_inserted::<T>(before, v));
    while p > 0 && comes_first(x.key(), items[p - 1].key())
        invariant
            p <= items@.len(),
            before == items.deep_view(),
            v == x.deep_view(),
            keyed_inserted::<T>(before.take(p as int), v) + before.skip(p as int)
                == keyed_inserted::<T>(before, v),
        decreases p,
    {
        proof {
            let t = before.take(p as int);
            assert(t.last() == items@[p - 1].deep_view());
            assert(t.drop_last() =~= before.take(p - 1));
            assert(keyed_inserted::<T>(t, v) + before.skip(p as int) =~= keyed_inserted::<T>(
                before.take(p - 1),
                v,
            ) + before.skip(p - 1));
        }
        p = p - 1;
    }
    proof {
        let t = before.take(p as int);
        if p > 0 {
            assert(t.last() == items@[p - 1].deep_view());
        } else {
            assert(t =~= Seq::<T::V>::empty());
            assert(keyed_inserted::<T>(t, v) =~= t.push(v));
        }
        assert(keyed_inserted::<T>(before, v) =~= before.insert(p as int, v));
    }
    items.insert(p, x);
    assert(items.deep_view() =~= before.insert(p as int, v));
}

pub(crate) proof fn lemma_inserted_items<T: Keyed>(s: Seq<T::V>, x: T::V)
    ensures
        keyed_inserted::<T>(s, x).len() == s.len() + 1,
        forall|i: int|
            0 <= i < keyed_inserted::<T>(s, x).len() ==> (#[trigger] keyed_inserted::<T>(s, x)[i]
                == x || s.contains(keyed_inserted::<T>(s, x)[i])),
    decreases s.len(),
{
    let r = keyed_inserted::<T>(s, x);
    if s.len() > 0 && text_less(T::key_of(x), T::key_of(s.last())) {
        let rest = s.drop_last();
        lemma_inserted_items::<T>(rest, x);
        let t = keyed_inserted::<T>(rest, x);
        assert forall|i: int| 0 <= i < r.len() implies (#[trigger] r[i] == x || s.contains(
            r[i],
        )) by {
            if i < t.len() {
                assert(r[i] == t[i]);
                if t[i] != x {
                    let k = choose|k: int| 0 <= k < rest.len() && rest[k] == t[i];
                    assert(s[k] == r[i]);
                }
            } else {
                assert(s[s.len() - 1] == r[i]);
            }
        }
    } else if s.len() > 0 {
        assert forall|i: int| 0 <= i < r.len() implies (#[trigger] r[i] == x || s.contains(
            r[i],
        )) by {
            if i < s.len() {
                assert(s[i] == r[i]);
            }
        }
    }
}

/// Putting an item with a new key in its place keeps the order of the keys.
pub proof fn law_insert_keeps_order<T: Keyed>(s: Seq<T::V>, x: T::V)
    requires
        ascending::<T>(s),
        keyed_index::<T>(s, T::key_of(x)) is None,
    ensures
        ascending::<T>(keyed_inserted::<T>(s, x)),
    decreases s.len(),
{
    let r = keyed_inserted::<T>(s, x);
    let p = with_key::<T>(T::key_of(x));
    lemma_first_index(s, p);
    if s.len() > 0 {
        let rest = s.drop_last();
        let last = s.last();
        assert(!p(s[s.len() - 1]));
        lemma_text_less_total(T::key_of(x), T::key_of(last));
        if text_less(T::key_of(x), T::key_of(last)) {
            assert forall|k: int| 0 <= k < rest.len() implies !p(#[trigger] rest[k]) by {
                assert(!p(s[k]));
            }
            lemma_first_index_none(rest, p);
            assert forall|i: int, j: int| 0 <= i < j < rest.len() implies text_less(
                T::key_of(#[trigger] rest[i]),
                T::key_of(#[trigger] rest[j]),
            ) by {
                assert(text_less(T::key_of(s[i]), T::key_of(s[j])));
            }
            law_insert_keeps_order::<T>(rest, x);
            lemma_inserted_items::<T>(rest, x);
            let t = keyed_inserted::<T>(rest, x);
            assert forall|i: int, j: int| 0 <= i < j < r.len() implies text_less(
                T::key_of(#[trigger] r[i]),
                T::key_of(#[trigger] r[j]),
            ) by {
                if j == t.len() {
                    assert(r[i] == t[i]);
                    if t[i] != x {
                        let k = choose|k: int| 0 <= k < rest.len() && rest[k] == t[i];
                        assert(text_less(T::key_of(s[k]), T::key_of(s[s.len() - 1])));
                    }
                } else {
                    assert(r[i] == t[i] && r[j] == t[j]);
                }
            }
        } else {
            assert forall|i: int, j: int| 0 <= i < j < r.len() implies text_less(
                T::key_of(#[trigger] r[i]),
                T::key_of(#[trigger] r[j]),
            ) by {
                if j == s.len() {
                    if i < s.len() - 1 {
                        assert(text_less(T::key_of(s[i]), T::key_of(s[s.len() - 1])));
                        lemma_text_less_transitive(
                            T::key_of(s[i]),
                            T::key_of(last),
                            T::key_of(x),
                        );
                    }
                } else {
                    assert(text_less(T::key_of(s[i]), T::key_of(s[j])));
                }
            }
        }
    }
}

/// What is found under a key is the first item that has it; and nothing is
/// found only where no item has it.
pub proof fn law_found_has_the_key<T: Keyed>(s: Seq<T::V>, key: Seq<char>)
    ensures
        keyed_item::<T>(s, key) is None <==> forall|i: int|
            0 <= i < s.len() ==> T::key_of(#[trigger] s[i]) != key,
        keyed_item::<T>(s, key) matches Some(x) ==> T::key_of(x) == key && exists|i: int|
            0 <= i < s.len() && #[trigger] s[i] == x && forall|k: int|
                0 <= k < i ==> T::key_of(#[trigger] s[k]) != key,
{
    let p = with_key::<T>(key);
    lemma_first_index(s, p);
    match keyed_index::<T>(s, key) {
        Some(i) => {
            assert(p(s[i]));
            assert forall|k: int| 0 <= k < i implies T::key_of(#[trigger] s[k]) != key by {
                assert(!p(s[k]));
            }
        },
        None => {
            assert forall|i: int| 0 <= i < s.len() implies T::key_of(#[trigger] s[i]) != key by {
                assert(!p(s[i]));
            }
        },
    }
}

} // verus!
