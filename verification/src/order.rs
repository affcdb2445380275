//! The order of texts.

use crate::text::chars_of;
use crate::walk::no_items;
use vstd::prelude::*;

verus! {

/// `a` comes before `b`: at the first place where they differ it has the
/// smaller character, or it ends there.
pub open spec fn text_less(a: Seq<char>, b: Seq<char>) -> bool
    decreases a.len(),
{
    if b.len() == 0 {
        false
    } else if a.len() == 0 {
        true
    } else if a[0] != b[0] {
        a[0] < b[0]
    } else {
        text_less(a.skip(1), b.skip(1))
    }
}

/// No text comes before itself.
pub proof fn lemma_text_less_irreflexive(a: Seq<char>)
    ensures
        !text_less(a, a),
    decreases a.len(),
{
    if a.len() > 0 {
        lemma_text_less_irreflexive(a.skip(1));
    }
}

/// What comes before something comes before all that comes after it.
pub proof fn lemma_text_less_transitive(a: Seq<char>, b: Seq<char>, c: Seq<char>)
    requires
        text_less(a, b),
        text_less(b, c),
    ensures
        text_less(a, c),
    decreases a.len(),
{
    if a.len() > 0 && a[0] == b[0] && b[0] == c[0] {
        lemma_text_less_transitive(a.skip(1), b.skip(1), c.skip(1));
    }
}

/// Of two different texts one comes first.
pub proof fn lemma_text_less_total(a: Seq<char>, b: Seq<char>)
    ensures
        text_less(a, b) || text_less(b, a) || a == b,
    decreases a.len(),
{
    if a.len() > 0 && b.len() > 0 && a[0] == b[0] {
        lemma_text_less_total(a.skip(1), b.skip(1));
        if a.skip(1) == b.skip(1) {
            assert(a =~= seq![a[0]] + a.skip(1));
            assert(b =~= seq![b[0]] + b.skip(1));
        }
    } else if a.len() == 0 && b.len() == 0 {
        assert(a =~= b);
    }
}

/// Whether `a` comes before `b`.
pub fn comes_first(a: &str, b: &str) -> (r: bool)
    ensures
        r == text_less(a@, b@),
{
    let x = chars_of(a);
    let y = chars_of(b);
    let mut i: usize = 0;
    assert(a@.skip(0) =~= a@);
    assert(b@.skip(0) =~= b@);
    while i < x.len() && i < y.len()
        invariant
            i <= x@.len(),
            i <= y@.len(),
            x@ == a@,
            y@ == b@,
            text_less(a@, b@) == text_less(a@.skip(i as int), b@.skip(i as int)),
        decreases x@.len() - i,
    {
        assert(a@.skip(i as int)[0] == x@[i as int]);
        assert(b@.skip(i as int)[0] == y@[i as int]);
        if x[i] != y[i] {
            return x[i] < y[i];
        }
        assert(a@.skip(i as int).skip(1) =~= a@.skip(i + 1));
        assert(b@.skip(i as int).skip(1) =~= b@.skip(i + 1));
        i = i + 1;
    }
    i < y.len()
}

/// `x` put before the first of the texts that comes after it.
pub open spec fn text_inserted(s: Seq<Seq<char>>, x: Seq<char>) -> Seq<Seq<char>>
    decreases s.len(),
{
    if s.len() == 0 {
        seq![x]
    } else if text_less(x, s.last()) {
        text_inserted(s.drop_last(), x).push(s.last())
    } else {
        s.push(x)
    }
}

/// The texts in order.
pub open spec fn in_order(s: Seq<Seq<char>>) -> Seq<Seq<char>>
    decreases s.len(),
{
    if s.len() == 0 {
        Seq::empty()
    } else {
        text_inserted(in_order(s.drop_last()), s.last())
    }
}

/// No text stands before one that comes first.
pub open spec fn ordered(s: Seq<Seq<char>>) -> bool {
    forall|i: int, j: int| 0 <= i < j < s.len() ==> !text_less(#[trigger] s[j], #[trigger] s[i])
}

/// The texts in order.
pub fn sort_texts(items: &Vec<String>) -> (r: Vec<String>)
    ensures
        r.deep_view() == in_order(items.deep_view()),
{
    let ghost all = items.deep_view();
    let mut r: Vec<String> = no_items();
    let mut i: usize = 0;
    assert(all.take(0) =~= Seq::<Seq<char>>::empty());
    while i < items.len()
        invariant
            i <= items@.len(),
            all == items.deep_view(),
            r.deep_view() == in_order(all.take(i as int)),
        decreases items@.len() - i,
    {
        let ghost before = r.deep_view();
        let x = items[i].clone();
        let mut p: usize = r.len();
        assert(before.take(p as int) =~= before);
        assert(text_inserted(before.take(p as int), x@) + before.skip(p as int) =~= text_inserted(
            before,
            x@,
        ));
        while p > 0 && comes_first(x.as_str(), r[p - 1].as_str())
            invariant
                p <= r@.len(),
                before == r.deep_view(),
                text_inserted(before.take(p as int), x@) + before.skip(p as int) == text_inserted(
                    before,
                    x@,
                ),
            decreases p,
        {
            proof {
                let t = before.take(p as int);
                assert(t.last() == r@[p - 1]@);
                assert(t.drop_last() =~= before.take(p - 1));
                assert(text_inserted(t, x@) + before.skip(p as int) =~= text_inserted(
                    before.take(p - 1),
                    x@,
                ) + before.skip(p - 1));
            }
            p = p - 1;
        }
        proof {
            let t = before.take(p as int);
            if p > 0 {
                assert(t.last() == r@[p - 1]@);
            } else {
                assert(t =~= Seq::<Seq<char>>::empty());
                assert(text_inserted(t, x@) =~= t.push(x@));
            }
            assert(text_inserted(before, x@) =~= before.insert(p as int, x@));
        }
        r.insert(p, x);
        assert(r.deep_view() =~= before.insert(p as int, x@));
        proof {
            assert(all.take(i + 1).drop_last() =~= all.take(i as int));
            assert(all.take(i + 1).last() == items@[i as int]@);
        }
        i = i + 1;
    }
    assert(all.take(i as int) =~= all);
    r
}

proof fn lemma_inserted(s: Seq<Seq<char>>, x: Seq<char>)
    requires
        ordered(s),
    ensures
        ordered(text_inserted(s, x)),
        text_inserted(s, x).to_multiset() == s.to_multiset().insert(x),
        text_inserted(s, x).len() == s.len() + 1,
        forall|i: int|
            0 <= i < text_inserted(s, x).len() ==> (#[trigger] text_inserted(s, x)[i] == x
                || s.contains(text_inserted(s, x)[i])),
    decreases s.len(),
{
    broadcast use vstd::seq_lib::group_to_multiset_ensures;

    let r = text_inserted(s, x);
    if s.len() == 0 {
        assert(r =~= Seq::<Seq<char>>::empty().push(x));
        assert(s =~= Seq::<Seq<char>>::empty());
    } else if text_less(x, s.last()) {
        let rest = s.drop_last();
        assert(s =~= rest.push(s.last()));
        assert forall|i: int, j: int| 0 <= i < j < rest.len() implies !text_less(
            #[trigger] rest[j],
            #[trigger] rest[i],
        ) by {
            assert(!text_less(s[j], s[i]));
        }
        lemma_inserted(rest, x);
        let t = text_inserted(rest, x);
        assert(r =~= t.push(s.last()));
        assert forall|i: int, j: int| 0 <= i < j < r.len() implies !text_less(
            #[trigger] r[j],
            #[trigger] r[i],
        ) by {
            if j == t.len() {
                assert(r[j] == s.last());
                assert(r[i] == t[i]);
                if t[i] == x {
                    if text_less(s.last(), x) {
                        lemma_text_less_transitive(x, s.last(), x);
                        lemma_text_less_irreflexive(x);
                    }
                } else {
                    let k = choose|k: int| 0 <= k < rest.len() && rest[k] == t[i];
                    assert(s[k] == t[i]);
                    assert(!text_less(s[s.len() - 1], s[k]));
                }
            } else {
                assert(r[i] == t[i] && r[j] == t[j]);
            }
        }
        assert forall|i: int| 0 <= i < r.len() implies (#[trigger] r[i] == x || s.contains(
            r[i],
        )) by {
            if i < t.len() {
                assert(r[i] == t[i]);
                if t[i] != x {
                    let k = choose|k: int| 0 <= k < rest.len() && rest[k] == t[i];
                    assert(s[k] == r[i]);
                }
            } else {
                assert(s[s.len() - 1] == r[i]);
            }
        }
        assert(r.to_multiset() =~= s.to_multiset().insert(x));
    } else {
        assert(r =~= s.push(x));
        assert forall|i: int, j: int| 0 <= i < j < r.len() implies !text_less(
            #[trigger] r[j],
            #[trigger] r[i],
        ) by {
            if j == s.len() {
                if text_less(x, s[i]) {
                    lemma_text_less_total(s[i], s.last());
                    if i < s.len() - 1 {
                        assert(!text_less(s[s.len() - 1], s[i]));
                        if text_less(s[i], s.last()) {
                            lemma_text_less_transitive(x, s[i], s.last());
                        }
                    }
                }
            } else {
                assert(r[i] == s[i] && r[j] == s[j]);
            }
        }
        assert forall|i: int| 0 <= i < r.len() implies (#[trigger] r[i] == x || s.contains(
            r[i],
        )) by {
            if i < s.len() {
                assert(s[i] == r[i]);
            }
        }
    }
}

/// Sorting leaves the texts in order, each as often as it was there.
pub proof fn law_sorting_orders(s: Seq<Seq<char>>)
    ensures
        ordered(in_order(s)),
        in_order(s).to_multiset() == s.to_multiset(),
        in_order(s).len() == s.len(),
    decreases s.len(),
{
    broadcast use vstd::seq_lib::group_to_multiset_ensures;

    if s.len() == 0 {
        assert(in_order(s) =~= s);
    } else {
        law_sorting_orders(s.drop_last());
        lemma_inserted(in_order(s.drop_last()), s.last());
        assert(s =~= s.drop_last().push(s.last()));
    }
}

} // verus!
