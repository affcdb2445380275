//! Items that are kept in categories, each under an id of its own there.

use crate::memory::evolution::{unite, united};
use crate::order::{in_order, sort_texts};
use crate::replicate::Replicate;
use crate::seqs::{
    first_index, lemma_first_index, lemma_first_index_none, lemma_first_index_some,
};
use crate::text::same;
use crate::walk::{filter_each, map_each, no_items, position};
use vstd::prelude::*;

verus! {

/// A type whose values have a category and an id.
pub trait Shelved: Replicate {
    /// The category of a value.
    spec fn category_of(v: Self::V) -> Seq<char>;

    /// The id of a value.
    spec fn id_of(v: Self::V) -> Seq<char>;

    /// The category of this value.
    fn shelf(&self) -> (r: &str)
        ensures
            r@ == Self::category_of(self.deep_view()),
    ;

    /// The id of this value.
    fn label(&self) -> (r: &str)
        ensures
            r@ == Self::id_of(self.deep_view()),
    ;
}

/// The items with the category and the id.
pub open spec fn shelved_at<T: Shelved>(category: Seq<char>, id: Seq<char>) -> spec_fn(
    T::V,
) -> bool {
    |x: T::V| T::category_of(x) == category && T::id_of(x) == id
}

/// The items of the category.
pub open spec fn in_category<T: Shelved>(category: Seq<char>) -> spec_fn(T::V) -> bool {
    |x: T::V| T::category_of(x) == category
}

/// The items of a category, or all of them.
pub open spec fn in_scope<T: Shelved>(category: Option<Seq<char>>) -> spec_fn(T::V) -> bool {
    |x: T::V| category is None || T::category_of(x) == category->0
}

/// Where the item stands.
pub open spec fn shelved_index<T: Shelved>(
    s: Seq<T::V>,
    category: Seq<char>,
    id: Seq<char>,
) -> Option<int> {
    first_index(s, shelved_at::<T>(category, id))
}

/// The item.
pub open spec fn shelved_item<T: Shelved>(
    s: Seq<T::V>,
    category: Seq<char>,
    id: Seq<char>,
) -> Option<T::V> {
    match shelved_index::<T>(s, category, id) {
        Some(i) => Some(s[i]),
        None => None,
    }
}

/// The items with `x` in place of the one with its category and id, or at the
/// end.
pub open spec fn shelved_put<T: Shelved>(s: Seq<T::V>, x: T::V) -> Seq<T::V> {
    match shelved_index::<T>(s, T::category_of(x), T::id_of(x)) {
        Some(i) => s.update(i, x),
        None => s.push(x),
    }
}

/// The categories there are, in order, each once.
pub open spec fn categories_of<T: Shelved>(s: Seq<T::V>) -> Seq<Seq<char>> {
    in_order(united(Seq::empty(), s.map_values(|x: T::V| T::category_of(x))))
}

/// Where the item stands.
pub fn find_shelved<T: Shelved>(items: &Vec<T>, category: &str, id: &str) -> (r: Option<usize>)
    ensures
        match r {
            Some(i) => i < items@.len() && shelved_index::<T>(items.deep_view(), category@, id@)
                == Some(i as int),
            None => shelved_index::<T>(items.deep_view(), category@, id@) is None,
        },
{
    let f = |x: &T| -> (r: bool)
        ensures
            r == (T::category_of(x.deep_view()) == category@ && T::id_of(x.deep_view()) == id@)
    {
        same(x.shelf(), category) && same(x.label(), id)
    };
    position(items.as_slice(), f, Ghost(shelved_at::<T>(category@, id@)))
}

/// Puts an item in place of the one with its category and id, or at the end.
pub fn put_shelved<T: Shelved>(items: &mut Vec<T>, x: T)
    ensures
        final(items).deep_view() == shelved_put::<T>(old(items).deep_view(), x.deep_view()),
{
    let ghost before = items.deep_view();
    match find_shelved(items, x.shelf(), x.label()) {
        Some(i) => {
            items.set(i, x);
            assert(items.deep_view() =~= before.update(i as int, x.deep_view()));
        },
        None => {
            items.push(x);
            assert(items.deep_view() =~= before.push(x.deep_view()));
        },
    }
}

/// Copies of the items of a category.
pub fn items_in<T: Shelved>(items: &Vec<T>, category: &str) -> (r: Vec<T>)
    ensures
        r.deep_view() == items.deep_view().filter(in_category::<T>(category@)),
{
    let f = |x: &T| -> (r: bool)
        ensures r == (T::category_of(x.deep_view()) == category@)
    {
        same(x.shelf(), category)
    };
    filter_each(items.as_slice(), f, Ghost(in_category::<T>(category@)))
}

/// Copies of the items of a category, or of all.
pub fn items_within<T: Shelved>(items: &Vec<T>, category: Option<&str>) -> (r: Vec<T>)
    ensures
        r.deep_view() == items.deep_view().filter(in_scope::<T>(category.deep_view())),
{
    let f = |x: &T| -> (r: bool)
        ensures
            r == (category.deep_view() is None || T::category_of(x.deep_view())
                == category.deep_view()->0)
    {
        match category {
            Some(c) => same(x.shelf(), c),
            None => true,
        }
    };
    filter_each(items.as_slice(), f, Ghost(in_scope::<T>(category.deep_view())))
}

/// The categories there are, in order, each once.
pub fn categories<T: Shelved>(items: &Vec<T>) -> (r: Vec<String>)
    ensures
        r.deep_view() == categories_of::<T>(items.deep_view()),
{
    let f = |x: &T| -> (r: String)
        ensures r.deep_view() == T::category_of(x.deep_view())
    {
        x.shelf().to_owned()
    };
    let all = map_each(items.as_slice(), f, Ghost(|x: T::V| T::category_of(x)));
    let none: Vec<String> = no_items();
    let once = unite(&none, &all);
    sort_texts(&once)
}

/// An item that was put is found under its category and id, and every other
/// item is found as it was.
pub proof fn law_put_is_on_its_shelf<T: Shelved>(
    s: Seq<T::V>,
    x: T::V,
    category: Seq<char>,
    id: Seq<char>,
)
    ensures
        shelved_item::<T>(shelved_put::<T>(s, x), T::category_of(x), T::id_of(x)) == Some(x),
        (category != T::category_of(x) || id != T::id_of(x)) ==> shelved_item::<T>(
            shelved_put::<T>(s, x),
            category,
            id,
        ) == shelved_item::<T>(s, category, id),
{
    let after = shelved_put::<T>(s, x);
    let p = shelved_at::<T>(T::category_of(x), T::id_of(x));
    let q = shelved_at::<T>(category, id);
    lemma_first_index(s, p);
    let at = match shelved_index::<T>(s, T::category_of(x), T::id_of(x)) {
        Some(i) => i,
        None => s.len() as int,
    };
    assert forall|k: int| 0 <= k < at implies !p(#[trigger] after[k]) by {
        assert(!p(s[k]));
    }
    lemma_first_index_some(after, p, at);
    if category != T::category_of(x) || id != T::id_of(x) {
        lemma_first_index(s, q);
        match shelved_index::<T>(s, category, id) {
            Some(i) => {
                assert(q(s[i]));
                assert(after[i] == s[i]);
                assert forall|k: int| 0 <= k < i implies !q(#[trigger] after[k]) by {
                    assert(!q(s[k]));
                }
                lemma_first_index_some(after, q, i);
            },
            None => {
                assert forall|k: int| 0 <= k < after.len() implies !q(#[trigger] after[k]) by {
                    if k < s.len() && k != at {
                        assert(!q(s[k]));
                    }
                }
                lemma_first_index_none(after, q);
            },
        }
    }
}

/// What is found on a shelf under a label stands there, with both; and nothing
/// is found only where no item has both.
pub proof fn law_shelved_is_there<T: Shelved>(s: Seq<T::V>, category: Seq<char>, id: Seq<char>)
    ensures
        shelved_item::<T>(s, category, id) is None <==> forall|i: int|
            0 <= i < s.len() ==> T::category_of(#[trigger] s[i]) != category || T::id_of(s[i])
                != id,
        shelved_item::<T>(s, category, id) matches Some(x) ==> T::category_of(x) == category
            && T::id_of(x) == id && exists|i: int| 0 <= i < s.len() && #[trigger] s[i] == x,
{
    let p = shelved_at::<T>(category, id);
    lemma_first_index(s, p);
    match shelved_index::<T>(s, category, id) {
        Some(i) => {
            assert(p(s[i]));
        },
        None => {
            assert forall|i: int| 0 <= i < s.len() implies T::category_of(#[trigger] s[i])
                != category || T::id_of(s[i]) != id by {
                assert(!p(s[i]));
            }
        },
    }
}

} // verus!
