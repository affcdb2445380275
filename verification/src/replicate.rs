//! Copies of values that are equal to the value copied.

use vstd::prelude::*;

verus! {

/// A type whose values can be copied.
pub trait Replicate: DeepView + Sized {
    /// A second value equal to this one.
    fn replicate(&self) -> (r: Self)
        ensures
            r.deep_view() == self.deep_view(),
    ;
}

impl Replicate for String {
    fn replicate(&self) -> (r: Self) {
        self.clone()
    }
}

impl Replicate for bool {
    fn replicate(&self) -> (r: Self) {
        *self
    }
}

impl Replicate for u64 {
    fn replicate(&self) -> (r: Self) {
        *self
    }
}

impl Replicate for u32 {
    fn replicate(&self) -> (r: Self) {
        *self
    }
}

impl Replicate for u8 {
    fn replicate(&self) -> (r: Self) {
        *self
    }
}

impl Replicate for usize {
    fn replicate(&self) -> (r: Self) {
        *self
    }
}

impl Replicate for i64 {
    fn replicate(&self) -> (r: Self) {
        *self
    }
}

impl<T: Replicate> Replicate for Option<T> {
    fn replicate(&self) -> (r: Self) {
        match self {
            Some(x) => Some(x.replicate()),
            None => None,
        }
    }
}

impl<A: Replicate, B: Replicate> Replicate for (A, B) {
    fn replicate(&self) -> (r: Self) {
        (self.0.replicate(), self.1.replicate())
    }
}

impl<T: Replicate> Replicate for Vec<T> {
    fn replicate(&self) -> (r: Self) {
        copies(self.as_slice())
    }
}

/// Copies of the values of `items`, in their order.
pub fn copies<T: Replicate>(items: &[T]) -> (r: Vec<T>)
    ensures
        r.deep_view() == items.deep_view(),
{
    let mut r: Vec<T> = Vec::new();
    let mut i: usize = 0;
    while i < items.len()
        invariant
            i <= items@.len(),
            r@.len() == i,
            forall|k: int| 0 <= k < i ==> (#[trigger] r@[k]).deep_view() == items@[k].deep_view(),
        decreases items@.len() - i,
    {
        r.push(items[i].replicate());
        i = i + 1;
    }
    assert(r.deep_view() =~= items.deep_view());
    r
}

} // verus!
