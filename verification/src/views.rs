//! Helpers that the models of the library share: the views of options and
//! of lists, copies that keep the view, and the rule by which a bounded list
//! loses its oldest items.

use vstd::prelude::*;

verus! {

/// Values that can be copied in full: the copy has the same view.
pub trait Replicate: View + Sized {
    fn replicate(&self) -> (r: Self)
        ensures
            r@ == self@,
    ;
}

impl Replicate for String {
    fn replicate(&self) -> (r: String) {
        self.clone()
    }
}

/// The views of the items of a sequence.
pub open spec fn views<T: View>(s: Seq<T>) -> Seq<T::V> {
    s.map_values(|t: T| t@)
}

/// The view of the item that an option holds, if any.
pub open spec fn opt_view<T: View>(o: Option<T>) -> Option<T::V> {
    match o {
        Some(t) => Some(t@),
        None => None,
    }
}

/// Copies every item of a vector.
pub fn replicate_vec<T: Replicate>(items: &Vec<T>) -> (r: Vec<T>)
    ensures
        views(r@) == views(items@),
{
    let mut r: Vec<T> = Vec::new();
    let mut i: usize = 0;
    while i < items.len()
        invariant
            i <= items@.len(),
            r@.len() == i,
            forall|j: int| 0 <= j < i ==> r@[j]@ == items@[j]@,
        decreases items@.len() - i,
    {
        r.push(items[i].replicate());
        i += 1;
    }
    r
}

/// Copies the item that an option holds, if any.
pub fn replicate_opt<T: Replicate>(item: &Option<T>) -> (r: Option<T>)
    ensures
        opt_view(r) == opt_view(*item),
{
    match item {
        Some(t) => Some(t.replicate()),
        None => None,
    }
}

/// `str` equality from the standard library: two string slices are equal
/// exactly when they hold the same characters. Not proved here.
#[verifier::external_body]
pub(crate) fn same_text(a: &str, b: &str) -> (r: bool)
    ensures
        r == (a@ == b@),
{
    a == b
}

/// The newest `cap` items of a list that is ordered oldest first.
pub open spec fn keep_last<T>(s: Seq<T>, cap: nat) -> Seq<T> {
    if s.len() <= cap {
        s
    } else {
        s.skip(s.len() - cap)
    }
}

} // verus!
