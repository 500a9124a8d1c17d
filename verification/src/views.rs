//! Lists, seen through the views of their elements.

use vstd::prelude::*;

verus! {

/// The views of the elements of a list.
pub open spec fn views<T: View>(list: Seq<T>) -> Seq<T::V> {
    list.map_values(|t: T| t@)
}

/// Pushing an element pushes its view.
pub proof fn lemma_views_push<T: View>(list: Seq<T>, t: T)
    ensures
        views(list.push(t)) == views(list).push(t@),
{
    assert(views(list.push(t)) =~= views(list).push(t@));
}

/// A result, with its success and its error seen through their views.
pub open spec fn result_view<T: View, E: View>(r: Result<T, E>) -> Result<T::V, E::V> {
    match r {
        Ok(t) => Ok(t@),
        Err(e) => Err(e@),
    }
}

/// An option, with its value seen through its view.
pub open spec fn option_view<T: View>(o: Option<T>) -> Option<T::V> {
    match o {
        Some(t) => Some(t@),
        None => None,
    }
}

} // verus!
