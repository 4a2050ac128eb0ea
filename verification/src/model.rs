//! Mathematical models that the contracts share.
use vstd::prelude::*;

verus! {

/// The views of the items of a list.
pub open spec fn views<T: View>(list: Seq<T>) -> Seq<T::V> {
    Seq::new(list.len(), |i: int| list[i]@)
}

/// The view of what an `Option` holds.
pub open spec fn view_option<T: View>(value: Option<T>) -> Option<T::V> {
    match value {
        Some(inner) => Some(inner@),
        None => None,
    }
}

/// The views of what a `Result` holds.
pub open spec fn view_result<T: View, E: View>(value: Result<T, E>) -> Result<T::V, E::V> {
    match value {
        Ok(inner) => Ok(inner@),
        Err(error) => Err(error@),
    }
}

/// Pushing an item pushes its view.
pub broadcast proof fn views_push<T: View>(list: Seq<T>, item: T)
    ensures
        #[trigger] views(list.push(item)) == views(list).push(item@),
{
    assert(views(list.push(item)) =~= views(list).push(item@));
}

/// Joining two lists joins their views.
pub broadcast proof fn views_add<T: View>(front: Seq<T>, back: Seq<T>)
    ensures
        #[trigger] views(front + back) == views(front) + views(back),
{
    assert(views(front + back) =~= views(front) + views(back));
}

/// The views of no items.
pub broadcast proof fn views_empty<T: View>()
    ensures
        #[trigger] views(Seq::<T>::empty()) == Seq::<T::V>::empty(),
{
    assert(views(Seq::<T>::empty()) =~= Seq::<T::V>::empty());
}

/// Dropping the first item drops its view.
pub broadcast proof fn views_drop_first<T: View>(list: Seq<T>)
    requires
        list.len() > 0,
    ensures
        #[trigger] views(list.drop_first()) == views(list).drop_first(),
{
    assert(views(list.drop_first()) =~= views(list).drop_first());
}

pub broadcast group group_views {
    views_push,
    views_add,
    views_empty,
    views_drop_first,
}

} // verus!
