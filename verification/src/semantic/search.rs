//! The first item of a list that meets a condition.
use vstd::prelude::*;

verus! {

/// Item `i` is the first of `items` that meets `wanted`.
pub open spec fn is_first<T>(items: Seq<T>, wanted: spec_fn(T) -> bool, i: int) -> bool {
    &&& 0 <= i < items.len()
    &&& wanted(items[i])
    &&& forall|j: int| 0 <= j < i ==> !wanted(#[trigger] items[j])
}

/// Some item of `items` meets `wanted`.
pub open spec fn has_some<T>(items: Seq<T>, wanted: spec_fn(T) -> bool) -> bool {
    exists|i: int| 0 <= i < items.len() && wanted(#[trigger] items[i])
}

/// The place of the first of `items` that meets `wanted`.
pub open spec fn first<T>(items: Seq<T>, wanted: spec_fn(T) -> bool) -> Option<int> {
    if has_some(items, wanted) {
        Some(choose|i: int| is_first(items, wanted, i))
    } else {
        None
    }
}

/// A first item is the first one.
pub proof fn lemma_first<T>(items: Seq<T>, wanted: spec_fn(T) -> bool, i: int)
    requires
        is_first(items, wanted, i),
    ensures
        first(items, wanted) == Some(i),
{
    assert(wanted(items[i]));
    let k = choose|k: int| is_first(items, wanted, k);
    assert(is_first(items, wanted, k));
    if k < i {
        assert(!wanted(items[k]));
    } else if i < k {
        assert(!wanted(items[i]));
    }
}

/// Where no item meets the condition, there is no first one.
pub proof fn lemma_no_first<T>(items: Seq<T>, wanted: spec_fn(T) -> bool)
    requires
        forall|j: int| 0 <= j < items.len() ==> !wanted(#[trigger] items[j]),
    ensures
        first(items, wanted) is None,
{
}

} // verus!
