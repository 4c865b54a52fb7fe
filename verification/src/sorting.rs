//! Sorting.
use vstd::prelude::*;

verus! {

/// The order of numbers.
pub open spec fn at_most() -> spec_fn(u32, u32) -> bool {
    |a: u32, b: u32| a <= b
}

/// The items of `list` in ascending order.
pub open spec fn ascending(list: Seq<u32>) -> Seq<u32> {
    list.sort_by(at_most())
}

/// A list is in ascending order if it is sorted and has the same items.
pub proof fn is_ascending(list: Seq<u32>, sorted: Seq<u32>)
    requires
        sorted.to_multiset() == list.to_multiset(),
        forall|i: int, j: int| 0 <= i < j < sorted.len() ==> sorted[i] <= sorted[j],
    ensures
        sorted == ascending(list),
{
    list.lemma_sort_by_ensures(at_most());
    assert(vstd::relations::sorted_by(sorted, at_most()));
    vstd::seq_lib::lemma_sorted_unique(sorted, ascending(list), at_most());
}

/// Sorting keeps the items, and puts no greater one before a smaller one.
pub proof fn ascending_keeps_items(list: Seq<u32>)
    ensures
        ascending(list).to_multiset() == list.to_multiset(),
        ascending(list).len() == list.len(),
        forall|i: int, j: int|
            0 <= i < j < list.len() ==> ascending(list)[i] <= ascending(list)[j],
        forall|i: int| 0 <= i < list.len() ==> list.contains(#[trigger] ascending(list)[i]),
{
    broadcast use vstd::seq_lib::group_to_multiset_ensures;

    list.lemma_sort_by_ensures(at_most());
    assert(ascending(list).len() == ascending(list).to_multiset().len());
    assert(list.len() == list.to_multiset().len());
    assert forall|i: int, j: int| 0 <= i < j < list.len() implies ascending(list)[i] <= ascending(
        list,
    )[j] by {
        assert(at_most()(ascending(list)[i], ascending(list)[j]));
    }
    assert forall|i: int| 0 <= i < list.len() implies list.contains(#[trigger] ascending(list)[i]) by {
        assert(ascending(list).contains(ascending(list)[i]));
    }
}

/// The items of `list` in ascending order.
pub fn sort(list: &Vec<u32>) -> (sorted: Vec<u32>)
    ensures
        sorted@ == ascending(list@),
{
    let mut sorted: Vec<u32> = Vec::new();
    let mut i: usize = 0;
    assert(list@.take(0) == sorted@);
    while i < list.len()
        invariant
            i <= list@.len(),
            sorted@.len() == i,
            sorted@.to_multiset() == list@.take(i as int).to_multiset(),
            forall|a: int, b: int| 0 <= a < b < sorted@.len() ==> sorted@[a] <= sorted@[b],
        decreases list@.len() - i,
    {
        let item: u32 = list[i];
        let mut at: usize = 0;
        while at < sorted.len() && sorted[at] <= item
            invariant
                at <= sorted@.len(),
                forall|a: int| 0 <= a < at ==> sorted@[a] <= item,
            decreases sorted@.len() - at,
        {
            at = at + 1;
        }
        let ghost before = sorted@;
        sorted.insert(at, item);
        proof {
            broadcast use vstd::seq_lib::group_to_multiset_ensures;

            assert(list@.take(i + 1) == list@.take(i as int).push(item));
            assert(sorted@ == before.insert(at as int, item));
        }
        i = i + 1;
    }
    proof {
        assert(list@.take(list@.len() as int) == list@);
        is_ascending(list@, sorted@);
    }
    sorted
}

} // verus!
