//! Finding an item in a sequence.

use vstd::prelude::*;

verus! {

/// Index of the first occurrence of `item` in `items`.
pub open spec fn position<T>(items: Seq<T>, item: T) -> Option<int>
    decreases items.len(),
{
    if items.len() == 0 {
        None
    } else if items[0] == item {
        Some(0)
    } else {
        match position(items.drop_first(), item) {
            Some(i) => Some(i + 1),
            None => None,
        }
    }
}

/// `position` finds `i` when `items[i]` is the first entry equal to `item`.
pub proof fn lemma_position_found<T>(items: Seq<T>, item: T, i: int)
    requires
        0 <= i < items.len(),
        items[i] == item,
        forall|j: int| 0 <= j < i ==> items[j] != item,
    ensures
        position(items, item) == Some(i),
    decreases items.len(),
{
    if i > 0 {
        let rest = items.drop_first();
        assert forall|j: int| 0 <= j < i - 1 implies rest[j] != item by {
            assert(rest[j] == items[j + 1]);
        }
        lemma_position_found(rest, item, i - 1);
    }
}

/// `position` finds nothing when no entry equals `item`.
pub proof fn lemma_position_absent<T>(items: Seq<T>, item: T)
    requires
        forall|j: int| 0 <= j < items.len() ==> items[j] != item,
    ensures
        position(items, item) is None,
    decreases items.len(),
{
    if items.len() > 0 {
        let rest = items.drop_first();
        assert forall|j: int| 0 <= j < rest.len() implies rest[j] != item by {
            assert(rest[j] == items[j + 1]);
        }
        lemma_position_absent(rest, item);
    }
}

/// What `position` returns is the first index of `item`, and none when there
/// is none.
pub proof fn lemma_position<T>(items: Seq<T>, item: T)
    ensures
        match position(items, item) {
            Some(i) => 0 <= i < items.len() && items[i] == item && forall|j: int|
                0 <= j < i ==> items[j] != item,
            None => forall|j: int| 0 <= j < items.len() ==> items[j] != item,
        },
    decreases items.len(),
{
    if items.len() > 0 && items[0] != item {
        let rest = items.drop_first();
        lemma_position(rest, item);
        match position(rest, item) {
            Some(i) => {
                assert forall|j: int| 0 <= j < i + 1 implies items[j] != item by {
                    if j > 0 {
                        assert(rest[j - 1] == items[j]);
                    }
                }
            },
            None => {
                assert forall|j: int| 0 <= j < items.len() implies items[j] != item by {
                    if j > 0 {
                        assert(rest[j - 1] == items[j]);
                    }
                }
            },
        }
    }
}

} // verus!
