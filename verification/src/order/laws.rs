//! What putting a list in order promises.

use vstd::prelude::*;

use crate::order;
use crate::order::Ranked;

verus! {

/// One list is another put in order: `from` says where each item came from. No item
/// is left out or used twice; of two items the one that goes first stands first,
/// and of two that rank the same the one that came first.
pub open spec fn is_arranged<T: Ranked>(after: Seq<T>, before: Seq<T>, from: Seq<int>) -> bool {
    &&& after.len() == before.len()
    &&& from.len() == before.len()
    &&& forall|i: int|
        0 <= i < from.len() ==> 0 <= #[trigger] from[i] < before.len() && after[i]
            == before[from[i]]
    &&& forall|i: int, j: int|
        #![trigger from[i], from[j]]
        0 <= i < j < from.len() ==> {
            &&& from[i] != from[j]
            &&& !after[j].before(&after[i])
            &&& after[i].before(&after[j]) || from[i] < from[j]
        }
}

/// A list put in order holds the same items, in order, and those that rank the same
/// as they came.
pub proof fn sorting_is_stable<T: Ranked>(list: Seq<T>) -> (from: Seq<int>)
    ensures
        is_arranged(order::in_order(list), list, from),
    decreases list.len(),
{
    if list.len() == 0 {
        Seq::<int>::empty()
    } else {
        let rest = list.drop_last();
        let item = list.last();
        let before = sorting_is_stable(rest);
        let sorted = order::in_order(rest);
        let at = order::placed_at(sorted, item);
        let n = rest.len() as int;
        let from = before.insert(at, n);
        let after = order::in_order(list);
        order::sorting_sorts(list);
        assert(after == sorted.insert(at, item));
        assert forall|i: int| 0 <= i < from.len() implies 0 <= #[trigger] from[i] < list.len()
            && after[i] == list[from[i]] by {
            if i < at {
                assert(from[i] == before[i]);
            } else if i > at {
                assert(from[i] == before[i - 1]);
            }
        }
        assert forall|i: int, j: int|
            #![trigger from[i], from[j]]
            0 <= i < j < from.len() implies {
            &&& from[i] != from[j]
            &&& !after[j].before(&after[i])
            &&& after[i].before(&after[j]) || from[i] < from[j]
        } by {
            let a = if i < at {
                i
            } else {
                i - 1
            };
            let b = if j < at {
                j
            } else {
                j - 1
            };
            if i == at {
                assert(from[j] == before[b]);
                assert(after[j] == sorted[b]);
                assert(item.before(&sorted[b]));
            } else if j == at {
                assert(from[i] == before[a]);
            } else {
                assert(from[i] == before[a] && from[j] == before[b]);
                assert(after[i] == sorted[a] && after[j] == sorted[b]);
            }
            assert(!after[j].before(&after[i]));
        }
        from
    }
}

} // verus!
