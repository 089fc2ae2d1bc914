//! Putting lists in order.
//!
//! Lists shown to people are short and are sorted by a name or a position.
//! Items that rank the same keep the order they came in.

use vstd::prelude::*;

pub mod laws;

verus! {

/// Something that has a place in a list.
pub trait Ranked: Sized {
    /// Whether this goes before another.
    spec fn before(&self, other: &Self) -> bool;

    /// Whether this goes before another.
    fn is_before(&self, other: &Self) -> (r: bool)
        ensures
            r == self.before(other),
    ;

    /// Of two, at most one goes before the other.
    proof fn asymmetric(a: &Self, b: &Self)
        requires
            a.before(b),
        ensures
            !b.before(a),
    ;

    /// What does not go before a second, which does not go before a third, does
    /// not go before the third.
    proof fn transitive(a: &Self, b: &Self, c: &Self)
        requires
            !a.before(b),
            !b.before(c),
        ensures
            !a.before(c),
    ;
}

/// An ordered list with one more item, put behind everything it does not go
/// before.
pub open spec fn placed<T: Ranked>(list: Seq<T>, item: T) -> Seq<T>
    decreases list.len(),
{
    if list.len() > 0 && item.before(&list.last()) {
        placed(list.drop_last(), item).push(list.last())
    } else {
        list.push(item)
    }
}

/// A list in order: its items placed one after the other.
pub open spec fn in_order<T: Ranked>(list: Seq<T>) -> Seq<T>
    decreases list.len(),
{
    if list.len() == 0 {
        list
    } else {
        placed(in_order(list.drop_last()), list.last())
    }
}

/// No item goes before one that stands ahead of it.
pub open spec fn is_ordered<T: Ranked>(list: Seq<T>) -> bool {
    forall|i: int, j: int|
        #![trigger list[i], list[j]]
        0 <= i < j < list.len() ==> !list[j].before(&list[i])
}

proof fn placed_at<T: Ranked>(list: Seq<T>, item: T) -> (at: int)
    ensures
        0 <= at <= list.len(),
        placed(list, item) == list.insert(at, item),
        forall|i: int| at <= i < list.len() ==> item.before(&#[trigger] list[i]),
        at > 0 ==> !item.before(&list[at - 1]),
    decreases list.len(),
{
    if list.len() > 0 && item.before(&list.last()) {
        let at = placed_at(list.drop_last(), item);
        assert(list.drop_last().insert(at, item).push(list.last()) =~= list.insert(at, item));
        assert forall|i: int| at <= i < list.len() implies item.before(&#[trigger] list[i]) by {
            if i < list.len() - 1 {
                assert(list.drop_last()[i] == list[i]);
            }
        }
        at
    } else {
        assert(list.insert(list.len() as int, item) =~= list.push(item));
        list.len() as int
    }
}

/// Sorting gives a list in which nothing stands behind something it goes before,
/// made of the same items.
pub proof fn sorting_sorts<T: Ranked>(list: Seq<T>)
    ensures
        is_ordered(in_order(list)),
        in_order(list).to_multiset() == list.to_multiset(),
        in_order(list).len() == list.len(),
    decreases list.len(),
{
    broadcast use vstd::seq_lib::group_to_multiset_ensures;

    if list.len() > 0 {
        let item = list.last();
        let rest = in_order(list.drop_last());
        sorting_sorts(list.drop_last());
        let at = placed_at(rest, item);
        let all = rest.insert(at, item);
        assert forall|i: int, j: int|
            #![trigger all[i], all[j]]
            0 <= i < j < all.len() implies !all[j].before(&all[i]) by {
            if j == at {
                // Everything ahead of the item ranks no later than its neighbour.
                if i < at - 1 {
                    assert(!rest[at - 1].before(&rest[i]));
                    T::transitive(&item, &rest[at - 1], &rest[i]);
                }
            } else if i == at {
                assert(all[j] == rest[j - 1]);
                assert(item.before(&rest[j - 1]));
                T::asymmetric(&item, &rest[j - 1]);
            } else {
                let a = if i < at {
                    i
                } else {
                    i - 1
                };
                let b = if j < at {
                    j
                } else {
                    j - 1
                };
                assert(!rest[b].before(&rest[a]));
            }
        }
        assert(list =~= list.drop_last().push(item));
        vstd::seq_lib::to_multiset_insert(rest, at, item);
    } else {
        assert(list =~= Seq::<T>::empty());
    }
}

/// Puts a list in order.
pub fn sort<T: Ranked>(list: Vec<T>) -> (r: Vec<T>)
    ensures
        r@ == in_order(list@),
{
    let ghost all = list@;
    let mut list = list;
    let mut out: Vec<T> = Vec::new();
    let ghost mut done: int = 0;
    assert(all.take(0) =~= Seq::<T>::empty());
    assert(out@ =~= all.take(0));
    assert(list@ =~= all.skip(0));
    while list.len() > 0
        invariant
            0 <= done <= all.len(),
            list@ == all.skip(done),
            out@ == in_order(all.take(done)),
        decreases list@.len(),
    {
        let item = list.remove(0);
        assert(item == all[done]);
        assert(all.take(done + 1).drop_last() =~= all.take(done));
        assert(all.take(done + 1).last() == item);
        assert(list@ =~= all.skip(done + 1));
        place(&mut out, item);
        proof {
            done = done + 1;
        }
    }
    assert(all.take(done) =~= all);
    out
}

fn place<T: Ranked>(list: &mut Vec<T>, item: T)
    ensures
        final(list)@ == placed(old(list)@, item),
{
    let ghost start = list@;
    let mut at: usize = list.len();
    assert(start.take(at as int) =~= start);
    assert(start.skip(at as int) =~= Seq::<T>::empty());
    assert(placed(start, item) =~= placed(start.take(at as int), item) + start.skip(at as int));
    while at > 0 && item.is_before(&list[at - 1])
        invariant
            at <= list@.len(),
            list@ == start,
            placed(start, item) == placed(start.take(at as int), item) + start.skip(at as int),
        decreases at,
    {
        let ghost head = start.take(at as int);
        assert(head.last() == start[at - 1]);
        assert(head.drop_last() =~= start.take(at - 1));
        assert(placed(head, item) == placed(start.take(at - 1), item).push(start[at - 1]));
        assert(placed(start.take(at - 1), item).push(start[at - 1]) + start.skip(at as int)
            =~= placed(start.take(at - 1), item) + start.skip(at - 1));
        at -= 1;
    }
    assert(placed(start.take(at as int), item) == start.take(at as int).push(item)) by {
        if at > 0 {
            assert(start.take(at as int).last() == start[at - 1]);
        }
    }
    assert(start.take(at as int).push(item) + start.skip(at as int) =~= start.insert(
        at as int,
        item,
    ));
    list.insert(at, item);
}

} // verus!
