//! A small table from text to values.
//!
//! The handful of peers, keys and positions that a session knows fit in a list
//! that is searched from the front. The list never holds a key twice, so it
//! stands for a mathematical map.

use vstd::prelude::*;

verus! {

#[derive(Debug)]
pub struct Table<V> {
    pub entries: Vec<(String, V)>,
}

/// The keys of a list of entries, in order.
pub open spec fn keys_of<V>(entries: Seq<(String, V)>) -> Seq<Seq<char>> {
    entries.map_values(|e: (String, V)| e.0@)
}

/// The map that a list of entries stands for.
pub open spec fn map_of<V>(entries: Seq<(String, V)>) -> Map<Seq<char>, V>
    decreases entries.len(),
{
    if entries.len() == 0 {
        Map::empty()
    } else {
        map_of(entries.drop_last()).insert(entries.last().0@, entries.last().1)
    }
}

impl<V> View for Table<V> {
    type V = Map<Seq<char>, V>;

    open spec fn view(&self) -> Map<Seq<char>, V> {
        map_of(self.entries@)
    }
}

/// Every entry of a list without repeated keys is found in the map, and the map
/// holds nothing else.
pub proof fn map_of_entries<V>(entries: Seq<(String, V)>)
    requires
        keys_of(entries).no_duplicates(),
    ensures
        forall|i: int|
            0 <= i < entries.len() ==> map_of(entries).contains_key(#[trigger] entries[i].0@)
                && map_of(entries)[entries[i].0@] == entries[i].1,
        forall|k: Seq<char>|
            #[trigger] map_of(entries).contains_key(k) ==> exists|i: int|
                0 <= i < entries.len() && (#[trigger] entries[i]).0@ == k,
        map_of(entries).dom().finite(),
        map_of(entries).dom().len() == entries.len(),
    decreases entries.len(),
{
    if entries.len() > 0 {
        let rest = entries.drop_last();
        assert forall|i: int, j: int| 0 <= i < j < rest.len() implies keys_of(rest)[i] != keys_of(
            rest,
        )[j] by {
            assert(keys_of(entries)[i] != keys_of(entries)[j]);
        }
        map_of_entries(rest);
        let last = entries.len() - 1;
        assert forall|i: int| 0 <= i < rest.len() implies rest[i].0@ != entries[last].0@ by {
            assert(keys_of(entries)[i] != keys_of(entries)[last]);
        }
        assert forall|i: int| 0 <= i < entries.len() implies map_of(entries).contains_key(
            #[trigger] entries[i].0@,
        ) && map_of(entries)[entries[i].0@] == entries[i].1 by {
            if i < last {
                assert(rest[i] == entries[i]);
            }
        }
        assert forall|k: Seq<char>| #[trigger] map_of(entries).contains_key(k) implies exists|i: int|
            0 <= i < entries.len() && (#[trigger] entries[i]).0@ == k by {
            if map_of(rest).contains_key(k) {
                let i = choose|i: int| 0 <= i < rest.len() && (#[trigger] rest[i]).0@ == k;
                assert(entries[i].0@ == k);
            } else {
                assert(entries[last].0@ == k);
            }
        }
        assert(!map_of(rest).contains_key(entries[last].0@));
    }
}

/// Changing the value of one entry changes what the map holds for its key, and
/// nothing else.
pub proof fn map_of_update<V>(before: Seq<(String, V)>, after: Seq<(String, V)>, at: int)
    requires
        keys_of(before).no_duplicates(),
        0 <= at < before.len(),
        after.len() == before.len(),
        after[at].0@ == before[at].0@,
        forall|i: int| 0 <= i < before.len() && i != at ==> #[trigger] after[i] == before[i],
    ensures
        keys_of(after).no_duplicates(),
        map_of(after) == map_of(before).insert(before[at].0@, after[at].1),
{
    assert(keys_of(after) =~= keys_of(before));
    map_of_entries(before);
    map_of_entries(after);
    let expected = map_of(before).insert(before[at].0@, after[at].1);
    assert forall|k: Seq<char>| map_of(after).contains_key(k) <==> expected.contains_key(k) by {
        if map_of(after).contains_key(k) {
            let i = choose|i: int| 0 <= i < after.len() && (#[trigger] after[i]).0@ == k;
            assert(before[i].0@ == k);
        }
        if expected.contains_key(k) {
            if k == before[at].0@ {
                assert(after[at].0@ == k);
            } else {
                let i = choose|i: int| 0 <= i < before.len() && (#[trigger] before[i]).0@ == k;
                assert(after[i].0@ == k);
            }
        }
    }
    assert forall|k: Seq<char>| map_of(after).contains_key(k) implies map_of(after)[k]
        == expected[k] by {
        let i = choose|i: int| 0 <= i < after.len() && (#[trigger] after[i]).0@ == k;
        if i != at {
            assert(keys_of(before)[i] != keys_of(before)[at]);
            assert(after[i] == before[i]);
            assert(before[i].0@ == k);
        }
    }
    assert(map_of(after) =~= expected);
}

proof fn map_of_remove<V>(before: Seq<(String, V)>, at: int)
    requires
        keys_of(before).no_duplicates(),
        0 <= at < before.len(),
    ensures
        keys_of(before.remove(at)).no_duplicates(),
        map_of(before.remove(at)) == map_of(before).remove(before[at].0@),
{
    let after = before.remove(at);
    assert forall|i: int, j: int| 0 <= i < j < after.len() implies keys_of(after)[i] != keys_of(
        after,
    )[j] by {
        let a = if i < at {
            i
        } else {
            i + 1
        };
        let b = if j < at {
            j
        } else {
            j + 1
        };
        assert(keys_of(before)[a] != keys_of(before)[b]);
    }
    map_of_entries(before);
    map_of_entries(after);
    let expected = map_of(before).remove(before[at].0@);
    assert forall|k: Seq<char>| map_of(after).contains_key(k) <==> expected.contains_key(k) by {
        if map_of(after).contains_key(k) {
            let i = choose|i: int| 0 <= i < after.len() && (#[trigger] after[i]).0@ == k;
            let a = if i < at {
                i
            } else {
                i + 1
            };
            assert(before[a].0@ == k);
            assert(keys_of(before)[a] != keys_of(before)[at]);
        }
        if expected.contains_key(k) {
            let a = choose|i: int| 0 <= i < before.len() && (#[trigger] before[i]).0@ == k;
            let i = if a < at {
                a
            } else {
                a - 1
            };
            assert(after[i].0@ == k);
        }
    }
    assert forall|k: Seq<char>| map_of(after).contains_key(k) implies map_of(after)[k]
        == expected[k] by {
        let i = choose|i: int| 0 <= i < after.len() && (#[trigger] after[i]).0@ == k;
        let a = if i < at {
            i
        } else {
            i + 1
        };
        assert(after[i] == before[a]);
        assert(before[a].0@ == k);
        assert(keys_of(before)[a] != keys_of(before)[at]);
    }
    assert(map_of(after) =~= expected);
}

impl<V> Table<V> {
    /// No key occurs twice.
    pub open spec fn wf(&self) -> bool {
        keys_of(self.entries@).no_duplicates()
    }

    pub fn new() -> (r: Self)
        ensures
            r.wf(),
            r@ == Map::<Seq<char>, V>::empty(),
            r.entries@.len() == 0,
    {
        Table { entries: Vec::new() }
    }

    /// Where a key is, if it is there.
    pub fn find(&self, key: &str) -> (r: Option<usize>)
        requires
            self.wf(),
        ensures
            r is Some <==> self@.contains_key(key@),
            r is Some ==> r->0 < self.entries@.len() && self.entries@[r->0 as int].0@ == key@
                && self@[key@] == self.entries@[r->0 as int].1,
    {
        proof {
            map_of_entries(self.entries@);
        }
        let mut i: usize = 0;
        while i < self.entries.len()
            invariant
                i <= self.entries@.len(),
                self.wf(),
                forall|k: int| 0 <= k < i ==> (#[trigger] self.entries@[k]).0@ != key@,
            decreases self.entries@.len() - i,
        {
            if *self.entries[i].0.as_str() == *key {
                proof {
                    map_of_entries(self.entries@);
                }
                return Some(i);
            }
            i += 1;
        }
        None
    }

    pub fn get(&self, key: &str) -> (r: Option<&V>)
        requires
            self.wf(),
        ensures
            match r {
                Some(v) => self@.contains_key(key@) && *v == self@[key@],
                None => !self@.contains_key(key@),
            },
    {
        match self.find(key) {
            Some(i) => Some(&self.entries[i].1),
            None => None,
        }
    }

    /// Sets the value of a key, replacing the one it had.
    pub fn insert(&mut self, key: String, value: V)
        requires
            old(self).wf(),
        ensures
            final(self).wf(),
            final(self)@ == old(self)@.insert(key@, value),
    {
        let ghost before = self.entries@;
        match self.find(key.as_str()) {
            Some(i) => {
                self.entries[i].1 = value;
                proof {
                    map_of_update(before, self.entries@, i as int);
                }
            },
            None => {
                self.entries.push((key, value));
                proof {
                    let after = self.entries@;
                    map_of_entries(before);
                    assert(after.drop_last() =~= before);
                    assert forall|i: int, j: int| 0 <= i < j < after.len() implies keys_of(after)[i]
                        != keys_of(after)[j] by {
                        if j < before.len() {
                            assert(keys_of(before)[i] != keys_of(before)[j]);
                        } else {
                            assert(before[i].0@ != key@);
                        }
                    }
                }
            },
        }
    }

    /// Removes a key and its value, if it is there.
    pub fn remove(&mut self, key: &str)
        requires
            old(self).wf(),
        ensures
            final(self).wf(),
            final(self)@ == old(self)@.remove(key@),
    {
        let ghost before = self.entries@;
        match self.find(key) {
            Some(i) => {
                let _ = self.entries.remove(i);
                proof {
                    map_of_remove(before, i as int);
                }
            },
            None => {
                assert(self@.remove(key@) =~= self@);
            },
        }
    }
}

impl<V: Copy> Table<V> {
    /// A table with the same keys and values.
    pub fn copy(&self) -> (r: Self)
        ensures
            r@ == self@,
            self.wf() ==> r.wf(),
    {
        let mut entries: Vec<(String, V)> = Vec::new();
        let mut i: usize = 0;
        while i < self.entries.len()
            invariant
                i <= self.entries@.len(),
                entries@ == self.entries@.take(i as int),
            decreases self.entries@.len() - i,
        {
            entries.push((self.entries[i].0.clone(), self.entries[i].1));
            assert(entries@ =~= self.entries@.take(i + 1));
            i += 1;
        }
        assert(entries@ =~= self.entries@);
        Table { entries }
    }
}

/// A table holds no key twice, and what it holds under a key is what stands beside
/// the key in the list.
pub proof fn tables_hold_each_key_once<V>(table: Table<V>, i: int, j: int)
    requires
        0 <= i < table.entries@.len(),
        0 <= j < table.entries@.len(),
    ensures
        table.wf() && i != j ==> table.entries@[i].0@ != table.entries@[j].0@,
        table.wf() ==> table@.contains_key(table.entries@[i].0@) && table@[table.entries@[i].0@]
            == table.entries@[i].1,
{
    if table.wf() {
        map_of_entries(table.entries@);
        assert(keys_of(table.entries@)[i] == table.entries@[i].0@);
        assert(keys_of(table.entries@)[j] == table.entries@[j].0@);
    }
}

} // verus!
