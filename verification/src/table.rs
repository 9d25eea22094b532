//! A map from keys to values, kept as a list of pairs with distinct keys.
use vstd::prelude::*;

use crate::ids::Key;

verus! {

/// A finite map. Its view is a `Map` from the keys' views to the values.
pub struct Table<K: Key, V> {
    entries: Vec<(K, V)>,
}

/// Whether no key stands twice in a list of pairs.
spec fn keys_distinct<K: Key, V>(entries: Seq<(K, V)>) -> bool {
    forall|i: int, j: int| 0 <= i < j < entries.len() ==> (#[trigger] entries[i]).0@ != (#[trigger] entries[j]).0@
}

/// Where a key stands in a list of pairs.
spec fn place<K: Key, V>(entries: Seq<(K, V)>, k: K::V) -> int {
    choose|i: int| 0 <= i < entries.len() && (#[trigger] entries[i]).0@ == k
}

/// Whether a key stands in a list of pairs.
spec fn present<K: Key, V>(entries: Seq<(K, V)>, k: K::V) -> bool {
    exists|i: int| 0 <= i < entries.len() && (#[trigger] entries[i]).0@ == k
}

/// The map that a list of pairs stands for.
spec fn as_map<K: Key, V>(entries: Seq<(K, V)>) -> Map<K::V, V> {
    Map::new(|k: K::V| present(entries, k), |k: K::V| entries[place(entries, k)].1)
}

/// A pair of the list is a pair of the map.
proof fn lemma_pair<K: Key, V>(entries: Seq<(K, V)>, i: int)
    requires
        keys_distinct(entries),
        0 <= i < entries.len(),
    ensures
        as_map(entries).dom().contains(entries[i].0@),
        as_map(entries)[entries[i].0@] == entries[i].1,
{
    let k = entries[i].0@;
    assert(present(entries, k));
    let j = place(entries, k);
    assert(entries[j].0@ == k);
    if i < j {
        assert(entries[i].0@ != entries[j].0@);
    } else if j < i {
        assert(entries[j].0@ != entries[i].0@);
    }
}

/// A list of pairs with distinct keys stands for a finite map of its length.
proof fn lemma_size<K: Key, V>(entries: Seq<(K, V)>)
    requires
        keys_distinct(entries),
    ensures
        as_map(entries).dom().finite(),
        as_map(entries).dom().len() == entries.len(),
    decreases entries.len(),
{
    if entries.len() == 0 {
        assert(as_map(entries).dom() =~= Set::empty());
    } else {
        let head = entries.drop_last();
        assert(keys_distinct(head)) by {
            assert forall|i: int, j: int| 0 <= i < j < head.len() implies (#[trigger] head[i]).0@ != (#[trigger] head[j]).0@ by {
                assert(entries[i].0@ != entries[j].0@);
            }
        }
        lemma_size(head);
        let last = entries.last().0@;
        assert(!present(head, last)) by {
            if present(head, last) {
                let i = place(head, last);
                assert(head[i].0@ == last);
                assert(entries[i].0@ != entries[entries.len() - 1].0@);
            }
        }
        assert(as_map(entries).dom() =~= as_map(head).dom().insert(last)) by {
            assert forall|k: K::V| present(entries, k) == (present(head, k) || k == last) by {
                if present(head, k) {
                    let i = place(head, k);
                    assert(entries[i].0@ == k);
                }
                if k == last {
                    assert(entries[entries.len() - 1].0@ == k);
                }
                if present(entries, k) && k != last {
                    let i = place(entries, k);
                    assert(entries[i].0@ == k);
                    assert(i < head.len());
                    assert(head[i].0@ == k);
                }
            }
        }
    }
}

impl<K: Key, V> View for Table<K, V> {
    type V = Map<K::V, V>;

    closed spec fn view(&self) -> Map<K::V, V> {
        as_map(self.entries@)
    }
}

impl<K: Key, V> Table<K, V> {
    #[verifier::type_invariant]
    spec fn distinct(self) -> bool {
        keys_distinct(self.entries@)
    }

    /// The empty map.
    pub fn new() -> (table: Table<K, V>)
        ensures
            table@ == Map::<K::V, V>::empty(),
    {
        let table = Table { entries: Vec::new() };
        assert(table@ =~= Map::<K::V, V>::empty());
        table
    }

    /// The number of keys.
    pub fn len(&self) -> (n: usize)
        ensures
            self@.dom().finite(),
            n == self@.dom().len(),
    {
        proof {
            use_type_invariant(self);
            lemma_size(self.entries@);
        }
        self.entries.len()
    }

    /// Where a key stands, if it is there.
    fn find(&self, key: &K) -> (res: Option<usize>)
        ensures
            match res {
                Some(i) => i < self.entries@.len() && self.entries@[i as int].0@ == key@,
                None => !present(self.entries@, key@),
            },
    {
        let mut i: usize = 0;
        while i < self.entries.len()
            invariant
                i <= self.entries@.len(),
                forall|j: int| 0 <= j < i ==> (#[trigger] self.entries@[j]).0@ != key@,
            decreases self.entries@.len() - i,
        {
            if self.entries[i].0.same(key) {
                return Some(i);
            }
            i += 1;
        }
        None
    }

    /// The value of a key, if it is there.
    pub fn get(&self, key: &K) -> (res: Option<&V>)
        ensures
            match res {
                Some(value) => self@.dom().contains(key@) && *value == self@[key@],
                None => !self@.dom().contains(key@),
            },
    {
        proof {
            use_type_invariant(self);
        }
        match self.find(key) {
            Some(i) => {
                proof {
                    lemma_pair(self.entries@, i as int);
                }
                Some(&self.entries[i].1)
            },
            None => None,
        }
    }

    /// Whether a key is there.
    pub fn contains(&self, key: &K) -> (res: bool)
        ensures
            res == self@.dom().contains(key@),
    {
        self.get(key).is_some()
    }

    /// Takes a key out of the map and returns the value that it had.
    pub fn remove(&mut self, key: &K) -> (res: Option<V>)
        ensures
            final(self)@ == old(self)@.remove(key@),
            match res {
                Some(value) => old(self)@.dom().contains(key@) && value == old(self)@[key@],
                None => !old(self)@.dom().contains(key@),
            },
    {
        proof {
            use_type_invariant(&*self);
        }
        let place = self.find(key);
        match place {
            Some(i) => {
                let mut entries: Vec<(K, V)> = Vec::new();
                std::mem::swap(&mut entries, &mut self.entries);
                let ghost before = entries@;
                let (_, value) = entries.swap_remove(i);
                proof {
                    lemma_pair(before, i as int);
                    lemma_swap_remove(before, entries@, i as int);
                }
                self.entries = entries;
                Some(value)
            },
            None => {
                assert(self@.remove(key@) =~= self@);
                None
            },
        }
    }

    /// Gives a key a value, in place of the one that it had.
    pub fn insert(&mut self, key: K, value: V)
        ensures
            final(self)@ == old(self)@.insert(key@, value),
    {
        let ghost start = self@;
        let ghost k = key@;
        self.remove(&key);
        proof {
            use_type_invariant(&*self);
        }
        let mut entries: Vec<(K, V)> = Vec::new();
        std::mem::swap(&mut entries, &mut self.entries);
        let ghost before = entries@;
        entries.push((key, value));
        proof {
            assert(as_map(before) == start.remove(k));
            assert(!as_map(before).dom().contains(k));
            assert forall|x: K::V| #[trigger] present(before, x) == (start.dom().contains(x) && x != k) by {
                assert(as_map(before).dom().contains(x) == present(before, x));
            }
            assert forall|i: int, j: int| 0 <= i < j < entries@.len() implies (#[trigger] entries@[i]).0@ != (#[trigger] entries@[j]).0@ by {
                assert(before[i] == entries@[i]);
                if j < before.len() {
                    assert(before[j] == entries@[j]);
                }
            }
            assert(keys_distinct(entries@));
            assert forall|x: K::V| #[trigger] present(entries@, x) == (present(before, x) || x == k) by {
                if present(before, x) {
                    let i = place(before, x);
                    assert(entries@[i].0@ == x);
                }
                if x == k {
                    assert(entries@[before.len() as int].0@ == x);
                }
                if present(entries@, x) && x != k {
                    let i = place(entries@, x);
                    assert(entries@[i].0@ == x);
                    assert(before[i].0@ == x);
                }
            }
            assert forall|x: K::V| present(entries@, x) implies as_map(entries@)[x] == #[trigger] start.insert(k, value)[x] by {
                let i = place(entries@, x);
                assert(entries@[i].0@ == x);
                lemma_pair(entries@, i);
                if i < before.len() {
                    assert(before[i] == entries@[i]);
                    lemma_pair(before, i);
                    assert(x != k) by {
                        assert(before[i].0@ == x);
                    }
                }
            }
            assert(as_map(entries@) =~= start.insert(k, value));
        }
        self.entries = entries;
    }

    /// Every key once, in no particular order.
    pub fn keys(&self) -> (list: Vec<K>)
        ensures
            list@.len() == self@.dom().len(),
            forall|i: int| 0 <= i < list@.len() ==> self@.dom().contains((#[trigger] list@[i])@),
            forall|k: K::V| #[trigger] self@.dom().contains(k) ==> exists|i: int| 0 <= i < list@.len() && (#[trigger] list@[i])@ == k,
            forall|i: int, j: int| 0 <= i < j < list@.len() ==> (#[trigger] list@[i])@ != (#[trigger] list@[j])@,
    {
        proof {
            use_type_invariant(self);
            lemma_size(self.entries@);
        }
        let mut list: Vec<K> = Vec::new();
        let mut i: usize = 0;
        while i < self.entries.len()
            invariant
                i <= self.entries@.len(),
                list@.len() == i,
                forall|j: int| 0 <= j < i ==> (#[trigger] list@[j])@ == self.entries@[j].0@,
            decreases self.entries@.len() - i,
        {
            list.push(self.entries[i].0.duplicate());
            i += 1;
        }
        proof {
            assert forall|j: int| 0 <= j < list@.len() implies self@.dom().contains((#[trigger] list@[j])@) by {
                lemma_pair(self.entries@, j);
            }
            assert forall|k: K::V| #[trigger] self@.dom().contains(k) implies exists|j: int| 0 <= j < list@.len() && (#[trigger] list@[j])@ == k by {
                let j = place(self.entries@, k);
                assert(list@[j]@ == k);
            }
            assert forall|a: int, b: int| 0 <= a < b < list@.len() implies (#[trigger] list@[a])@ != (#[trigger] list@[b])@ by {
                assert(self.entries@[a].0@ != self.entries@[b].0@);
            }
        }
        list
    }
}

/// Taking one pair out of a list by moving the last one into its place takes
/// its key out of the map.
proof fn lemma_swap_remove<K: Key, V>(before: Seq<(K, V)>, after: Seq<(K, V)>, i: int)
    requires
        keys_distinct(before),
        0 <= i < before.len(),
        after == before.update(i, before.last()).drop_last(),
    ensures
        keys_distinct(after),
        as_map(after) == as_map(before).remove(before[i].0@),
{
    let n = before.len() - 1;
    let origin = |j: int| if j == i { n } else { j };
    assert forall|j: int| 0 <= j < after.len() implies after[j] == before[#[trigger] origin(j)] by {}
    assert forall|a: int, b: int| 0 <= a < b < after.len() implies (#[trigger] after[a]).0@ != (#[trigger] after[b]).0@ by {
        let x = origin(a);
        let y = origin(b);
        if x < y {
            assert(before[x].0@ != before[y].0@);
        } else {
            assert(before[y].0@ != before[x].0@);
        }
    }
    let k = before[i].0@;
    assert forall|x: K::V| #[trigger] present(after, x) == (present(before, x) && x != k) by {
        if present(after, x) {
            let j = place(after, x);
            assert(after[j].0@ == x);
            let o = origin(j);
            assert(before[o].0@ == x);
            if o < i {
                assert(before[o].0@ != before[i].0@);
            } else {
                assert(before[i].0@ != before[o].0@);
            }
        }
        if present(before, x) && x != k {
            let o = place(before, x);
            assert(before[o].0@ == x);
            if o == n {
                assert(after[i].0@ == x);
            } else {
                assert(after[o].0@ == x);
            }
        }
    }
    assert forall|x: K::V| present(after, x) implies as_map(after)[x] == #[trigger] as_map(before).remove(k)[x] by {
        let j = place(after, x);
        assert(after[j].0@ == x);
        lemma_pair(after, j);
        lemma_pair(before, origin(j));
    }
    assert(as_map(after) =~= as_map(before).remove(k));
}

} // verus!
