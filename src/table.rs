//! A map from string keys to values that keeps its keys unique and in the
//! order in which they were first inserted.

use vstd::prelude::*;
use crate::text::str_eq;

verus! {

/// Entries with pairwise distinct keys.
pub open spec fn keys_unique<V>(e: Seq<(String, V)>) -> bool {
    forall|i: int, j: int|
        0 <= i < e.len() && 0 <= j < e.len() && i != j ==> #[trigger] e[i].0@ != #[trigger] e[j].0@
}

/// Some entry carries key `k`.
pub open spec fn has_key<V>(e: Seq<(String, V)>, k: Seq<char>) -> bool {
    exists|i: int| 0 <= i < e.len() && #[trigger] e[i].0@ == k
}

/// The map that a sequence of entries stands for.
pub open spec fn entries_map<V>(e: Seq<(String, V)>) -> Map<Seq<char>, V> {
    Map::new(
        |k: Seq<char>| has_key(e, k),
        |k: Seq<char>| e[choose|i: int| 0 <= i < e.len() && #[trigger] e[i].0@ == k].1,
    )
}

/// The keys of a sequence of entries, in order.
pub open spec fn entry_keys<V>(e: Seq<(String, V)>) -> Seq<Seq<char>> {
    e.map_values(|p: (String, V)| p.0@)
}

/// In a sequence with unique keys, the entry at `i` is what the map holds
/// for its key.
pub proof fn lemma_entry_in_map<V>(e: Seq<(String, V)>, i: int)
    requires
        keys_unique(e),
        0 <= i < e.len(),
    ensures
        entries_map(e).contains_key(e[i].0@),
        entries_map(e)[e[i].0@] == e[i].1,
{
    let k = e[i].0@;
    assert(has_key(e, k));
    let j = choose|j: int| 0 <= j < e.len() && #[trigger] e[j].0@ == k;
    assert(j == i);
}

/// Overwriting the value at an index keeps the keys and updates the map.
pub proof fn lemma_update_value<V>(e: Seq<(String, V)>, i: int, v: V)
    requires
        keys_unique(e),
        0 <= i < e.len(),
    ensures
        keys_unique(e.update(i, (e[i].0, v))),
        entries_map(e.update(i, (e[i].0, v))) == entries_map(e).insert(e[i].0@, v),
        entry_keys(e.update(i, (e[i].0, v))) == entry_keys(e),
{
    let e2 = e.update(i, (e[i].0, v));
    let k = e[i].0@;
    assert forall|a: int, b: int|
        0 <= a < e2.len() && 0 <= b < e2.len() && a != b implies #[trigger] e2[a].0@
        != #[trigger] e2[b].0@ by {
        assert(e2[a].0@ == e[a].0@);
        assert(e2[b].0@ == e[b].0@);
    }
    let m = entries_map(e).insert(k, v);
    assert forall|x: Seq<char>| #[trigger] has_key(e2, x) == m.contains_key(x) by {
        if has_key(e2, x) {
            let a = choose|a: int| 0 <= a < e2.len() && #[trigger] e2[a].0@ == x;
            assert(e[a].0@ == x);
            assert(has_key(e, x));
        }
        if has_key(e, x) {
            let a = choose|a: int| 0 <= a < e.len() && #[trigger] e[a].0@ == x;
            assert(e2[a].0@ == x);
        }
        if x == k {
            assert(e2[i].0@ == x);
        }
    }
    assert forall|x: Seq<char>| #[trigger] m.contains_key(x) implies entries_map(e2)[x] == m[x] by {
        assert(has_key(e2, x));
        let a = choose|a: int| 0 <= a < e2.len() && #[trigger] e2[a].0@ == x;
        lemma_entry_in_map(e2, a);
        if a != i {
            lemma_entry_in_map(e, a);
        }
    }
    assert(entries_map(e2) =~= m);
    assert(entry_keys(e2) =~= entry_keys(e));
}

/// Appending an entry with a fresh key keeps the keys unique and adds it to
/// the map.
pub proof fn lemma_push_fresh<V>(e: Seq<(String, V)>, k: String, v: V)
    requires
        keys_unique(e),
        !has_key(e, k@),
    ensures
        keys_unique(e.push((k, v))),
        entries_map(e.push((k, v))) == entries_map(e).insert(k@, v),
        entry_keys(e.push((k, v))) == entry_keys(e).push(k@),
{
    let e2 = e.push((k, v));
    assert forall|a: int, b: int|
        0 <= a < e2.len() && 0 <= b < e2.len() && a != b implies #[trigger] e2[a].0@
        != #[trigger] e2[b].0@ by {
        if a < e.len() && b < e.len() {
            assert(e2[a] == e[a] && e2[b] == e[b]);
        } else if a < e.len() {
            assert(e2[a] == e[a]);
            if e[a].0@ == k@ {
                assert(has_key(e, k@));
            }
        } else {
            assert(e2[b] == e[b]);
            if e[b].0@ == k@ {
                assert(has_key(e, k@));
            }
        }
    }
    let m = entries_map(e).insert(k@, v);
    assert forall|x: Seq<char>| #[trigger] has_key(e2, x) == m.contains_key(x) by {
        if has_key(e2, x) && x != k@ {
            let a = choose|a: int| 0 <= a < e2.len() && #[trigger] e2[a].0@ == x;
            assert(a < e.len());
            assert(e[a].0@ == x);
            assert(has_key(e, x));
        }
        if has_key(e, x) {
            let a = choose|a: int| 0 <= a < e.len() && #[trigger] e[a].0@ == x;
            assert(e2[a].0@ == x);
        }
        assert(e2[e.len() as int].0@ == k@);
    }
    assert forall|x: Seq<char>| #[trigger] m.contains_key(x) implies entries_map(e2)[x] == m[x] by {
        assert(has_key(e2, x));
        let a = choose|a: int| 0 <= a < e2.len() && #[trigger] e2[a].0@ == x;
        lemma_entry_in_map(e2, a);
        if a < e.len() {
            assert(e2[a] == e[a]);
            lemma_entry_in_map(e, a);
        }
    }
    assert(entries_map(e2) =~= m);
    assert(entry_keys(e2) =~= entry_keys(e).push(k@));
}

/// A string-keyed map that remembers the order in which keys arrived.
pub struct OrderedMap<V> {
    pub entries: Vec<(String, V)>,
}

impl<V> View for OrderedMap<V> {
    type V = Map<Seq<char>, V>;

    open spec fn view(&self) -> Map<Seq<char>, V> {
        entries_map(self.entries@)
    }
}

impl<V> OrderedMap<V> {
    /// No key occurs twice.
    pub open spec fn wf(&self) -> bool {
        keys_unique(self.entries@)
    }

    /// The keys in insertion order.
    pub open spec fn key_order(&self) -> Seq<Seq<char>> {
        entry_keys(self.entries@)
    }

    pub fn new() -> (r: Self)
        ensures
            r.wf(),
            r@ == Map::<Seq<char>, V>::empty(),
            r.key_order() == Seq::<Seq<char>>::empty(),
    {
        let r = OrderedMap { entries: Vec::new() };
        assert(r@ =~= Map::<Seq<char>, V>::empty());
        assert(r.key_order() =~= Seq::<Seq<char>>::empty());
        r
    }

    pub fn len(&self) -> (r: usize)
        requires
            self.wf(),
        ensures
            r == self@.len(),
            r == self@.dom().len(),
    {
        proof {
            self.lemma_len();
        }
        self.entries.len()
    }

    /// The number of keys equals the number of entries.
    pub proof fn lemma_len(&self)
        requires
            self.wf(),
        ensures
            self@.len() == self.entries@.len(),
            self@.dom().finite(),
    {
        lemma_dom_len(self.entries@);
    }

    /// Position of a key, if present.
    pub fn find(&self, k: &str) -> (r: Option<usize>)
        requires
            self.wf(),
        ensures
            match r {
                Some(i) => i < self.entries@.len() && self.entries@[i as int].0@ == k@,
                None => !self@.contains_key(k@),
            },
    {
        let mut i: usize = 0;
        while i < self.entries.len()
            invariant
                i <= self.entries@.len(),
                forall|j: int| 0 <= j < i ==> #[trigger] self.entries@[j].0@ != k@,
            decreases self.entries@.len() - i,
        {
            if str_eq(self.entries[i].0.as_str(), k) {
                return Some(i);
            }
            i = i + 1;
        }
        None
    }

    pub fn contains_key(&self, k: &str) -> (r: bool)
        requires
            self.wf(),
        ensures
            r == self@.contains_key(k@),
    {
        match self.find(k) {
            Some(i) => {
                proof {
                    lemma_entry_in_map(self.entries@, i as int);
                }
                true
            },
            None => false,
        }
    }

    pub fn get(&self, k: &str) -> (r: Option<&V>)
        requires
            self.wf(),
        ensures
            match r {
                Some(v) => self@.contains_key(k@) && self@[k@] == *v,
                None => !self@.contains_key(k@),
            },
    {
        match self.find(k) {
            Some(i) => {
                proof {
                    lemma_entry_in_map(self.entries@, i as int);
                }
                Some(&self.entries[i].1)
            },
            None => None,
        }
    }

    /// Puts `v` at position `i`, keeping the key there, and hands back the
    /// value it replaces.
    pub fn replace(&mut self, i: usize, v: V) -> (r: V)
        requires
            old(self).wf(),
            i < old(self).entries@.len(),
        ensures
            final(self).wf(),
            final(self)@ == old(self)@.insert(old(self).entries@[i as int].0@, v),
            final(self).key_order() == old(self).key_order(),
            r == old(self).entries@[i as int].1,
            final(self).entries@ == old(self).entries@.update(i as int, (old(self).entries@[i as int].0, v)),
    {
        proof {
            lemma_update_value(self.entries@, i as int, v);
        }
        let (key, old_v) = self.entries.remove(i);
        self.entries.insert(i, (key, v));
        assert(self.entries@ =~= old(self).entries@.update(i as int, (old(self).entries@[i as int].0, v)));
        old_v
    }

    /// Removes `k` and its value, if present.
    pub fn remove(&mut self, k: &str) -> (r: Option<V>)
        requires
            old(self).wf(),
        ensures
            final(self).wf(),
            final(self)@ == old(self)@.remove(k@),
            match r {
                Some(v) => old(self)@.contains_key(k@) && old(self)@[k@] == v,
                None => !old(self)@.contains_key(k@),
            },
    {
        match self.find(k) {
            Some(i) => {
                proof {
                    lemma_entry_in_map(self.entries@, i as int);
                    lemma_remove_at(self.entries@, i as int);
                }
                let (_, v) = self.entries.remove(i);
                Some(v)
            },
            None => {
                assert(self@ =~= old(self)@.remove(k@));
                None
            },
        }
    }

    /// Sets the value of `k`; a new key goes to the end of the order.
    pub fn insert(&mut self, k: String, v: V)
        requires
            old(self).wf(),
        ensures
            final(self).wf(),
            final(self)@ == old(self)@.insert(k@, v),
            final(self).key_order() == if old(self)@.contains_key(k@) {
                old(self).key_order()
            } else {
                old(self).key_order().push(k@)
            },
    {
        match self.find(k.as_str()) {
            Some(i) => {
                proof {
                    lemma_entry_in_map(self.entries@, i as int);
                    lemma_update_value(self.entries@, i as int, v);
                }
                let (key, _) = self.entries.remove(i);
                self.entries.insert(i, (key, v));
                assert(self.entries@ =~= old(self).entries@.update(i as int, (old(self).entries@[i as int].0, v)));
            },
            None => {
                proof {
                    if has_key(self.entries@, k@) {
                        assert(self@.contains_key(k@));
                    }
                    lemma_push_fresh(self.entries@, k, v);
                }
                self.entries.push((k, v));
            },
        }
    }
}

/// Removing the entry at an index keeps the keys unique and removes its key
/// from the map.
pub proof fn lemma_remove_at<V>(e: Seq<(String, V)>, i: int)
    requires
        keys_unique(e),
        0 <= i < e.len(),
    ensures
        keys_unique(e.remove(i)),
        entries_map(e.remove(i)) == entries_map(e).remove(e[i].0@),
{
    let e2 = e.remove(i);
    let k = e[i].0@;
    assert forall|a: int, b: int|
        0 <= a < e2.len() && 0 <= b < e2.len() && a != b implies #[trigger] e2[a].0@
        != #[trigger] e2[b].0@ by {
        let a0 = if a < i { a } else { a + 1 };
        let b0 = if b < i { b } else { b + 1 };
        assert(e2[a] == e[a0] && e2[b] == e[b0]);
    }
    let m = entries_map(e).remove(k);
    assert forall|x: Seq<char>| #[trigger] has_key(e2, x) == m.contains_key(x) by {
        if has_key(e2, x) {
            let a = choose|a: int| 0 <= a < e2.len() && #[trigger] e2[a].0@ == x;
            let a0 = if a < i { a } else { a + 1 };
            assert(e[a0].0@ == x);
            assert(has_key(e, x));
            assert(a0 != i);
        }
        if has_key(e, x) && x != k {
            let a = choose|a: int| 0 <= a < e.len() && #[trigger] e[a].0@ == x;
            assert(a != i);
            let a2 = if a < i { a } else { a - 1 };
            assert(e2[a2].0@ == x);
        }
    }
    assert forall|x: Seq<char>| #[trigger] m.contains_key(x) implies entries_map(e2)[x] == m[x] by {
        assert(has_key(e2, x));
        let a = choose|a: int| 0 <= a < e2.len() && #[trigger] e2[a].0@ == x;
        lemma_entry_in_map(e2, a);
        let a0 = if a < i { a } else { a + 1 };
        assert(e2[a] == e[a0]);
        lemma_entry_in_map(e, a0);
    }
    assert(entries_map(e2) =~= m);
}

/// The domain of a unique-key sequence has as many keys as entries.
proof fn lemma_dom_len<V>(e: Seq<(String, V)>)
    requires
        keys_unique(e),
    ensures
        entries_map(e).dom().finite(),
        entries_map(e).dom().len() == e.len(),
    decreases e.len(),
{
    if e.len() == 0 {
        assert(entries_map(e).dom() =~= Set::<Seq<char>>::empty());
    } else {
        let e0 = e.drop_last();
        let k = e.last().0;
        assert(keys_unique(e0));
        assert(!has_key(e0, k@)) by {
            if has_key(e0, k@) {
                let a = choose|a: int| 0 <= a < e0.len() && #[trigger] e0[a].0@ == k@;
                assert(e[a].0@ == e[e.len() - 1].0@);
            }
        }
        lemma_dom_len(e0);
        lemma_push_fresh(e0, k, e.last().1);
        assert(e0.push((k, e.last().1)) =~= e);
        assert(entries_map(e0).dom().insert(k@) =~= entries_map(e).dom());
    }
}

} // verus!
