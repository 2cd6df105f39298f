//! A small table keyed by text, which keeps its entries in the order in
//! which their keys first came.

use vstd::prelude::*;

verus! {

/// Whether some entry of `pairs` has `key`.
pub open spec fn has_key<V>(pairs: Seq<(Seq<char>, V)>, key: Seq<char>) -> bool {
    exists|i: int| 0 <= i < pairs.len() && (#[trigger] pairs[i]).0 == key
}

/// The place of an entry of `pairs` that has `key`, where there is one.
pub open spec fn position<V>(pairs: Seq<(Seq<char>, V)>, key: Seq<char>) -> int {
    choose|i: int| 0 <= i < pairs.len() && (#[trigger] pairs[i]).0 == key
}

/// The value that `pairs` holds for `key`.
pub open spec fn lookup<V>(pairs: Seq<(Seq<char>, V)>, key: Seq<char>) -> Option<V> {
    if has_key(pairs, key) {
        Some(pairs[position(pairs, key)].1)
    } else {
        None
    }
}

/// `pairs` with `value` for `key`: in the place of the entry that had the
/// key, or else at the end.
pub open spec fn put<V>(pairs: Seq<(Seq<char>, V)>, key: Seq<char>, value: V) -> Seq<(Seq<char>, V)> {
    if has_key(pairs, key) {
        pairs.update(position(pairs, key), (key, value))
    } else {
        pairs.push((key, value))
    }
}

/// Whether no key occurs twice in `pairs`.
pub open spec fn distinct<V>(pairs: Seq<(Seq<char>, V)>) -> bool {
    forall|i: int, j: int|
        0 <= i < j < pairs.len() ==> (#[trigger] pairs[i]).0 != (#[trigger] pairs[j]).0
}

/// A table from text to values of `V`. No key occurs twice in it.
#[derive(Debug)]
pub struct Table<V> {
    entries: Vec<(String, V)>,
}

impl<V> Table<V> {
    #[verifier::type_invariant]
    spec fn inv(self) -> bool {
        distinct(self.pairs())
    }

    /// The entries, each key as its characters, in the table's order.
    pub closed spec fn pairs(self) -> Seq<(Seq<char>, V)> {
        Seq::new(self.entries@.len(), |i: int| (self.entries@[i].0@, self.entries@[i].1))
    }

    /// The empty table.
    pub fn new() -> (res: Table<V>)
        ensures
            res.pairs() == Seq::<(Seq<char>, V)>::empty(),
            distinct(res.pairs()),
    {
        let res = Table { entries: Vec::new() };
        assert(res.pairs() =~= Seq::<(Seq<char>, V)>::empty());
        res
    }

    /// The number of entries.
    pub fn len(&self) -> (res: usize)
        ensures
            res == self.pairs().len(),
            distinct(self.pairs()),
    {
        proof {
            use_type_invariant(self);
        }
        self.entries.len()
    }

    /// The key and the value of the entry at `index`, where the table has
    /// that many.
    pub fn entry(&self, index: usize) -> (res: Option<(&String, &V)>)
        ensures
            res is Some <==> index < self.pairs().len(),
            res matches Some(found) ==> (found.0@, *found.1) == self.pairs()[index as int],
    {
        if index < self.entries.len() {
            Some((&self.entries[index].0, &self.entries[index].1))
        } else {
            None
        }
    }

    /// The value held for `key`, by exact match.
    pub fn get(&self, key: &String) -> (res: Option<&V>)
        ensures
            match res {
                Some(value) => lookup(self.pairs(), key@) == Some(*value),
                None => lookup(self.pairs(), key@) is None,
            },
            distinct(self.pairs()),
    {
        proof {
            use_type_invariant(self);
        }
        let mut i: usize = 0;
        while i < self.entries.len()
            invariant
                i <= self.entries@.len(),
                distinct(self.pairs()),
                forall|j: int| 0 <= j < i ==> (#[trigger] self.pairs()[j]).0 != key@,
            decreases self.entries@.len() - i,
        {
            if self.entries[i].0 == *key {
                assert(self.pairs()[i as int].0 == key@);
                return Some(&self.entries[i].1);
            }
            i = i + 1;
        }
        None
    }

    /// Sets the value for `key`: over the one that the key had, or else as a
    /// new entry behind the others.
    pub fn insert(&mut self, key: String, value: V)
        ensures
            final(self).pairs() == put(old(self).pairs(), key@, value),
            distinct(final(self).pairs()),
    {
        proof {
            use_type_invariant(&*self);
        }
        let ghost before = self.pairs();
        let mut entries: Vec<(String, V)> = Vec::new();
        core::mem::swap(&mut self.entries, &mut entries);
        assert(self.pairs() =~= Seq::<(Seq<char>, V)>::empty());
        let ghost held = Seq::new(entries@.len(), |i: int| (entries@[i].0@, entries@[i].1));
        assert(held =~= before);
        let mut i: usize = 0;
        while i < entries.len()
            invariant
                i <= entries@.len(),
                before == Seq::new(entries@.len(), |i: int| (entries@[i].0@, entries@[i].1)),
                distinct(before),
                forall|j: int| 0 <= j < i ==> (#[trigger] before[j]).0 != key@,
            ensures
                i < entries@.len() ==> before[i as int].0 == key@,
            decreases entries@.len() - i,
        {
            if entries[i].0 == key {
                assert(before[i as int].0 == key@);
                break;
            }
            i = i + 1;
        }
        if i < entries.len() {
            assert(before[i as int].0 == key@);
            entries.set(i, (key, value));
        } else {
            entries.push((key, value));
        }
        proof {
            let after = Seq::new(entries@.len(), |i: int| (entries@[i].0@, entries@[i].1));
            assert(after =~= put(before, key@, value));
            lemma_lookup_put(before, key@, value, key@);
        }
        self.entries = entries;
    }
}

/// A table answers a key with the value last put for it, and every other key
/// as before.
pub proof fn lemma_lookup_put<V>(pairs: Seq<(Seq<char>, V)>, key: Seq<char>, value: V, other: Seq<char>)
    requires
        distinct(pairs),
    ensures
        distinct(put(pairs, key, value)),
        lookup(put(pairs, key, value), other) == if other == key {
            Some(value)
        } else {
            lookup(pairs, other)
        },
{
    let after = put(pairs, key, value);
    if has_key(pairs, key) {
        let at = position(pairs, key);
        assert(after[at].0 == key);
        if other != key && has_key(pairs, other) {
            let p = position(pairs, other);
            assert(after[p] == pairs[p]);
            assert(has_key(after, other));
            let q = position(after, other);
            assert(pairs[q].0 == other);
        }
        if other != key && has_key(after, other) {
            let q = position(after, other);
            assert(pairs[q].0 == other);
        }
    } else {
        let at = pairs.len() as int;
        assert(after[at].0 == key);
        if other != key && has_key(pairs, other) {
            let p = position(pairs, other);
            assert(after[p] == pairs[p]);
            let q = position(after, other);
            assert(pairs[q].0 == other);
        }
        if other != key && has_key(after, other) {
            let q = position(after, other);
            assert(pairs[q].0 == other);
        }
    }
    if other == key {
        assert(has_key(after, key));
        let q = position(after, key);
        assert(after[q].0 == key);
    }
}

} // verus!
