//! A small map from text keys to values that remembers insertion order.

use crate::views::{same_text, Replicate};
use vstd::prelude::*;

verus! {

/// The map that a sequence of key and value pairs stands for; a later pair
/// replaces an earlier one with the same key.
pub open spec fn pairs_map<V: View>(s: Seq<(String, V)>) -> Map<Seq<char>, V::V>
    decreases s.len(),
{
    if s.len() == 0 {
        Map::empty()
    } else {
        pairs_map(s.drop_last()).insert(s.last().0@, s.last().1@)
    }
}

/// The keys of a sequence of pairs, in order.
pub open spec fn pairs_keys<V>(s: Seq<(String, V)>) -> Seq<Seq<char>> {
    Seq::new(s.len(), |i: int| s[i].0@)
}

/// The order of keys after the keys of `more` have been inserted one by one
/// into a map whose keys are `base`: a key that is already present keeps its
/// place, a new key goes to the end.
pub open spec fn keys_extended(base: Seq<Seq<char>>, more: Seq<Seq<char>>) -> Seq<Seq<char>>
    decreases more.len(),
{
    if more.len() == 0 {
        base
    } else {
        let before = keys_extended(base, more.drop_last());
        if before.contains(more.last()) {
            before
        } else {
            before.push(more.last())
        }
    }
}

/// A map from text keys to values. Keys are unique; entries keep the order in
/// which their keys were first inserted.
#[derive(Debug)]
pub struct StrMap<V> {
    entries: Vec<(String, V)>,
}

impl<V: View> View for StrMap<V> {
    type V = Map<Seq<char>, V::V>;

    closed spec fn view(&self) -> Map<Seq<char>, V::V> {
        pairs_map(self.entries@)
    }
}

proof fn lemma_keys_of_map<V: View>(s: Seq<(String, V)>)
    ensures
        forall|k: Seq<char>|
            #![trigger pairs_map(s).contains_key(k)]
            #![trigger pairs_keys(s).contains(k)]
            pairs_map(s).contains_key(k) <==> pairs_keys(s).contains(k),
        pairs_map(s).dom().finite(),
    decreases s.len(),
{
    if s.len() > 0 {
        let t = s.drop_last();
        let last = s.len() - 1;
        lemma_keys_of_map(t);
        assert forall|k: Seq<char>| pairs_keys(s).contains(k) implies pairs_map(s).contains_key(
            k,
        ) by {
            let i = choose|i: int| 0 <= i < s.len() && pairs_keys(s)[i] == k;
            if i < last {
                assert(pairs_keys(t)[i] == k);
            }
        }
        assert forall|k: Seq<char>| pairs_map(s).contains_key(k) implies pairs_keys(s).contains(
            k,
        ) by {
            if k == s.last().0@ {
                assert(pairs_keys(s)[last] == k);
            } else {
                let i = choose|i: int| 0 <= i < t.len() && pairs_keys(t)[i] == k;
                assert(pairs_keys(s)[i] == k);
            }
        }
    }
}

proof fn lemma_same_map<V: View>(a: Seq<(String, V)>, b: Seq<(String, V)>)
    requires
        a.len() == b.len(),
        forall|j: int| 0 <= j < a.len() ==> a[j].0@ == b[j].0@ && a[j].1@ == b[j].1@,
    ensures
        pairs_map(a) == pairs_map(b),
    decreases a.len(),
{
    if a.len() > 0 {
        lemma_same_map(a.drop_last(), b.drop_last());
    }
}

/// The map of two sequences of pairs put end to end is the map of the first,
/// overlaid with the map of the second.
pub proof fn lemma_pairs_map_concat<V: View>(a: Seq<(String, V)>, b: Seq<(String, V)>)
    ensures
        pairs_map(a + b) == pairs_map(a).union_prefer_right(pairs_map(b)),
    decreases b.len(),
{
    if b.len() > 0 {
        lemma_pairs_map_concat(a, b.drop_last());
        assert((a + b).drop_last() =~= a + b.drop_last());
    }
}

proof fn lemma_entry_of_map<V: View>(s: Seq<(String, V)>, i: int)
    requires
        pairs_keys(s).no_duplicates(),
        0 <= i < s.len(),
    ensures
        pairs_map(s).contains_key(s[i].0@),
        pairs_map(s)[s[i].0@] == s[i].1@,
    decreases s.len(),
{
    let t = s.drop_last();
    if i < s.len() - 1 {
        assert(pairs_keys(s)[i] != pairs_keys(s)[s.len() - 1]);
        assert forall|a: int, b: int| 0 <= a < t.len() && 0 <= b < t.len() && a != b implies pairs_keys(
            t,
        )[a] != pairs_keys(t)[b] by {
            assert(pairs_keys(s)[a] != pairs_keys(s)[b]);
        }
        lemma_entry_of_map(t, i);
    }
}

proof fn lemma_prefix_distinct<V>(s: Seq<(String, V)>)
    requires
        pairs_keys(s).no_duplicates(),
        s.len() > 0,
    ensures
        pairs_keys(s.drop_last()).no_duplicates(),
        !pairs_keys(s.drop_last()).contains(s.last().0@),
{
    let t = s.drop_last();
    assert forall|a: int, b: int| 0 <= a < t.len() && 0 <= b < t.len() && a != b implies pairs_keys(
        t,
    )[a] != pairs_keys(t)[b] by {
        assert(pairs_keys(s)[a] != pairs_keys(s)[b]);
    }
    if pairs_keys(t).contains(s.last().0@) {
        let i = choose|i: int| 0 <= i < t.len() && pairs_keys(t)[i] == s.last().0@;
        assert(pairs_keys(s)[i] == pairs_keys(s)[s.len() - 1]);
    }
}

proof fn lemma_len_of_map<V: View>(s: Seq<(String, V)>)
    requires
        pairs_keys(s).no_duplicates(),
    ensures
        pairs_map(s).dom().finite(),
        pairs_map(s).len() == s.len(),
    decreases s.len(),
{
    lemma_keys_of_map(s);
    if s.len() > 0 {
        let t = s.drop_last();
        lemma_prefix_distinct(s);
        lemma_len_of_map(t);
        lemma_keys_of_map(t);
    }
}

proof fn lemma_update_of_map<V: View>(s: Seq<(String, V)>, i: int, e: (String, V))
    requires
        pairs_keys(s).no_duplicates(),
        0 <= i < s.len(),
        e.0@ == s[i].0@,
    ensures
        pairs_keys(s.update(i, e)) == pairs_keys(s),
        pairs_map(s.update(i, e)) == pairs_map(s).insert(e.0@, e.1@),
    decreases s.len(),
{
    let u = s.update(i, e);
    let t = s.drop_last();
    lemma_prefix_distinct(s);
    if i == s.len() - 1 {
        assert(u.drop_last() =~= t);
    } else {
        lemma_update_of_map(t, i, e);
        assert(u.drop_last() =~= t.update(i, e));
        assert(pairs_keys(s)[i] != pairs_keys(s)[s.len() - 1]);
    }
}

proof fn lemma_remove_of_map<V: View>(s: Seq<(String, V)>, i: int)
    requires
        pairs_keys(s).no_duplicates(),
        0 <= i < s.len(),
    ensures
        pairs_keys(s.remove(i)) == pairs_keys(s).remove(i),
        pairs_keys(s.remove(i)).no_duplicates(),
        pairs_map(s.remove(i)) == pairs_map(s).remove(s[i].0@),
    decreases s.len(),
{
    let r = s.remove(i);
    assert forall|a: int, b: int| 0 <= a < r.len() && 0 <= b < r.len() && a != b implies pairs_keys(
        r,
    )[a] != pairs_keys(r)[b] by {
        let a2 = if a < i { a } else { a + 1 };
        let b2 = if b < i { b } else { b + 1 };
        assert(pairs_keys(s)[a2] != pairs_keys(s)[b2]);
    }
    let t = s.drop_last();
    lemma_prefix_distinct(s);
    lemma_keys_of_map(t);
    if i < s.len() - 1 {
        lemma_remove_of_map(t, i);
        assert(r.drop_last() =~= t.remove(i));
        assert(pairs_keys(s)[i] != pairs_keys(s)[s.len() - 1]);
    }
}

impl<V> StrMap<V> {
    #[verifier::type_invariant]
    spec fn distinct_keys(self) -> bool {
        pairs_keys(self.entries@).no_duplicates()
    }
}

impl<V: View> StrMap<V> {
    /// The keys in the order in which they were first inserted.
    pub closed spec fn order(&self) -> Seq<Seq<char>> {
        pairs_keys(self.entries@)
    }

    /// An empty map.
    pub fn new() -> (r: Self)
        ensures
            r@ == Map::<Seq<char>, V::V>::empty(),
            r.order() == Seq::<Seq<char>>::empty(),
    {
        let r = StrMap { entries: Vec::new() };
        r
    }

    /// The number of entries. The keys in `order` are exactly the keys of
    /// the map, each once.
    pub fn len(&self) -> (n: usize)
        ensures
            n == self@.len(),
            n == self.order().len(),
            self@.dom().finite(),
            self.order().no_duplicates(),
            forall|k: Seq<char>| self@.contains_key(k) <==> self.order().contains(k),
    {
        proof {
            use_type_invariant(self);
            lemma_len_of_map(self.entries@);
            lemma_keys_of_map(self.entries@);
        }
        self.entries.len()
    }

    fn take_entries(&mut self) -> (r: Vec<(String, V)>)
        ensures
            r@ == old(self).entries@,
            final(self).entries@.len() == 0,
    {
        let mut entries: Vec<(String, V)> = Vec::new();
        core::mem::swap(&mut self.entries, &mut entries);
        entries
    }

    fn put_entries(&mut self, entries: Vec<(String, V)>)
        requires
            pairs_keys(entries@).no_duplicates(),
        ensures
            final(self).entries@ == entries@,
    {
        let mut entries = entries;
        core::mem::swap(&mut self.entries, &mut entries);
    }

    fn position(&self, key: &str) -> (r: Option<usize>)
        ensures
            match r {
                Some(i) => i < self.entries@.len() && pairs_keys(self.entries@)[i as int] == key@,
                None => !pairs_keys(self.entries@).contains(key@),
            },
    {
        let mut i: usize = 0;
        while i < self.entries.len()
            invariant
                i <= self.entries@.len(),
                forall|j: int| 0 <= j < i ==> pairs_keys(self.entries@)[j] != key@,
            decreases self.entries@.len() - i,
        {
            if same_text(self.entries[i].0.as_str(), key) {
                return Some(i);
            }
            i += 1;
        }
        None
    }

    /// Whether the map has an entry for `key`.
    pub fn contains_key(&self, key: &str) -> (r: bool)
        ensures
            r == self@.contains_key(key@),
    {
        proof {
            lemma_keys_of_map(self.entries@);
        }
        self.position(key).is_some()
    }

    /// The value stored under `key`, if there is one.
    pub fn get(&self, key: &str) -> (r: Option<&V>)
        ensures
            r.is_some() == self@.contains_key(key@),
            r matches Some(v) ==> v@ == self@[key@],
    {
        proof {
            use_type_invariant(self);
            lemma_keys_of_map(self.entries@);
        }
        match self.position(key) {
            Some(i) => {
                proof {
                    lemma_entry_of_map(self.entries@, i as int);
                }
                Some(&self.entries[i].1)
            },
            None => None,
        }
    }

    /// The entry at position `index` of the insertion order, if there is one.
    pub fn entry_at(&self, index: usize) -> (r: Option<(&String, &V)>)
        ensures
            r.is_some() == (index < self.order().len()),
            r matches Some((k, v)) ==> k@ == self.order()[index as int] && self@.contains_key(k@)
                && v@ == self@[k@],
    {
        if index < self.entries.len() {
            proof {
                use_type_invariant(self);
                lemma_entry_of_map(self.entries@, index as int);
            }
            Some((&self.entries[index].0, &self.entries[index].1))
        } else {
            None
        }
    }

    /// Stores `value` under `key`, replacing the value of an entry that is
    /// already there.
    pub fn insert(&mut self, key: String, value: V)
        ensures
            final(self)@ == old(self)@.insert(key@, value@),
            final(self).order() == if old(self)@.contains_key(key@) {
                old(self).order()
            } else {
                old(self).order().push(key@)
            },
    {
        proof {
            use_type_invariant(&*self);
            lemma_keys_of_map(self.entries@);
        }
        let found = self.position(key.as_str());
        let mut entries = self.take_entries();
        let ghost before = entries@;
        match found {
            Some(i) => {
                proof {
                    lemma_update_of_map(before, i as int, (key, value));
                }
                entries.set(i, (key, value));
            },
            None => {
                entries.push((key, value));
                proof {
                    assert(entries@.drop_last() =~= before);
                    assert(pairs_keys(entries@) =~= pairs_keys(before).push(key@));
                }
            },
        }
        self.put_entries(entries);
    }

    /// Removes the entry for `key` and returns its value, if there was one.
    pub fn remove(&mut self, key: &str) -> (r: Option<V>)
        ensures
            final(self)@ == old(self)@.remove(key@),
            r.is_some() == old(self)@.contains_key(key@),
            r matches Some(v) ==> v@ == old(self)@[key@],
            final(self).order() == old(self).order().remove_value(key@),
    {
        proof {
            use_type_invariant(&*self);
            lemma_keys_of_map(self.entries@);
        }
        match self.position(key) {
            Some(i) => {
                proof {
                    lemma_entry_of_map(self.entries@, i as int);
                    lemma_remove_of_map(self.entries@, i as int);
                    pairs_keys(self.entries@).index_of_first_ensures(key@);
                }
                let mut entries = self.take_entries();
                let e = entries.remove(i);
                self.put_entries(entries);
                Some(e.1)
            },
            None => {
                proof {
                    pairs_keys(self.entries@).index_of_first_ensures(key@);
                }
                None
            },
        }
    }
}

impl<V: Replicate> StrMap<V> {
    /// Stores every pair of `pairs`, in order, as `insert` does.
    pub fn insert_all(&mut self, pairs: &Vec<(String, V)>)
        ensures
            final(self)@ == old(self)@.union_prefer_right(pairs_map(pairs@)),
            final(self).order() == keys_extended(old(self).order(), pairs_keys(pairs@)),
    {
        let ghost start = self@;
        let ghost start_order = self.order();
        let mut i: usize = 0;
        while i < pairs.len()
            invariant
                i <= pairs@.len(),
                self@ == start.union_prefer_right(pairs_map(pairs@.take(i as int))),
                self.order() == keys_extended(start_order, pairs_keys(pairs@.take(i as int))),
            decreases pairs@.len() - i,
        {
            let key = pairs[i].0.clone();
            let value = pairs[i].1.replicate();
            proof {
                let done = pairs@.take(i as int);
                let next = pairs@.take(i + 1);
                assert(next.drop_last() =~= done);
                assert(pairs_keys(next).drop_last() =~= pairs_keys(done));
                use_type_invariant(&*self);
                lemma_keys_of_map(self.entries@);
            }
            self.insert(key, value);
            i += 1;
        }
        assert(pairs@.take(i as int) =~= pairs@);
    }

    /// Copies every entry of `other` into this map. Where both maps have a
    /// key, the value of `other` replaces the one that was here.
    pub fn extend_from(&mut self, other: &StrMap<V>)
        ensures
            final(self)@ == old(self)@.union_prefer_right(other@),
            final(self).order() == keys_extended(old(self).order(), other.order()),
    {
        self.insert_all(&other.entries);
    }

    /// A copy of the map, with the same entries in the same order.
    pub fn duplicate(&self) -> (r: StrMap<V>)
        ensures
            r@ == self@,
            r.order() == self.order(),
    {
        let mut entries: Vec<(String, V)> = Vec::new();
        let mut i: usize = 0;
        while i < self.entries.len()
            invariant
                i <= self.entries@.len(),
                entries@.len() == i,
                forall|j: int|
                    0 <= j < i ==> entries@[j].0@ == self.entries@[j].0@ && entries@[j].1@
                        == self.entries@[j].1@,
            decreases self.entries@.len() - i,
        {
            entries.push((self.entries[i].0.clone(), self.entries[i].1.replicate()));
            i += 1;
        }
        proof {
            use_type_invariant(self);
            assert(pairs_keys(entries@) =~= pairs_keys(self.entries@));
            lemma_same_map(entries@, self.entries@);
        }
        StrMap { entries }
    }
}

impl<V: Replicate> Clone for StrMap<V> {
    fn clone(&self) -> (r: StrMap<V>)
        ensures
            r@ == self@,
            r.order() == self.order(),
    {
        self.duplicate()
    }
}

impl<V: Replicate> Replicate for StrMap<V> {
    fn replicate(&self) -> (r: StrMap<V>) {
        self.duplicate()
    }
}

} // verus!
