//! A map from strings to values that remembers the order in which its keys
//! were first inserted.
//!
//! The store keeps its keyspaces and the fields of hash values in this map.
//! Its abstract view is a `Map<Seq<char>, V>`; `key_seq` exposes the order in
//! which enumerations (`keys`, `key_at`) hand the keys out.
use vstd::prelude::*;

verus! {

/// The keys of a sequence of entries, in order.
pub open spec fn keys_of<V>(s: Seq<(String, V)>) -> Seq<Seq<char>> {
    Seq::new(s.len(), |i: int| s[i].0@)
}

/// The values of a sequence of entries, in order.
pub open spec fn values_of<V>(s: Seq<(String, V)>) -> Seq<V> {
    Seq::new(s.len(), |i: int| s[i].1)
}

/// Removing one element keeps a sequence free of duplicates.
proof fn lemma_remove_keeps_distinct(s: Seq<Seq<char>>, i: int)
    requires
        s.no_duplicates(),
        0 <= i < s.len(),
    ensures
        s.remove(i).no_duplicates(),
{
    let r = s.remove(i);
    assert forall|a: int, b: int| 0 <= a < r.len() && 0 <= b < r.len() && a != b implies r[a] != r[b] by {
        let a2 = if a < i { a } else { a + 1 };
        let b2 = if b < i { b } else { b + 1 };
        assert(r[a] == s[a2] && r[b] == s[b2]);
    }
}

/// The enumeration order after key `k` is set: a new key goes to the end, an
/// existing key keeps its place.
pub open spec fn insert_order(ks: Seq<Seq<char>>, k: Seq<char>) -> Seq<Seq<char>> {
    if ks.contains(k) {
        ks
    } else {
        ks.push(k)
    }
}

/// The enumeration order after key `k` is removed: the other keys keep their
/// relative order.
pub open spec fn remove_order(ks: Seq<Seq<char>>, k: Seq<char>) -> Seq<Seq<char>> {
    if ks.contains(k) {
        ks.remove(ks.index_of(k))
    } else {
        ks
    }
}

/// A string-keyed map; no key occurs twice among its entries.
#[derive(Debug)]
pub struct StrMap<V> {
    entries: Vec<(String, V)>,
}

impl<V> StrMap<V> {
    /// The keys, in enumeration order.
    pub closed spec fn key_seq(&self) -> Seq<Seq<char>> {
        keys_of(self.entries@)
    }

    /// No key occurs twice.
    #[verifier::type_invariant]
    pub closed spec fn well_formed(&self) -> bool {
        self.key_seq().no_duplicates()
    }

    /// The value stored at position `i` of the enumeration order.
    pub closed spec fn value_seq(&self) -> Seq<V> {
        values_of(self.entries@)
    }

    pub closed spec fn spec_view(&self) -> Map<Seq<char>, V> {
        Map::new(
            |k: Seq<char>| self.key_seq().contains(k),
            |k: Seq<char>| self.value_seq()[self.key_seq().index_of(k)],
        )
    }

    /// In a well-formed map, the value seen at position `i` is the value of the
    /// key seen at position `i`.
    pub proof fn lemma_position(&self, i: int)
        requires
            self.well_formed(),
            0 <= i < self.key_seq().len(),
        ensures
            self.spec_view().contains_key(self.key_seq()[i]),
            self.spec_view()[self.key_seq()[i]] == self.value_seq()[i],
            self.key_seq().index_of(self.key_seq()[i]) == i,
    {
        let k = self.key_seq()[i];
        assert(self.key_seq().contains(k));
        let j = self.key_seq().index_of(k);
        assert(0 <= j < self.key_seq().len() && self.key_seq()[j] == k);
    }

    /// A key is in the view exactly when it is in the enumeration.
    pub proof fn lemma_contains(&self, k: Seq<char>)
        ensures
            self.spec_view().contains_key(k) == self.key_seq().contains(k),
    {
    }

    /// The keys of the view are exactly the keys of the enumeration, each
    /// once, and there are as many of them.
    pub proof fn lemma_domain(&self)
        requires
            self.well_formed(),
        ensures
            self.key_seq().no_duplicates(),
            self.spec_view().dom() == self.key_seq().to_set(),
            self.spec_view().dom().finite(),
            self.spec_view().len() == self.key_seq().len(),
            self.value_seq().len() == self.key_seq().len(),
    {
        assert(self.spec_view().dom() =~= self.key_seq().to_set());
        self.key_seq().unique_seq_to_set();
    }
}

impl<V> View for StrMap<V> {
    type V = Map<Seq<char>, V>;

    open spec fn view(&self) -> Map<Seq<char>, V> {
        self.spec_view()
    }
}

impl<V> StrMap<V> {
    /// An empty map.
    pub fn new() -> (m: Self)
        ensures
            m@ == Map::<Seq<char>, V>::empty(),
            m.key_seq() == Seq::<Seq<char>>::empty(),
    {
        let m = StrMap { entries: Vec::new() };
        assert(m.key_seq() =~= Seq::<Seq<char>>::empty());
        assert(m@ =~= Map::<Seq<char>, V>::empty());
        m
    }

    /// The number of keys.
    pub fn len(&self) -> (n: usize)
        ensures
            n == self.key_seq().len(),
            n == self@.len(),
            self@.dom().finite(),
            self@.dom() == self.key_seq().to_set(),
            self.key_seq().no_duplicates(),
    {
        proof {
            use_type_invariant(self);
            self.lemma_domain();
        }
        self.entries.len()
    }

    /// The position of `k` in the enumeration order, if it is a key.
    pub fn find(&self, k: &String) -> (r: Option<usize>)
        ensures
            match r {
                Some(i) => i < self.key_seq().len() && self.key_seq()[i as int] == k@,
                None => !self@.contains_key(k@),
            },
    {
        let mut i: usize = 0;
        while i < self.entries.len()
            invariant
                i <= self.entries@.len(),
                forall|j: int| 0 <= j < i ==> self.key_seq()[j] != k@,
            decreases self.entries@.len() - i,
        {
            if self.entries[i].0 == *k {
                return Some(i);
            }
            i = i + 1;
        }
        None
    }

    /// Whether `k` is a key.
    pub fn contains_key(&self, k: &String) -> (b: bool)
        ensures
            b == self@.contains_key(k@),
    {
        match self.find(k) {
            Some(i) => {
                assert(self.key_seq().contains(k@)) by {
                    assert(self.key_seq()[i as int] == k@);
                }
                true
            },
            None => false,
        }
    }

    /// The value of `k`, if it is a key.
    pub fn get(&self, k: &String) -> (r: Option<&V>)
        ensures
            match r {
                Some(v) => self@.contains_key(k@) && *v == self@[k@],
                None => !self@.contains_key(k@),
            },
    {
        proof {
            use_type_invariant(self);
        }
        match self.find(k) {
            Some(i) => {
                proof {
                    self.lemma_position(i as int);
                }
                Some(&self.entries[i].1)
            },
            None => None,
        }
    }

    /// The key at position `i` of the enumeration order.
    pub fn key_at(&self, i: usize) -> (k: &String)
        requires
            i < self.key_seq().len(),
        ensures
            k@ == self.key_seq()[i as int],
    {
        &self.entries[i].0
    }

    /// The value at position `i` of the enumeration order.
    pub fn value_at(&self, i: usize) -> (v: &V)
        requires
            i < self.key_seq().len(),
        ensures
            self@.contains_key(self.key_seq()[i as int]),
            *v == self@[self.key_seq()[i as int]],
    {
        proof {
            use_type_invariant(self);
            self.lemma_position(i as int);
        }
        &self.entries[i].1
    }

    /// Sets the value of `k` to `v`. A new key goes to the end of the
    /// enumeration order; an existing key keeps its place. Returns the value
    /// that `k` had before, if any.
    pub fn insert(&mut self, k: String, v: V) -> (r: Option<V>)
        ensures
            final(self)@ == old(self)@.insert(k@, v),
            match r {
                Some(w) => old(self)@.contains_key(k@) && w == old(self)@[k@],
                None => !old(self)@.contains_key(k@),
            },
            final(self).key_seq() == insert_order(old(self).key_seq(), k@),
    {
        proof {
            use_type_invariant(&*self);
        }
        let ghost kv = k@;
        match self.find(&k) {
            Some(i) => {
                proof {
                    old(self).lemma_position(i as int);
                }
                let mut slot = (k, v);
                proof {
                    assert(keys_of(self.entries@.update(i as int, slot)) =~= keys_of(self.entries@));
                }
                let mut es: Vec<(String, V)> = Vec::new();
                std::mem::swap(&mut es, &mut self.entries);
                es.set_and_swap(i, &mut slot);
                self.entries = es;
                proof {
                    assert(self.key_seq() =~= old(self).key_seq());
                    assert(self.value_seq() =~= old(self).value_seq().update(i as int, v));
                    assert forall|kk: Seq<char>| self@.contains_key(kk) implies self@[kk]
                        == old(self)@.insert(kv, v)[kk] by {
                        let j = self.key_seq().index_of(kk);
                        self.lemma_position(j);
                        old(self).lemma_position(j);
                    }
                    assert(self@ =~= old(self)@.insert(kv, v));
                }
                Some(slot.1)
            },
            None => {
                proof {
                    assert(keys_of(self.entries@.push((k, v))) =~= self.key_seq().push(kv));
                    assert(!self.key_seq().contains(kv));
                }
                let mut es: Vec<(String, V)> = Vec::new();
                std::mem::swap(&mut es, &mut self.entries);
                es.push((k, v));
                self.entries = es;
                proof {
                    assert(self.key_seq() =~= old(self).key_seq().push(kv));
                    assert(self.value_seq() =~= old(self).value_seq().push(v));
                    assert forall|kk: Seq<char>| self@.contains_key(kk) implies self@[kk]
                        == old(self)@.insert(kv, v)[kk] by {
                        let j = self.key_seq().index_of(kk);
                        self.lemma_position(j);
                        if kk != kv {
                            old(self).lemma_position(j);
                        }
                    }
                    assert forall|kk: Seq<char>| old(self)@.insert(kv, v).contains_key(kk) implies self@.contains_key(kk) by {
                        if kk != kv {
                            let j = old(self).key_seq().index_of(kk);
                            assert(self.key_seq()[j] == kk);
                        } else {
                            assert(self.key_seq()[self.key_seq().len() - 1] == kk);
                        }
                    }
                    assert(self@ =~= old(self)@.insert(kv, v));
                }
                None
            },
        }
    }

    /// Removes the key at position `i` of the enumeration order; the other
    /// keys keep their relative order. Returns the key and its value.
    pub fn remove_at(&mut self, i: usize) -> (r: (String, V))
        requires
            i < old(self).key_seq().len(),
        ensures
            r.0@ == old(self).key_seq()[i as int],
            old(self)@.contains_key(r.0@),
            r.1 == old(self)@[r.0@],
            final(self)@ == old(self)@.remove(r.0@),
            final(self).key_seq() == old(self).key_seq().remove(i as int),
    {
        proof {
            use_type_invariant(&*self);
            old(self).lemma_position(i as int);
            lemma_remove_keeps_distinct(self.key_seq(), i as int);
            assert(keys_of(self.entries@.remove(i as int)) =~= self.key_seq().remove(i as int));
        }
        let ghost k = old(self).key_seq()[i as int];
        let mut es: Vec<(String, V)> = Vec::new();
        std::mem::swap(&mut es, &mut self.entries);
        let e = es.remove(i);
        self.entries = es;
        proof {
            let ks = old(self).key_seq();
            assert(self.key_seq() =~= ks.remove(i as int));
            assert(self.value_seq() =~= old(self).value_seq().remove(i as int));
            assert forall|kk: Seq<char>| self@.contains_key(kk) implies old(self)@.remove(k).contains_key(kk)
                && self@[kk] == old(self)@.remove(k)[kk] by {
                let j = self.key_seq().index_of(kk);
                self.lemma_position(j);
                let j2 = if j < i { j } else { j + 1 };
                old(self).lemma_position(j2);
            }
            assert forall|kk: Seq<char>| old(self)@.remove(k).contains_key(kk) implies self@.contains_key(kk) by {
                let j = ks.index_of(kk);
                old(self).lemma_position(j);
                let j2 = if j < i { j } else { j - 1 };
                assert(self.key_seq()[j2] == kk);
            }
            assert(self@ =~= old(self)@.remove(k));
        }
        e
    }

    /// Removes `k`; the other keys keep their relative order. Returns the value
    /// that `k` had, if it was a key.
    pub fn remove(&mut self, k: &String) -> (r: Option<V>)
        ensures
            final(self)@ == old(self)@.remove(k@),
            match r {
                Some(w) => old(self)@.contains_key(k@) && w == old(self)@[k@],
                None => !old(self)@.contains_key(k@),
            },
            final(self).key_seq() == remove_order(old(self).key_seq(), k@),
    {
        proof {
            use_type_invariant(&*self);
        }
        match self.find(k) {
            Some(i) => {
                proof {
                    old(self).lemma_position(i as int);
                }
                let e = self.remove_at(i);
                Some(e.1)
            },
            None => {
                proof {
                    assert(self@ =~= old(self)@.remove(k@));
                }
                None
            },
        }
    }

    /// Copies of the keys, in enumeration order.
    pub fn keys(&self) -> (ks: Vec<String>)
        ensures
            ks@.len() == self.key_seq().len(),
            forall|i: int| 0 <= i < ks@.len() ==> #[trigger] ks@[i]@ == self.key_seq()[i],
    {
        let mut ks: Vec<String> = Vec::new();
        let mut i: usize = 0;
        while i < self.entries.len()
            invariant
                i <= self.entries@.len(),
                ks@.len() == i,
                forall|j: int| 0 <= j < i ==> #[trigger] ks@[j]@ == self.key_seq()[j],
            decreases self.entries@.len() - i,
        {
            ks.push(self.entries[i].0.clone());
            i = i + 1;
        }
        ks
    }
}

} // verus!
