//! A small map from alias to value that remembers the order of insertion.
//!
//! Aliases are few, so the entries live in a vector that is searched from the
//! front. No alias occurs twice: that is the type's invariant, kept by every
//! operation.

use vstd::prelude::*;
use crate::text::same;
use crate::text::views;

verus! {

/// A map from alias to `V` that keeps the order of insertion.
#[derive(Debug)]
pub struct AliasMap<V> {
    entries: Vec<(String, V)>,
}

impl<V> View for AliasMap<V> {
    type V = Map<Seq<char>, V>;

    /// The map from each alias to its value.
    closed spec fn view(&self) -> Map<Seq<char>, V> {
        Map::new(
            |k: Seq<char>| self.keys().contains(k),
            |k: Seq<char>| self.entries@[self.keys().index_of(k)].1,
        )
    }
}

impl<V> AliasMap<V> {
    #[verifier::type_invariant]
    spec fn distinct(self) -> bool {
        self.keys().no_duplicates()
    }

    /// The aliases, in the order in which they were first inserted.
    pub closed spec fn keys(self) -> Seq<Seq<char>> {
        Seq::new(self.entries@.len(), |i: int| self.entries@[i].0@)
    }

    /// What ties `keys` to the view: no alias twice, and the aliases are the
    /// view's domain.
    pub open spec fn coherent(self) -> bool {
        &&& self.keys().no_duplicates()
        &&& forall|k: Seq<char>| self@.dom().contains(k) <==> self.keys().contains(k)
    }

    proof fn lemma_lookup(self, i: int)
        requires
            self.keys().no_duplicates(),
            0 <= i < self.entries@.len(),
        ensures
            self@.dom().contains(self.keys()[i]),
            self@[self.keys()[i]] == self.entries@[i].1,
    {
        let k = self.keys()[i];
        assert(self.keys().contains(k));
        let j = self.keys().index_of(k);
        assert(self.keys()[j] == k);
        assert(j == i);
    }

    /// The empty map.
    pub fn new() -> (m: Self)
        ensures
            m@ == Map::<Seq<char>, V>::empty(),
            m.keys() == Seq::<Seq<char>>::empty(),
            m.coherent(),
    {
        let m = AliasMap { entries: Vec::new() };
        assert(m.keys() =~= Seq::<Seq<char>>::empty());
        assert(m@ =~= Map::<Seq<char>, V>::empty());
        m
    }

    /// States the invariant for a caller: it costs nothing at run time.
    pub fn know_coherent(&self)
        ensures
            self.coherent(),
    {
        proof {
            use_type_invariant(self);
        }
    }

    /// The number of aliases.
    pub fn len(&self) -> (n: usize)
        ensures
            n == self.keys().len(),
    {
        self.entries.len()
    }

    /// Whether the map holds no alias.
    pub fn is_empty(&self) -> (b: bool)
        ensures
            b == (self.keys().len() == 0),
            b == (self@ == Map::<Seq<char>, V>::empty()),
    {
        proof {
            use_type_invariant(self);
            if self.entries@.len() == 0 {
                assert(self@ =~= Map::<Seq<char>, V>::empty());
            } else {
                self.lemma_lookup(0);
            }
        }
        self.entries.len() == 0
    }

    /// The position of `key` among the aliases, if it is one of them.
    pub fn position(&self, key: &str) -> (r: Option<usize>)
        ensures
            self.coherent(),
            match r {
                Some(i) => i < self.keys().len() && self.keys()[i as int] == key@,
                None => !self.keys().contains(key@),
            },
    {
        proof {
            use_type_invariant(self);
        }
        let mut i: usize = 0;
        while i < self.entries.len()
            invariant
                i <= self.entries.len(),
                self.coherent(),
                forall|j: int| 0 <= j < i ==> self.keys()[j] != key@,
            decreases self.entries.len() - i,
        {
            if same(self.entries[i].0.as_str(), key) {
                return Some(i);
            }
            i += 1;
        }
        None
    }

    /// Whether `key` is bound.
    pub fn contains_key(&self, key: &str) -> (b: bool)
        ensures
            b == self@.dom().contains(key@),
    {
        self.position(key).is_some()
    }

    /// The value of `key`, if it is bound.
    pub fn get(&self, key: &str) -> (r: Option<&V>)
        ensures
            match r {
                Some(v) => self@.dom().contains(key@) && *v == self@[key@],
                None => !self@.dom().contains(key@),
            },
    {
        match self.position(key) {
            Some(i) => {
                proof {
                    self.lemma_lookup(i as int);
                }
                Some(&self.entries[i].1)
            },
            None => None,
        }
    }

    /// The alias at position `i`.
    pub fn key_at(&self, i: usize) -> (k: &String)
        requires
            i < self.keys().len(),
        ensures
            k@ == self.keys()[i as int],
            self@.dom().contains(k@),
    {
        proof {
            use_type_invariant(self);
            self.lemma_lookup(i as int);
        }
        &self.entries[i].0
    }

    /// The value at position `i`.
    pub fn value_at(&self, i: usize) -> (v: &V)
        requires
            i < self.keys().len(),
        ensures
            self@.dom().contains(self.keys()[i as int]),
            *v == self@[self.keys()[i as int]],
    {
        proof {
            use_type_invariant(self);
            self.lemma_lookup(i as int);
        }
        &self.entries[i].1
    }

    /// Binds `key` to `value`. A new alias goes to the end; one that is
    /// already there keeps its place and has its value replaced.
    pub fn insert(&mut self, key: String, value: V) -> (replaced: bool)
        ensures
            replaced == old(self)@.dom().contains(key@),
            final(self)@ == old(self)@.insert(key@, value),
            final(self).keys() == if replaced {
                old(self).keys()
            } else {
                old(self).keys().push(key@)
            },
            final(self).coherent(),
    {
        proof {
            use_type_invariant(&*self);
        }
        let ghost before = *self;
        let found = self.position(key.as_str());
        let mut taken: Vec<(String, V)> = Vec::new();
        core::mem::swap(&mut self.entries, &mut taken);
        assert(self.keys() =~= Seq::<Seq<char>>::empty());
        let replaced = match found {
            Some(i) => {
                let _ = taken.remove(i);
                taken.insert(i, (key, value));
                true
            },
            None => {
                taken.push((key, value));
                false
            },
        };
        let ghost after = AliasMap { entries: taken };
        proof {
            if replaced {
                assert(after.keys() =~= before.keys());
            } else {
                assert(after.keys() =~= before.keys().push(key@));
            }
            assert(after.keys().no_duplicates());
            assert forall|k: Seq<char>| after@.dom().contains(k) <==> before@.insert(
                key@,
                value,
            ).dom().contains(k) by {
                if before.keys().contains(k) {
                    let j = before.keys().index_of(k);
                    assert(after.keys()[j] == k);
                }
                if k == key@ {
                    match found {
                        Some(i) => {
                            assert(after.keys()[i as int] == k);
                        },
                        None => {
                            assert(after.keys()[before.keys().len() as int] == k);
                        },
                    }
                }
                if after.keys().contains(k) {
                    let j = after.keys().index_of(k);
                    if j < before.keys().len() {
                        assert(before.keys()[j] == k);
                    }
                }
            }
            assert forall|k: Seq<char>| after@.dom().contains(k) implies after@[k] == before@.insert(
                key@,
                value,
            )[k] by {
                let j = after.keys().index_of(k);
                after.lemma_lookup(j);
                if k != key@ {
                    assert(before.keys()[j] == k);
                    before.lemma_lookup(j);
                }
            }
            assert(after@ =~= before@.insert(key@, value));
        }
        self.entries = taken;
        replaced
    }

    /// Unbinds `key`, and says whether it was bound.
    pub fn remove(&mut self, key: &str) -> (removed: bool)
        ensures
            removed == old(self)@.dom().contains(key@),
            final(self)@ == old(self)@.remove(key@),
            final(self).keys() == without(old(self).keys(), key@),
            final(self).coherent(),
    {
        proof {
            use_type_invariant(&*self);
        }
        let ghost before = *self;
        let found = self.position(key);
        match found {
            Some(i) => {
                let mut taken: Vec<(String, V)> = Vec::new();
                core::mem::swap(&mut self.entries, &mut taken);
                assert(self.keys() =~= Seq::<Seq<char>>::empty());
                let _ = taken.remove(i);
                let ghost after = AliasMap { entries: taken };
                proof {
                    assert(after.keys() =~= before.keys().remove(i as int));
                    lemma_without_unique(before.keys(), i as int);
                    assert(after.keys().no_duplicates());
                    assert forall|k: Seq<char>| after@.dom().contains(k) <==> before@.remove(
                        key@,
                    ).dom().contains(k) by {
                        if after.keys().contains(k) {
                            let j = after.keys().index_of(k);
                            if j < i {
                                assert(before.keys()[j] == k);
                            } else {
                                assert(before.keys()[j + 1] == k);
                            }
                        }
                        if before.keys().contains(k) && k != key@ {
                            let j = before.keys().index_of(k);
                            if j < i {
                                assert(after.keys()[j] == k);
                            } else {
                                assert(after.keys()[j - 1] == k);
                            }
                        }
                    }
                    assert forall|k: Seq<char>| after@.dom().contains(k) implies after@[k]
                        == before@.remove(key@)[k] by {
                        let j = after.keys().index_of(k);
                        after.lemma_lookup(j);
                        if j < i {
                            assert(before.keys()[j] == k);
                            before.lemma_lookup(j);
                        } else {
                            assert(before.keys()[j + 1] == k);
                            before.lemma_lookup(j + 1);
                        }
                    }
                    assert(after@ =~= before@.remove(key@));
                }
                self.entries = taken;
                true
            },
            None => {
                proof {
                    lemma_without_absent(before.keys(), key@);
                    assert(before@ =~= before@.remove(key@));
                }
                false
            },
        }
    }

    /// The aliases as owned strings, in order.
    pub fn keys_vec(&self) -> (out: Vec<String>)
        ensures
            views(out@) == self.keys(),
            self.coherent(),
    {
        proof {
            use_type_invariant(self);
        }
        let mut out: Vec<String> = Vec::new();
        let mut i: usize = 0;
        while i < self.entries.len()
            invariant
                i <= self.entries.len(),
                views(out@) == self.keys().take(i as int),
            decreases self.entries.len() - i,
        {
            let k = self.entries[i].0.clone();
            assert(k@ == self.keys()[i as int]);
            let ghost prev = out@;
            out.push(k);
            assert(views(out@) =~= views(prev).push(k@));
            assert(self.keys().take(i + 1) =~= self.keys().take(i as int).push(self.keys()[i as int]));
            i += 1;
        }
        assert(self.keys().take(self.entries.len() as int) == self.keys());
        out
    }
}

impl AliasMap<String> {
    /// The map from each alias to the text of its value.
    pub open spec fn text(self) -> Map<Seq<char>, Seq<char>> {
        Map::new(|k: Seq<char>| self@.dom().contains(k), |k: Seq<char>| self@[k]@)
    }

    /// Whether `key` is bound.
    pub fn has_text(&self, key: &str) -> (b: bool)
        ensures
            b == self.text().dom().contains(key@),
    {
        self.contains_key(key)
    }

    /// Whether the map holds no alias.
    pub fn is_empty_text(&self) -> (b: bool)
        ensures
            b == (self.text() == Map::<Seq<char>, Seq<char>>::empty()),
            b == (self.keys().len() == 0),
    {
        let b = self.is_empty();
        proof {
            if b {
                assert(self.text() =~= Map::<Seq<char>, Seq<char>>::empty());
            } else {
                self.know_nonempty();
            }
        }
        b
    }

    proof fn know_nonempty(self)
        requires
            self@ != Map::<Seq<char>, String>::empty(),
        ensures
            self.text() != Map::<Seq<char>, Seq<char>>::empty(),
    {
        if self.text() == Map::<Seq<char>, Seq<char>>::empty() {
            assert(self@.dom() =~= self.text().dom());
            assert(self@ =~= Map::<Seq<char>, String>::empty());
        }
    }

    /// The value of `key`, if it is bound.
    pub fn get_text(&self, key: &str) -> (r: Option<&String>)
        ensures
            match r {
                Some(v) => self.text().dom().contains(key@) && v@ == self.text()[key@],
                None => !self.text().dom().contains(key@),
            },
    {
        self.get(key)
    }

    /// The text of the value at position `i`.
    pub fn text_at(&self, i: usize) -> (v: &String)
        requires
            i < self.keys().len(),
        ensures
            self.text().dom().contains(self.keys()[i as int]),
            v@ == self.text()[self.keys()[i as int]],
    {
        self.value_at(i)
    }

    /// Binds `key` to a copy of `value`, as `insert` does.
    pub fn insert_text(&mut self, key: &str, value: &str) -> (replaced: bool)
        ensures
            replaced == old(self).text().dom().contains(key@),
            final(self).text() == old(self).text().insert(key@, value@),
            final(self).keys() == if replaced {
                old(self).keys()
            } else {
                old(self).keys().push(key@)
            },
            final(self).coherent(),
    {
        let ghost before = *self;
        let replaced = self.insert(crate::text::copy_str(key), crate::text::copy_str(value));
        assert(self.text() =~= before.text().insert(key@, value@));
        replaced
    }

    /// Unbinds `key`, as `remove` does.
    pub fn remove_text(&mut self, key: &str) -> (removed: bool)
        ensures
            removed == old(self).text().dom().contains(key@),
            final(self).text() == old(self).text().remove(key@),
            final(self).keys() == without(old(self).keys(), key@),
            final(self).coherent(),
    {
        let ghost before = *self;
        let removed = self.remove(key);
        assert(self.text() =~= before.text().remove(key@));
        removed
    }
}

/// `s` without every occurrence of `x`.
pub open spec fn without(s: Seq<Seq<char>>, x: Seq<char>) -> Seq<Seq<char>>
    decreases s.len(),
{
    if s.len() == 0 {
        s
    } else if s.last() == x {
        without(s.drop_last(), x)
    } else {
        without(s.drop_last(), x).push(s.last())
    }
}

/// Taking the one occurrence of a value out of a duplicate-free sequence is
/// removing it at its index.
pub proof fn lemma_without_unique(s: Seq<Seq<char>>, i: int)
    requires
        s.no_duplicates(),
        0 <= i < s.len(),
    ensures
        without(s, s[i]) == s.remove(i),
    decreases s.len(),
{
    let t = s.drop_last();
    if i == s.len() - 1 {
        assert(!t.contains(s[i])) by {
            if t.contains(s[i]) {
                let j = t.index_of(s[i]);
                assert(s[j] == s[i]);
            }
        }
        lemma_without_absent(t, s[i]);
        assert(s.remove(i) =~= t);
    } else {
        assert(t[i] == s[i]);
        lemma_without_unique(t, i);
        assert(s.last() == s[s.len() - 1]);
        assert(s.remove(i) =~= t.remove(i).push(s.last()));
    }
}

/// Taking a value out of a sequence that does not hold it changes nothing.
pub proof fn lemma_without_absent(s: Seq<Seq<char>>, x: Seq<char>)
    requires
        !s.contains(x),
    ensures
        without(s, x) == s,
    decreases s.len(),
{
    if s.len() > 0 {
        let t = s.drop_last();
        assert(!t.contains(x)) by {
            if t.contains(x) {
                let j = t.index_of(x);
                assert(s[j] == x);
            }
        }
        lemma_without_absent(t, x);
        assert(s.last() == s[s.len() - 1]);
        assert(t.push(s.last()) =~= s);
    }
}

/// What `without` leaves: the values other than `x`, each as often as before
/// and in the old order.
pub proof fn lemma_without_contains(s: Seq<Seq<char>>, x: Seq<char>)
    ensures
        !without(s, x).contains(x),
        forall|k: Seq<char>| k != x ==> (without(s, x).contains(k) <==> s.contains(k)),
        without(s, x).len() <= s.len(),
        s.no_duplicates() ==> without(s, x).no_duplicates(),
    decreases s.len(),
{
    if s.len() > 0 {
        let t = s.drop_last();
        let w = without(t, x);
        lemma_without_contains(t, x);
        assert(s =~= t.push(s.last()));
        let r = without(s, x);
        assert forall|k: Seq<char>| k != x implies (r.contains(k) <==> s.contains(k)) by {
            assert(w.contains(k) <==> t.contains(k));
            if s.contains(k) {
                let j = s.index_of(k);
                if j < t.len() {
                    assert(t[j] == k);
                    assert(t.contains(k));
                    let m = w.index_of(k);
                    assert(w[m] == k);
                    assert(r[m] == k);
                } else {
                    assert(s.last() == k);
                    assert(r == w.push(k));
                    assert(r[w.len() as int] == k);
                }
            }
            if r.contains(k) {
                let j = r.index_of(k);
                assert(r[j] == k);
                if j < w.len() {
                    assert(w[j] == k);
                    assert(w.contains(k));
                    assert(t.contains(k));
                    let m = t.index_of(k);
                    assert(t[m] == k);
                    assert(s[m] == k);
                } else {
                    assert(s[s.len() - 1] == k);
                }
            }
        }
        if without(s, x).contains(x) {
            let j = without(s, x).index_of(x);
            if j < w.len() {
                assert(w[j] == x);
            }
        }
        if s.no_duplicates() {
            assert(t.no_duplicates());
            if s.last() != x {
                assert(!w.contains(s.last())) by {
                    if w.contains(s.last()) {
                        assert(t.contains(s.last()));
                        let m = t.index_of(s.last());
                        assert(s[m] == s[s.len() - 1]);
                    }
                }
            }
        }
    }
}

} // verus!
