//! A small table keyed by name, used for port tables, wiring tables and
//! variable tables. Keys are unique; the order of insertion is kept but
//! carries no meaning for any of the operations.

use vstd::prelude::*;

verus! {

/// The keys of a pair sequence, in storage order.
pub open spec fn keys_of<V>(pairs: Seq<(String, V)>) -> Seq<Seq<char>> {
    pairs.map_values(|p: (String, V)| p.0@)
}

#[derive(Debug)]
pub struct StrMap<V> {
    pairs: Vec<(String, V)>,
}

impl<V> StrMap<V> {
    /// The keys, in storage order.
    pub closed spec fn key_seq(&self) -> Seq<Seq<char>> {
        keys_of(self.pairs@)
    }

    pub open spec fn spec_len(&self) -> nat {
        self.key_seq().len()
    }

    pub open spec fn spec_key_at(&self, i: int) -> Seq<char> {
        self.key_seq()[i]
    }

    pub closed spec fn spec_val_at(&self, i: int) -> V {
        self.pairs@[i].1
    }

    pub open spec fn contains_key(&self, k: Seq<char>) -> bool {
        exists|i: int| 0 <= i < self.spec_len() && self.spec_key_at(i) == k
    }

    pub open spec fn index_of(&self, k: Seq<char>) -> int {
        choose|i: int| 0 <= i < self.spec_len() && self.spec_key_at(i) == k
    }

    pub open spec fn spec_get(&self, k: Seq<char>) -> Option<V> {
        if self.contains_key(k) {
            Some(self.spec_val_at(self.index_of(k)))
        } else {
            None
        }
    }

    /// Two tables hold the same key set.
    pub open spec fn same_keys(&self, other: &StrMap<V>) -> bool {
        forall|k: Seq<char>| self.contains_key(k) <==> other.contains_key(k)
    }

    /// Keys are unique. Every table satisfies this; exec code learns it
    /// through `use_type_invariant`.
    #[verifier::type_invariant]
    pub closed spec fn wf(&self) -> bool {
        forall|i: int, j: int|
            0 <= i < j < keys_of(self.pairs@).len() ==> keys_of(self.pairs@)[i] != keys_of(
                self.pairs@,
            )[j]
    }

    proof fn lemma_found_at(&self, i: int)
        requires
            self.wf(),
            0 <= i < self.spec_len(),
        ensures
            self.contains_key(self.spec_key_at(i)),
            self.index_of(self.spec_key_at(i)) == i,
            self.spec_get(self.spec_key_at(i)) == Some(self.spec_val_at(i)),
    {
        let k = self.spec_key_at(i);
        assert(self.contains_key(k));
        let j = self.index_of(k);
        assert(0 <= j < self.spec_len() && self.spec_key_at(j) == k);
        if i < j {
            assert(self.key_seq()[i] != self.key_seq()[j]);
        } else if j < i {
            assert(self.key_seq()[j] != self.key_seq()[i]);
        }
    }

    /// A key found at a position is the key the table answers for.
    pub proof fn lemma_at_get(&self, i: int)
        requires
            self.wf(),
            0 <= i < self.spec_len(),
        ensures
            self.spec_get(self.spec_key_at(i)) == Some(self.spec_val_at(i)),
            self.index_of(self.spec_key_at(i)) == i,
    {
        self.lemma_found_at(i);
    }

    /// No key appears at two positions.
    pub proof fn lemma_keys_unique(&self)
        requires
            self.wf(),
        ensures
            forall|i: int, j: int|
                0 <= i < j < self.spec_len() ==> self.spec_key_at(i) != self.spec_key_at(j),
    {
    }

    pub fn new() -> (r: Self)
        ensures
            r.spec_len() == 0,
    {
        StrMap { pairs: Vec::new() }
    }

    pub fn len(&self) -> (n: usize)
        ensures
            n == self.spec_len(),
    {
        self.pairs.len()
    }

    /// The position of a key, if it is present.
    pub fn find(&self, k: &String) -> (r: Option<usize>)
        ensures
            match r {
                Some(i) => i < self.spec_len() && self.spec_key_at(i as int) == k@
                    && self.spec_get(k@) == Some(self.spec_val_at(i as int)) && self.index_of(k@)
                    == i,
                None => !self.contains_key(k@),
            },
    {
        proof {
            use_type_invariant(self);
        }
        let n = self.pairs.len();
        let mut i: usize = 0;
        while i < n
            invariant
                n == self.spec_len(),
                i <= n,
                forall|j: int| 0 <= j < i ==> self.spec_key_at(j) != k@,
            decreases n - i,
        {
            if self.pairs[i].0 == *k {
                proof {
                    use_type_invariant(self);
                    self.lemma_found_at(i as int);
                }
                return Some(i);
            }
            i = i + 1;
        }
        None
    }

    pub fn contains(&self, k: &String) -> (r: bool)
        ensures
            r == self.contains_key(k@),
    {
        self.find(k).is_some()
    }

    pub fn get<'a>(&'a self, k: &String) -> (r: Option<&'a V>)
        ensures
            match r {
                Some(v) => self.spec_get(k@) == Some(*v),
                None => self.spec_get(k@) is None && !self.contains_key(k@),
            },
    {
        match self.find(k) {
            Some(i) => Some(&self.pairs[i].1),
            None => None,
        }
    }

    pub fn insert(&mut self, k: String, v: V)
        ensures
            final(self).spec_get(k@) == Some(v),
            final(self).contains_key(k@),
            forall|k2: Seq<char>| k2 != k@ ==> final(self).spec_get(k2) == old(self).spec_get(k2),
            forall|k2: Seq<char>| k2 != k@ ==> (final(self).contains_key(k2) <==> old(
                self,
            ).contains_key(k2)),
            old(self).contains_key(k@) ==> final(self).key_seq() == old(self).key_seq(),
            !old(self).contains_key(k@) ==> final(self).key_seq() == old(self).key_seq().push(k@),
            forall|j: int|
                #![trigger final(self).spec_val_at(j)]
                0 <= j < old(self).spec_len() && old(self).spec_key_at(j) != k@
                    ==> final(self).spec_val_at(j) == old(self).spec_val_at(j),
            !old(self).contains_key(k@) ==> final(self).spec_val_at(old(self).spec_len() as int)
                == v,
    {
        proof {
            use_type_invariant(&*self);
        }
        let found = self.find(&k);
        let mut tmp = StrMap { pairs: Vec::new() };
        core::mem::swap(self, &mut tmp);
        let StrMap { pairs: mut taken } = tmp;
        match found {
            Some(i) => {
                taken[i] = (k, v);
                proof {
                    assert(keys_of(taken@) =~= old(self).key_seq());
                }
                self.pairs = taken;
                proof {
                    assert(self.key_seq() =~= old(self).key_seq());
                    self.lemma_found_at(i as int);
                    assert forall|k2: Seq<char>| k2 != k@ implies self.spec_get(k2) == old(
                        self,
                    ).spec_get(k2) && (self.contains_key(k2) <==> old(self).contains_key(k2)) by {
                        if self.contains_key(k2) {
                            let j = self.index_of(k2);
                            assert(old(self).spec_key_at(j) == k2);
                            old(self).lemma_found_at(j);
                            self.lemma_found_at(j);
                        } else if old(self).contains_key(k2) {
                            let j = old(self).index_of(k2);
                            assert(self.spec_key_at(j) == k2);
                        }
                    }
                }
            },
            None => {
                taken.push((k, v));
                proof {
                    assert(keys_of(taken@) =~= old(self).key_seq().push(k@));
                    assert forall|i: int, j: int|
                        0 <= i < j < keys_of(taken@).len() implies keys_of(taken@)[i] != keys_of(
                        taken@,
                    )[j] by {
                        if j < keys_of(taken@).len() - 1 {
                            assert(old(self).key_seq()[i] != old(self).key_seq()[j]);
                        } else {
                            assert(keys_of(taken@)[j] == k@);
                            assert(old(self).spec_key_at(i) != k@);
                        }
                    }
                }
                self.pairs = taken;
                proof {
                    assert(self.key_seq() =~= old(self).key_seq().push(k@));
                    assert(self.spec_key_at(self.spec_len() - 1) == k@);
                    self.lemma_found_at(self.spec_len() - 1);
                    assert forall|k2: Seq<char>| k2 != k@ implies self.spec_get(k2) == old(
                        self,
                    ).spec_get(k2) && (self.contains_key(k2) <==> old(self).contains_key(k2)) by {
                        if self.contains_key(k2) {
                            let j = self.index_of(k2);
                            assert(j < self.spec_len() - 1);
                            assert(old(self).spec_key_at(j) == k2);
                            old(self).lemma_found_at(j);
                            self.lemma_found_at(j);
                        } else if old(self).contains_key(k2) {
                            let j = old(self).index_of(k2);
                            assert(self.spec_key_at(j) == k2);
                        }
                    }
                }
            },
        }
    }

    pub fn remove(&mut self, k: &String) -> (r: Option<V>)
        ensures
            r == old(self).spec_get(k@),
            final(self).spec_get(k@) is None,
            !final(self).contains_key(k@),
            forall|k2: Seq<char>| k2 != k@ ==> final(self).spec_get(k2) == old(self).spec_get(k2),
            forall|k2: Seq<char>| k2 != k@ ==> (final(self).contains_key(k2) <==> old(
                self,
            ).contains_key(k2)),
            !old(self).contains_key(k@) ==> *final(self) == *old(self),
            old(self).contains_key(k@) ==> final(self).spec_len() == old(self).spec_len() - 1,
    {
        proof {
            use_type_invariant(&*self);
        }
        let found = self.find(k);
        let mut tmp = StrMap { pairs: Vec::new() };
        core::mem::swap(self, &mut tmp);
        let StrMap { pairs: mut taken } = tmp;
        match found {
            Some(i) => {
                let p = taken.remove(i);
                proof {
                    assert(keys_of(taken@) =~= old(self).key_seq().remove(i as int));
                    assert forall|a: int, b: int|
                        0 <= a < b < keys_of(taken@).len() implies keys_of(taken@)[a] != keys_of(
                        taken@,
                    )[b] by {
                        let a0 = if a < i { a } else { a + 1 };
                        let b0 = if b < i { b } else { b + 1 };
                        assert(old(self).key_seq()[a0] != old(self).key_seq()[b0]);
                    }
                }
                self.pairs = taken;
                proof {
                    assert(self.key_seq() =~= old(self).key_seq().remove(i as int));
                    old(self).lemma_found_at(i as int);
                    assert forall|k2: Seq<char>| self.contains_key(k2) implies k2 != k@ by {
                        let j = self.index_of(k2);
                        let j0 = if j < i { j } else { j + 1 };
                        assert(old(self).spec_key_at(j0) == k2);
                        if k2 == k@ {
                            old(self).lemma_found_at(j0);
                        }
                    }
                    assert forall|k2: Seq<char>| k2 != k@ implies self.spec_get(k2) == old(
                        self,
                    ).spec_get(k2) && (self.contains_key(k2) <==> old(self).contains_key(k2)) by {
                        if self.contains_key(k2) {
                            let j = self.index_of(k2);
                            let j0 = if j < i { j } else { j + 1 };
                            assert(old(self).spec_key_at(j0) == k2);
                            old(self).lemma_found_at(j0);
                            self.lemma_found_at(j);
                        } else if old(self).contains_key(k2) {
                            let j0 = old(self).index_of(k2);
                            assert(j0 != i);
                            let j = if j0 < i { j0 } else { j0 - 1 };
                            assert(self.spec_key_at(j) == k2);
                        }
                    }
                }
                Some(p.1)
            },
            None => {
                self.pairs = taken;
                None
            },
        }
    }

    pub fn key_at<'a>(&'a self, i: usize) -> (r: &'a String)
        requires
            i < self.spec_len(),
        ensures
            r@ == self.spec_key_at(i as int),
    {
        &self.pairs[i].0
    }

    pub fn val_at<'a>(&'a self, i: usize) -> (r: &'a V)
        requires
            i < self.spec_len(),
        ensures
            *r == self.spec_val_at(i as int),
            self.spec_get(self.spec_key_at(i as int)) == Some(*r),
    {
        proof {
            use_type_invariant(self);
            self.lemma_found_at(i as int);
        }
        &self.pairs[i].1
    }

    pub fn set_val_at(&mut self, i: usize, v: V)
        requires
            i < old(self).spec_len(),
        ensures
            final(self).key_seq() == old(self).key_seq(),
            final(self).spec_val_at(i as int) == v,
            forall|j: int|
                0 <= j < old(self).spec_len() && j != i ==> final(self).spec_val_at(j) == old(
                    self,
                ).spec_val_at(j),
            final(self).spec_get(old(self).spec_key_at(i as int)) == Some(v),
            forall|k2: Seq<char>|
                k2 != old(self).spec_key_at(i as int) ==> final(self).spec_get(k2) == old(
                    self,
                ).spec_get(k2),
    {
        proof {
            use_type_invariant(&*self);
        }
        let k = self.pairs[i].0.clone();
        let mut tmp = StrMap { pairs: Vec::new() };
        core::mem::swap(self, &mut tmp);
        let StrMap { pairs: mut taken } = tmp;
        taken[i] = (k, v);
        proof {
            assert(keys_of(taken@) =~= old(self).key_seq());
        }
        self.pairs = taken;
        proof {
            assert(self.key_seq() =~= old(self).key_seq());
            self.lemma_found_at(i as int);
            assert forall|k2: Seq<char>|
                k2 != old(self).spec_key_at(i as int) implies self.spec_get(k2) == old(
                self,
            ).spec_get(k2) by {
                if self.contains_key(k2) {
                    let j = self.index_of(k2);
                    assert(old(self).spec_key_at(j) == k2);
                    old(self).lemma_found_at(j);
                    self.lemma_found_at(j);
                    assert(j != i);
                } else if old(self).contains_key(k2) {
                    let j = old(self).index_of(k2);
                    assert(self.spec_key_at(j) == k2);
                }
            }
        }
    }

    /// Appends a binding whose key is known to be new.
    pub fn push_pair(&mut self, k: String, v: V)
        requires
            !old(self).contains_key(k@),
        ensures
            final(self).key_seq() == old(self).key_seq().push(k@),
            final(self).spec_len() == old(self).spec_len() + 1,
            forall|j: int|
                #![trigger final(self).spec_val_at(j)]
                0 <= j < old(self).spec_len() ==> final(self).spec_val_at(j) == old(
                    self,
                ).spec_val_at(j),
            final(self).spec_val_at(old(self).spec_len() as int) == v,
            final(self).spec_get(k@) == Some(v),
            forall|k2: Seq<char>| k2 != k@ ==> final(self).spec_get(k2) == old(self).spec_get(k2),
    {
        proof {
            assert forall|j: int| 0 <= j < old(self).spec_len() implies old(self).spec_key_at(j)
                != k@ by {
                if old(self).spec_key_at(j) == k@ {
                    assert(old(self).contains_key(k@));
                }
            }
        }
        self.insert(k, v);
    }

    /// Tables with the same keys and the same value at each position answer
    /// every lookup alike.
    pub proof fn lemma_equal_views(&self, other: &StrMap<V>)
        requires
            self.wf(),
            other.wf(),
            self.key_seq() == other.key_seq(),
            forall|i: int| 0 <= i < self.spec_len() ==> self.spec_val_at(i) == other.spec_val_at(i),
        ensures
            forall|k: Seq<char>| self.spec_get(k) == other.spec_get(k),
            forall|k: Seq<char>| self.contains_key(k) <==> other.contains_key(k),
    {
        assert forall|k: Seq<char>|
            self.spec_get(k) == other.spec_get(k) && (self.contains_key(k)
                <==> other.contains_key(k)) by {
            if self.contains_key(k) {
                let i = self.index_of(k);
                assert(other.spec_key_at(i) == k);
                self.lemma_found_at(i);
                other.lemma_found_at(i);
            } else if other.contains_key(k) {
                let i = other.index_of(k);
                assert(self.spec_key_at(i) == k);
            }
        }
    }

    /// A copy of the keys, in storage order.
    pub fn keys(&self) -> (r: Vec<String>)
        ensures
            r@.len() == self.spec_len(),
            forall|i: int| 0 <= i < r@.len() ==> r@[i]@ == self.spec_key_at(i),
    {
        let n = self.pairs.len();
        let mut r: Vec<String> = Vec::new();
        let mut i: usize = 0;
        while i < n
            invariant
                n == self.spec_len(),
                i <= n,
                r@.len() == i,
                forall|j: int| 0 <= j < i ==> r@[j]@ == self.spec_key_at(j),
            decreases n - i,
        {
            r.push(self.pairs[i].0.clone());
            i = i + 1;
        }
        r
    }
}

impl<V: Clone> Clone for StrMap<V> {
    /// Copies the table key by key; what each copied value shares with its
    /// source is whatever the value type's own `clone` promises.
    fn clone(&self) -> (r: Self)
        ensures
            r.key_seq() == self.key_seq(),
            r.spec_len() == self.spec_len(),
            forall|i: int|
                0 <= i < self.spec_len() ==> vstd::pervasive::cloned::<V>(
                    self.spec_val_at(i),
                    r.spec_val_at(i),
                ),
    {
        proof {
            use_type_invariant(self);
        }
        let n = self.pairs.len();
        let mut pairs2: Vec<(String, V)> = Vec::new();
        let mut i: usize = 0;
        while i < n
            invariant
                n == self.pairs@.len(),
                i <= n,
                pairs2@.len() == i,
                forall|j: int|
                    0 <= j < i ==> pairs2@[j].0@ == self.pairs@[j].0@ && vstd::pervasive::cloned::<
                        V,
                    >(self.pairs@[j].1, pairs2@[j].1),
            decreases n - i,
        {
            let k2 = self.pairs[i].0.clone();
            let v2 = self.pairs[i].1.clone();
            pairs2.push((k2, v2));
            i = i + 1;
        }
        proof {
            assert(keys_of(pairs2@) =~= keys_of(self.pairs@));
        }
        StrMap { pairs: pairs2 }
    }
}

} // verus!
