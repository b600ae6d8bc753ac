use vstd::prelude::*;

verus! {

/// A map from string keys to values, kept in the order in which keys were
/// first registered. Each key is stored once.
pub struct Registry<V> {
    entries: Vec<(String, V)>,
}

impl<V: View> Registry<V> {
    /// The key stored at position `i`.
    pub closed spec fn key_at(&self, i: int) -> Seq<char> {
        self.entries@[i].0@
    }

    /// Position `i` holds key `k`.
    pub closed spec fn holds_at(&self, k: Seq<char>, i: int) -> bool {
        0 <= i < self.entries@.len() && self.key_at(i) == k
    }

    /// The registry's invariant: each key is stored once.
    pub closed spec fn wf(&self) -> bool {
        forall|i: int, j: int|
            0 <= i < j < self.entries@.len() ==> #[trigger] self.key_at(i) != #[trigger] self.key_at(j)
    }

    /// The keys and values, in registration order.
    pub closed spec fn pairs(&self) -> Seq<(Seq<char>, V::V)> {
        self.entries@.map_values(|e: (String, V)| (e.0@, e.1@))
    }

    proof fn lemma_view_at(&self, i: int)
        requires
            self.wf(),
            0 <= i < self.entries@.len(),
        ensures
            self@.contains_key(self.key_at(i)),
            self@[self.key_at(i)] == self.entries@[i].1@,
    {
        assert(self.holds_at(self.key_at(i), i));
        let j = choose|j: int| self.holds_at(self.key_at(i), j);
        if j != i {
            if j < i {
                assert(self.key_at(j) != self.key_at(i));
            } else {
                assert(self.key_at(i) != self.key_at(j));
            }
        }
    }

    /// The keys in order are exactly the registered keys, each once.
    pub proof fn lemma_keys(&self)
        requires
            self.wf(),
        ensures
            forall|a: int, b: int|
                0 <= a < b < self.pairs().len() ==> #[trigger] self.pairs()[a].0 != #[trigger] self.pairs()[b].0,
            forall|k: Seq<char>|
                self@.contains_key(k) <==> exists|i: int| 0 <= i < self.pairs().len() && #[trigger] self.pairs()[i].0 == k,
    {
        assert forall|a: int, b: int| 0 <= a < b < self.pairs().len() implies #[trigger] self.pairs()[a].0
            != #[trigger] self.pairs()[b].0 by {
            assert(self.key_at(a) != self.key_at(b));
        }
        assert forall|k: Seq<char>| self@.contains_key(k) <==> exists|i: int|
            0 <= i < self.pairs().len() && #[trigger] self.pairs()[i].0 == k by {
            if self@.contains_key(k) {
                let j = choose|j: int| self.holds_at(k, j);
                assert(self.pairs()[j].0 == k);
            }
            if exists|i: int| 0 <= i < self.pairs().len() && #[trigger] self.pairs()[i].0 == k {
                let j = choose|j: int| 0 <= j < self.pairs().len() && #[trigger] self.pairs()[j].0 == k;
                assert(self.holds_at(k, j));
            }
        }
    }

    /// An empty registry.
    pub fn new() -> (r: Registry<V>)
        ensures
            r.wf(),
            r@ == Map::<Seq<char>, V::V>::empty(),
            r.pairs() == Seq::<(Seq<char>, V::V)>::empty(),
    {
        let r = Registry { entries: Vec::new() };
        assert(r@ =~= Map::<Seq<char>, V::V>::empty());
        assert(r.pairs() =~= Seq::<(Seq<char>, V::V)>::empty());
        r
    }

    /// The number of keys.
    pub fn len(&self) -> (r: usize)
        ensures
            r == self.pairs().len(),
    {
        self.entries.len()
    }

    /// The key at position `i`.
    pub fn key(&self, i: usize) -> (r: &String)
        requires
            i < self.pairs().len(),
        ensures
            r@ == self.pairs()[i as int].0,
    {
        &self.entries[i].0
    }

    /// The value at position `i`.
    pub fn value(&self, i: usize) -> (r: &V)
        requires
            i < self.pairs().len(),
        ensures
            r@ == self.pairs()[i as int].1,
    {
        &self.entries[i].1
    }

    /// The position of `key`, if it is registered.
    pub fn find(&self, key: &String) -> (r: Option<usize>)
        requires
            self.wf(),
        ensures
            r is None ==> !self@.contains_key(key@),
            r matches Some(i) ==> i < self.pairs().len() && self.pairs()[i as int].0 == key@
                && self@.contains_key(key@) && self@[key@] == self.pairs()[i as int].1,
    {
        let mut i: usize = 0;
        while i < self.entries.len()
            invariant
                self.wf(),
                i <= self.entries@.len(),
                forall|j: int| 0 <= j < i ==> self.key_at(j) != key@,
            decreases self.entries@.len() - i,
        {
            if self.entries[i].0 == *key {
                proof {
                    self.lemma_view_at(i as int);
                }
                return Some(i);
            }
            i = i + 1;
        }
        None
    }

    /// Replaces the value at position `i`.
    pub fn set_value(&mut self, i: usize, v: V)
        requires
            old(self).wf(),
            i < old(self).pairs().len(),
        ensures
            final(self).wf(),
            final(self)@ == old(self)@.insert(old(self).pairs()[i as int].0, v@),
            final(self).pairs() == old(self).pairs().update(i as int, (old(self).pairs()[i as int].0, v@)),
    {
        let ghost old_reg = *self;
        let k = self.entries[i].0.clone();
        self.entries.set(i, (k, v));
        let ghost new_reg = *self;
        proof {
            let ii = i as int;
            assert forall|j: int| 0 <= j < new_reg.entries@.len() implies new_reg.key_at(j) == old_reg.key_at(j) by {}
            let m = old_reg@.insert(old_reg.key_at(ii), v@);
            assert forall|q: Seq<char>| #[trigger] new_reg@.contains_key(q) == m.contains_key(q) by {
                if new_reg@.contains_key(q) {
                    let j = choose|j: int| new_reg.holds_at(q, j);
                    assert(old_reg.holds_at(q, j));
                }
                if old_reg@.contains_key(q) {
                    let j = choose|j: int| old_reg.holds_at(q, j);
                    assert(new_reg.holds_at(q, j));
                }
                if q == old_reg.key_at(ii) {
                    assert(new_reg.holds_at(q, ii));
                }
            }
            assert forall|q: Seq<char>| #[trigger] new_reg@.contains_key(q) implies new_reg@[q] == m[q] by {
                let j = choose|j: int| new_reg.holds_at(q, j);
                new_reg.lemma_view_at(j);
                if j != ii {
                    old_reg.lemma_view_at(j);
                }
            }
            assert(new_reg@ =~= m);
            assert(new_reg.pairs() =~= old_reg.pairs().update(ii, (old_reg.key_at(ii), v@)));
        }
    }

    /// Registers a new key `k` with value `v`, after every other key.
    pub fn push(&mut self, k: String, v: V)
        requires
            old(self).wf(),
            !old(self)@.contains_key(k@),
        ensures
            final(self).wf(),
            final(self)@ == old(self)@.insert(k@, v@),
            final(self).pairs() == old(self).pairs().push((k@, v@)),
    {
        let ghost old_reg = *self;
        let ghost key = k@;
        let ghost val = v@;
        self.entries.push((k, v));
        let ghost new_reg = *self;
        proof {
            let n = old_reg.entries@.len() as int;
            assert forall|j: int| 0 <= j < n implies new_reg.key_at(j) == old_reg.key_at(j) by {}
            assert forall|j: int| 0 <= j < n implies old_reg.key_at(j) != key by {
                assert(old_reg.holds_at(old_reg.key_at(j), j));
            }
            assert(new_reg.key_at(n) == key);
            let m = old_reg@.insert(key, val);
            assert forall|q: Seq<char>| #[trigger] new_reg@.contains_key(q) == m.contains_key(q) by {
                if new_reg@.contains_key(q) {
                    let j = choose|j: int| new_reg.holds_at(q, j);
                    if j < n {
                        assert(old_reg.holds_at(q, j));
                    }
                }
                if old_reg@.contains_key(q) {
                    let j = choose|j: int| old_reg.holds_at(q, j);
                    assert(new_reg.holds_at(q, j));
                }
                if q == key {
                    assert(new_reg.holds_at(q, n));
                }
            }
            assert forall|q: Seq<char>| #[trigger] new_reg@.contains_key(q) implies new_reg@[q] == m[q] by {
                let j = choose|j: int| new_reg.holds_at(q, j);
                new_reg.lemma_view_at(j);
                if j != n {
                    old_reg.lemma_view_at(j);
                }
            }
            assert(new_reg@ =~= m);
            assert(new_reg.pairs() =~= old_reg.pairs().push((key, val)));
        }
    }

    /// Unregisters the key at position `i` and hands back its value.
    pub fn remove(&mut self, i: usize) -> (r: V)
        requires
            old(self).wf(),
            i < old(self).pairs().len(),
        ensures
            final(self).wf(),
            r@ == old(self).pairs()[i as int].1,
            final(self)@ == old(self)@.remove(old(self).pairs()[i as int].0),
            final(self).pairs() == old(self).pairs().remove(i as int),
    {
        let ghost old_reg = *self;
        let (_, v) = self.entries.remove(i);
        let ghost new_reg = *self;
        proof {
            let ii = i as int;
            let n = new_reg.entries@.len() as int;
            let key = old_reg.key_at(ii);
            assert forall|j: int| 0 <= j < n implies new_reg.key_at(j) == old_reg.key_at(
                if j < ii { j } else { j + 1 },
            ) by {}
            assert forall|a: int, b: int| 0 <= a < b < n implies #[trigger] new_reg.key_at(a) != #[trigger] new_reg.key_at(b) by {
                let a1 = if a < ii { a } else { a + 1 };
                let b1 = if b < ii { b } else { b + 1 };
                assert(old_reg.key_at(a1) != old_reg.key_at(b1));
            }
            let m = old_reg@.remove(key);
            assert forall|q: Seq<char>| #[trigger] new_reg@.contains_key(q) == m.contains_key(q) by {
                if new_reg@.contains_key(q) {
                    let j = choose|j: int| new_reg.holds_at(q, j);
                    let j1 = if j < ii { j } else { j + 1 };
                    assert(old_reg.holds_at(q, j1));
                    if j >= ii {
                        assert(old_reg.key_at(ii) != old_reg.key_at(j1));
                    }
                }
                if m.contains_key(q) {
                    let j = choose|j: int| old_reg.holds_at(q, j);
                    assert(j != ii);
                    let j1 = if j < ii { j } else { j - 1 };
                    assert(new_reg.holds_at(q, j1));
                }
            }
            assert forall|q: Seq<char>| #[trigger] new_reg@.contains_key(q) implies new_reg@[q] == m[q] by {
                let j = choose|j: int| new_reg.holds_at(q, j);
                let j1 = if j < ii { j } else { j + 1 };
                new_reg.lemma_view_at(j);
                old_reg.lemma_view_at(j1);
            }
            assert(new_reg@ =~= m);
            assert(new_reg.pairs() =~= old_reg.pairs().remove(ii));
        }
        v
    }
}

impl<V: View> View for Registry<V> {
    type V = Map<Seq<char>, V::V>;

    closed spec fn view(&self) -> Map<Seq<char>, V::V> {
        Map::new(
            |k: Seq<char>| exists|i: int| self.holds_at(k, i),
            |k: Seq<char>| self.entries@[choose|i: int| self.holds_at(k, i)].1@,
        )
    }
}

} // verus!
