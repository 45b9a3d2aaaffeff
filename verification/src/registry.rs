use vstd::prelude::*;

verus! {

/// A keyed store mapping external string identifiers to entities, built
/// incrementally as records stream in.
///
/// Keys are unique within the store. Each entry also has a stable integer
/// index, assigned at first insertion and never changed afterwards, so that
/// entities which are shared by reference in the feed (services, locations)
/// can be addressed by a dense index once they are registered.
pub struct Registry<T> {
    keys: Vec<String>,
    values: Vec<T>,
}

impl<T> Registry<T> {
    /// One value per key, keys pairwise distinct.
    pub closed spec fn wf(self) -> bool {
        &&& self.keys@.len() == self.values@.len()
        &&& forall|i: int, j: int|
            0 <= i < self.keys@.len() && 0 <= j < self.keys@.len() && i != j
                ==> self.keys@[i]@ != self.keys@[j]@
    }

    pub closed spec fn len(self) -> nat {
        self.keys@.len()
    }

    /// The key stored at index `i`.
    pub closed spec fn key_at(self, i: int) -> Seq<char> {
        self.keys@[i]@
    }

    pub closed spec fn spec_contains(self, k: Seq<char>) -> bool {
        exists|i: int| 0 <= i < self.keys@.len() && #[trigger] self.keys@[i]@ == k
    }

    /// The index of the entry holding key `k` (meaningful only when the key
    /// is present).
    pub closed spec fn spec_index_of(self, k: Seq<char>) -> int {
        choose|i: int| 0 <= i < self.keys@.len() && #[trigger] self.keys@[i]@ == k
    }

    proof fn lemma_index_of(self, k: Seq<char>, i: int)
        requires
            self.wf(),
            0 <= i < self.keys@.len(),
            self.keys@[i]@ == k,
        ensures
            self.spec_contains(k),
            self.spec_index_of(k) == i,
    {
        assert(self.spec_contains(k));
        let j = choose|j: int| 0 <= j < self.keys@.len() && #[trigger] self.keys@[j]@ == k;
        if j != i {
            assert(self.keys@[i]@ != self.keys@[j]@);
        }
    }

    /// The whole store as a map from key to value.
    pub closed spec fn view(self) -> Map<Seq<char>, T> {
        Map::new(
            |k: Seq<char>| self.spec_contains(k),
            |k: Seq<char>| self.values@[self.spec_index_of(k)],
        )
    }

    pub proof fn lemma_key_at_contained(self, i: int)
        requires
            self.wf(),
            0 <= i < self.len(),
        ensures
            self@.dom().contains(self.key_at(i)),
            self.spec_index_of(self.key_at(i)) == i,
    {
        self.lemma_index_of(self.key_at(i), i);
    }

    pub fn new() -> (r: Self)
        ensures
            r.wf(),
            r@ == Map::<Seq<char>, T>::empty(),
            r.len() == 0,
    {
        let r = Registry { keys: Vec::new(), values: Vec::new() };
        proof {
            assert(r@ =~= Map::<Seq<char>, T>::empty());
        }
        r
    }

    /// The number of entries.
    pub fn size(&self) -> (r: usize)
        ensures
            r == self.len(),
    {
        self.keys.len()
    }

    /// Looks the key up; `Some(i)` gives the stable index of its entry.
    pub fn get_index(&self, key: &String) -> (r: Option<usize>)
        requires
            self.wf(),
        ensures
            match r {
                Some(i) => {
                    &&& self@.dom().contains(key@)
                    &&& i < self.len()
                    &&& i as int == self.spec_index_of(key@)
                    &&& self.key_at(i as int) == key@
                },
                None => !self@.dom().contains(key@),
            },
    {
        let mut i: usize = 0;
        while i < self.keys.len()
            invariant
                self.wf(),
                i <= self.keys@.len(),
                forall|j: int| 0 <= j < i ==> self.keys@[j]@ != key@,
            decreases self.keys@.len() - i,
        {
            if self.keys[i] == *key {
                proof {
                    self.lemma_index_of(key@, i as int);
                }
                return Some(i);
            }
            i += 1;
        }
        proof {
            assert(!self.spec_contains(key@));
        }
        None
    }

    pub fn get<'a>(&'a self, key: &String) -> (r: Option<&'a T>)
        requires
            self.wf(),
        ensures
            match r {
                Some(v) => self@.dom().contains(key@) && *v == self@[key@],
                None => !self@.dom().contains(key@),
            },
    {
        match self.get_index(key) {
            Some(i) => Some(&self.values[i]),
            None => None,
        }
    }

    /// Read access by stable index.
    pub fn value<'a>(&'a self, i: usize) -> (r: &'a T)
        requires
            self.wf(),
            i < self.len(),
        ensures
            *r == self@[self.key_at(i as int)],
    {
        proof {
            self.lemma_key_at_contained(i as int);
        }
        &self.values[i]
    }

    /// Replacing the value at index `i` rewrites one entry of the map and
    /// leaves every key, and every other entry, as it was.
    proof fn lemma_update_view(self, i: int, x: T, other: Self)
        requires
            self.wf(),
            0 <= i < self.len(),
            other.keys@ == self.keys@,
            other.values@ == self.values@.update(i, x),
        ensures
            other.wf(),
            other@ == self@.insert(self.key_at(i), x),
            other.len() == self.len(),
            forall|j: int| 0 <= j < self.len() ==> other.key_at(j) == self.key_at(j),
            forall|k: Seq<char>| self@.dom().contains(k)
                ==> other.spec_index_of(k) == self.spec_index_of(k),
    {
        assert forall|k: Seq<char>| other.spec_contains(k) implies
            self.spec_contains(k) && other.spec_index_of(k) == self.spec_index_of(k) by {
            let j = choose|j: int| 0 <= j < other.keys@.len() && #[trigger] other.keys@[j]@ == k;
            other.lemma_index_of(k, j);
            self.lemma_index_of(k, j);
        }
        assert forall|k: Seq<char>| self.spec_contains(k) implies other.spec_contains(k) by {
            let j = choose|j: int| 0 <= j < self.keys@.len() && #[trigger] self.keys@[j]@ == k;
            other.lemma_index_of(k, j);
        }
        assert forall|k: Seq<char>| other.spec_contains(k) && k != self.key_at(i) implies
            other.spec_index_of(k) != i by {
            if other.spec_index_of(k) == i {
                other.lemma_index_of(k, other.spec_index_of(k));
            }
        }
        other.lemma_index_of(self.key_at(i), i);
        assert(other@ =~= self@.insert(self.key_at(i), x));
    }

    /// Inserts or replaces the value stored under `key`.
    ///
    /// A fresh key is appended, so the indices of existing entries stay
    /// stable and the new entry's index is the old length.
    pub fn insert(&mut self, key: String, value: T)
        requires
            old(self).wf(),
        ensures
            final(self).wf(),
            final(self)@ == old(self)@.insert(key@, value),
            old(self)@.dom().contains(key@) ==> {
                &&& final(self).len() == old(self).len()
                &&& final(self).spec_index_of(key@) == old(self).spec_index_of(key@)
            },
            !old(self)@.dom().contains(key@) ==> {
                &&& final(self).len() == old(self).len() + 1
                &&& final(self).spec_index_of(key@) == old(self).len()
            },
            forall|j: int| 0 <= j < old(self).len() ==> final(self).key_at(j) == old(self).key_at(j),
    {
        let ghost prev = *self;
        match self.get_index(&key) {
            Some(i) => {
                self.values[i] = value;
                proof {
                    prev.lemma_update_view(i as int, value, *self);
                }
            },
            None => {
                proof {
                    assert forall|j: int| 0 <= j < prev.keys@.len() implies
                        prev.keys@[j]@ != key@ by {
                        if prev.keys@[j]@ == key@ {
                            prev.lemma_index_of(key@, j);
                        }
                    }
                }
                self.keys.push(key);
                self.values.push(value);
                proof {
                    let n = prev.keys@.len() as int;
                    assert forall|i: int, j: int|
                        0 <= i < self.keys@.len() && 0 <= j < self.keys@.len() && i != j
                            implies self.keys@[i]@ != self.keys@[j]@ by {
                        if i < n && j < n {
                            assert(prev.keys@[i]@ != prev.keys@[j]@);
                        }
                    }
                    assert forall|k: Seq<char>| prev.spec_contains(k) implies
                        self.spec_contains(k) && self.spec_index_of(k) == prev.spec_index_of(k) by {
                        let j = choose|j: int|
                            0 <= j < prev.keys@.len() && #[trigger] prev.keys@[j]@ == k;
                        prev.lemma_index_of(k, j);
                        self.lemma_index_of(k, j);
                    }
                    assert forall|k: Seq<char>| self.spec_contains(k) && k != key@ implies
                        prev.spec_contains(k) by {
                        let j = choose|j: int|
                            0 <= j < self.keys@.len() && #[trigger] self.keys@[j]@ == k;
                        assert(j != n);
                        prev.lemma_index_of(k, j);
                    }
                    self.lemma_index_of(key@, n);
                    assert(self@ =~= prev@.insert(key@, value));
                }
            },
        }
    }

    /// Swaps the value at index `i` for `value` and hands the previous value
    /// back, leaving the key in place. A caller that needs to grow an entry
    /// takes it out, extends it, and puts it back with a second call.
    pub fn replace_value(&mut self, i: usize, value: T) -> (r: T)
        requires
            old(self).wf(),
            i < old(self).len(),
        ensures
            r == old(self)@[old(self).key_at(i as int)],
            final(self).wf(),
            final(self)@ == old(self)@.insert(old(self).key_at(i as int), value),
            final(self).len() == old(self).len(),
            forall|j: int| 0 <= j < old(self).len() ==> final(self).key_at(j) == old(self).key_at(j),
            forall|k: Seq<char>| old(self)@.dom().contains(k)
                ==> final(self).spec_index_of(k) == old(self).spec_index_of(k),
    {
        let ghost prev = *self;
        proof {
            prev.lemma_key_at_contained(i as int);
        }
        let mut taken = value;
        core::mem::swap(&mut self.values[i], &mut taken);
        proof {
            prev.lemma_update_view(i as int, value, *self);
        }
        taken
    }
}

} // verus!
