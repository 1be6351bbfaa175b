use vstd::prelude::*;

verus! {

/// An entity of the graph mirror, identified by the id the graph service gave it.
pub trait Keyed {
    spec fn spec_id(&self) -> u32;

    fn entity_id(&self) -> (r: u32)
        ensures
            r == self.spec_id(),
    ;
}

/// Entities of one kind, at most one per id, kept in arrival order.
pub struct EntityTable<T> {
    pub items: Vec<T>,
}

impl<T: Keyed> EntityTable<T> {
    /// No two entities share an id.
    pub open spec fn wf(&self) -> bool {
        forall|i: int, j: int|
            0 <= i < self.items@.len() && 0 <= j < self.items@.len()
                && #[trigger] self.items@[i].spec_id() == #[trigger] self.items@[j].spec_id()
                ==> i == j
    }

    pub open spec fn has(&self, id: u32) -> bool {
        exists|i: int| 0 <= i < self.items@.len() && #[trigger] self.items@[i].spec_id() == id
    }

    pub open spec fn index_of(&self, id: u32) -> int {
        choose|i: int| 0 <= i < self.items@.len() && #[trigger] self.items@[i].spec_id() == id
    }

    /// The table as a map from id to entity.
    pub open spec fn model(&self) -> Map<u32, T> {
        Map::new(|id: u32| self.has(id), |id: u32| self.items@[self.index_of(id)])
    }

    pub open spec fn ids(&self) -> Seq<u32> {
        self.items@.map_values(|e: T| e.spec_id())
    }

    pub proof fn lemma_index_of(&self, i: int)
        requires
            self.wf(),
            0 <= i < self.items@.len(),
        ensures
            self.has(self.items@[i].spec_id()),
            self.index_of(self.items@[i].spec_id()) == i,
            self.model()[self.items@[i].spec_id()] == self.items@[i],
    {
        let id = self.items@[i].spec_id();
        assert(self.has(id));
    }

    /// The number of entities is the size of the map's domain.
    pub proof fn lemma_len(&self)
        requires
            self.wf(),
        ensures
            self.model().dom() == self.ids().to_set(),
            self.model().dom().finite(),
            self.model().dom().len() == self.items@.len(),
    {
        let ids = self.ids();
        assert forall|id: u32| self.model().dom().contains(id) <==> ids.to_set().contains(id) by {
            if self.has(id) {
                let i = self.index_of(id);
                assert(ids[i] == id);
            }
            if ids.to_set().contains(id) {
                let i = choose|i: int| 0 <= i < ids.len() && ids[i] == id;
                assert(self.items@[i].spec_id() == id);
            }
        }
        assert(self.model().dom() =~= ids.to_set());
        assert(ids.no_duplicates()) by {
            assert forall|i: int, j: int| 0 <= i < ids.len() && 0 <= j < ids.len() && i != j
                implies ids[i] != ids[j] by {
                assert(ids[i] == self.items@[i].spec_id());
                assert(ids[j] == self.items@[j].spec_id());
            }
        }
        ids.unique_seq_to_set();
        vstd::seq_lib::seq_to_set_is_finite(ids);
    }

    pub fn new() -> (t: Self)
        ensures
            t.wf(),
            t.model() == Map::<u32, T>::empty(),
    {
        let t = EntityTable { items: Vec::new() };
        assert(t.model() =~= Map::<u32, T>::empty());
        t
    }

    pub fn len(&self) -> (n: usize)
        requires
            self.wf(),
        ensures
            n == self.model().len(),
    {
        proof {
            self.lemma_len();
        }
        self.items.len()
    }

    /// Where the entity with this id stands, if any.
    pub fn position(&self, id: u32) -> (r: Option<usize>)
        requires
            self.wf(),
        ensures
            r is Some <==> self.has(id),
            r matches Some(i) ==> i < self.items@.len() && self.items@[i as int].spec_id() == id
                && self.index_of(id) == i,
    {
        let mut i: usize = 0;
        while i < self.items.len()
            invariant
                self.wf(),
                i <= self.items@.len(),
                forall|k: int| 0 <= k < i ==> #[trigger] self.items@[k].spec_id() != id,
            decreases self.items@.len() - i,
        {
            if self.items[i].entity_id() == id {
                proof {
                    self.lemma_index_of(i as int);
                }
                return Some(i);
            }
            i += 1;
        }
        None
    }

    pub fn contains(&self, id: u32) -> (r: bool)
        requires
            self.wf(),
        ensures
            r == self.model().dom().contains(id),
    {
        self.position(id).is_some()
    }

    pub fn get(&self, id: u32) -> (r: Option<&T>)
        requires
            self.wf(),
        ensures
            r is Some <==> self.model().dom().contains(id),
            r matches Some(e) ==> *e == self.model()[id] && e.spec_id() == id,
    {
        match self.position(id) {
            Some(i) => Some(&self.items[i]),
            None => None,
        }
    }

    /// Adds the entity, replacing one with the same id.
    pub fn upsert(&mut self, e: T)
        requires
            old(self).wf(),
        ensures
            final(self).wf(),
            final(self).model() == old(self).model().insert(e.spec_id(), e),
    {
        let id = e.entity_id();
        let ghost pre = *self;
        let ghost ev = e;
        match self.position(id) {
            Some(i) => {
                self.items.set(i, e);
                proof {
                    assert forall|a: int, b: int|
                        0 <= a < self.items@.len() && 0 <= b < self.items@.len()
                            && #[trigger] self.items@[a].spec_id() == #[trigger] self.items@[b].spec_id()
                            implies a == b by {
                        if a != i && b != i {
                            assert(pre.items@[a].spec_id() == pre.items@[b].spec_id());
                        } else if a == i && b != i {
                            assert(pre.items@[b].spec_id() == pre.items@[i as int].spec_id());
                        } else if a != i && b == i {
                            assert(pre.items@[a].spec_id() == pre.items@[i as int].spec_id());
                        }
                    }
                    self.lemma_index_of(i as int);
                    assert forall|k: u32| k != id implies (self.has(k) <==> pre.has(k)) by {
                        if self.has(k) {
                            let j = self.index_of(k);
                            assert(pre.items@[j].spec_id() == k);
                        }
                        if pre.has(k) {
                            let j = pre.index_of(k);
                            assert(self.items@[j].spec_id() == k);
                        }
                    }
                    assert forall|k: u32| k != id && #[trigger] pre.has(k)
                        implies self.model()[k] == pre.model()[k] by {
                        let j = pre.index_of(k);
                        pre.lemma_index_of(j);
                        assert(self.items@[j] == pre.items@[j]);
                        self.lemma_index_of(j);
                    }
                    assert(self.model() =~= pre.model().insert(id, ev));
                }
            },
            None => {
                self.items.push(e);
                proof {
                    let n = pre.items@.len() as int;
                    assert forall|a: int, b: int|
                        0 <= a < self.items@.len() && 0 <= b < self.items@.len()
                            && #[trigger] self.items@[a].spec_id() == #[trigger] self.items@[b].spec_id()
                            implies a == b by {
                        if a < n && b < n {
                            assert(pre.items@[a].spec_id() == pre.items@[b].spec_id());
                        } else if a < n {
                            assert(pre.items@[a].spec_id() == id);
                        } else if b < n {
                            assert(pre.items@[b].spec_id() == id);
                        }
                    }
                    self.lemma_index_of(n);
                    assert forall|k: u32| k != id implies (self.has(k) <==> pre.has(k)) by {
                        if self.has(k) {
                            let j = self.index_of(k);
                            assert(pre.items@[j].spec_id() == k);
                        }
                        if pre.has(k) {
                            let j = pre.index_of(k);
                            assert(self.items@[j].spec_id() == k);
                        }
                    }
                    assert forall|k: u32| k != id && #[trigger] pre.has(k)
                        implies self.model()[k] == pre.model()[k] by {
                        let j = pre.index_of(k);
                        pre.lemma_index_of(j);
                        assert(self.items@[j] == pre.items@[j]);
                        self.lemma_index_of(j);
                    }
                    assert(self.model() =~= pre.model().insert(id, ev));
                }
            },
        }
    }

    /// Removes the entity with this id; an absent id leaves the table as it is.
    pub fn remove(&mut self, id: u32) -> (r: Option<T>)
        requires
            old(self).wf(),
        ensures
            final(self).wf(),
            final(self).model() == old(self).model().remove(id),
            r is Some <==> old(self).model().dom().contains(id),
            r matches Some(e) ==> e == old(self).model()[id],
    {
        let ghost pre = *self;
        match self.position(id) {
            Some(i) => {
                proof {
                    pre.lemma_index_of(i as int);
                }
                let e = self.items.remove(i);
                proof {
                    assert forall|a: int, b: int|
                        0 <= a < self.items@.len() && 0 <= b < self.items@.len()
                            && #[trigger] self.items@[a].spec_id() == #[trigger] self.items@[b].spec_id()
                            implies a == b by {
                        let a2 = if a < i { a } else { a + 1 };
                        let b2 = if b < i { b } else { b + 1 };
                        assert(self.items@[a] == pre.items@[a2]);
                        assert(self.items@[b] == pre.items@[b2]);
                        assert(pre.items@[a2].spec_id() == pre.items@[b2].spec_id());
                    }
                    assert forall|k: u32| k != id implies (self.has(k) <==> pre.has(k)) by {
                        if self.has(k) {
                            let j = self.index_of(k);
                            let j2 = if j < i { j } else { j + 1 };
                            assert(self.items@[j] == pre.items@[j2]);
                        }
                        if pre.has(k) {
                            let j = pre.index_of(k);
                            let j1 = if j < i { j } else { j - 1 };
                            assert(self.items@[j1] == pre.items@[j]);
                        }
                    }
                    assert(!self.has(id)) by {
                        if self.has(id) {
                            let j = self.index_of(id);
                            let j2 = if j < i { j } else { j + 1 };
                            assert(self.items@[j] == pre.items@[j2]);
                        }
                    }
                    assert forall|k: u32| k != id && #[trigger] pre.has(k)
                        implies self.model()[k] == pre.model()[k] by {
                        let j = pre.index_of(k);
                        pre.lemma_index_of(j);
                        let j1 = if j < i { j } else { j - 1 };
                        assert(self.items@[j1] == pre.items@[j]);
                        self.lemma_index_of(j1);
                    }
                    assert(self.model() =~= pre.model().remove(id));
                }
                Some(e)
            },
            None => {
                proof {
                    assert(pre.model().remove(id) =~= pre.model());
                }
                None
            },
        }
    }
}

} // verus!
