use vstd::prelude::*;

verus! {

/// Pairs `(output_port_id, input_port_id)` whose creation was requested and
/// not yet confirmed.
pub struct PendingLinks {
    pairs: Vec<(u32, u32)>,
}

impl View for PendingLinks {
    type V = Set<(u32, u32)>;

    closed spec fn view(&self) -> Set<(u32, u32)> {
        self.pairs@.to_set()
    }
}

impl PendingLinks {
    pub closed spec fn wf(&self) -> bool {
        self.pairs@.no_duplicates()
    }

    pub fn new() -> (r: Self)
        ensures
            r.wf(),
            r@ == Set::<(u32, u32)>::empty(),
    {
        let r = PendingLinks { pairs: Vec::new() };
        assert(r@ =~= Set::<(u32, u32)>::empty());
        r
    }

    fn position(&self, output_port_id: u32, input_port_id: u32) -> (r: Option<usize>)
        ensures
            r is Some <==> self@.contains((output_port_id, input_port_id)),
            r matches Some(i) ==> i < self.pairs@.len() && self.pairs@[i as int] == (
                output_port_id,
                input_port_id,
            ),
    {
        let mut i: usize = 0;
        while i < self.pairs.len()
            invariant
                i <= self.pairs@.len(),
                forall|k: int| 0 <= k < i ==> self.pairs@[k] != (output_port_id, input_port_id),
            decreases self.pairs@.len() - i,
        {
            let (o, n) = self.pairs[i];
            if o == output_port_id && n == input_port_id {
                proof {
                    assert(self.pairs@.to_set().contains(self.pairs@[i as int]));
                }
                return Some(i);
            }
            i += 1;
        }
        None
    }

    pub fn contains(&self, output_port_id: u32, input_port_id: u32) -> (r: bool)
        ensures
            r == self@.contains((output_port_id, input_port_id)),
    {
        self.position(output_port_id, input_port_id).is_some()
    }

    /// Marks the pair pending; true when it was not pending before.
    pub fn insert(&mut self, output_port_id: u32, input_port_id: u32) -> (r: bool)
        requires
            old(self).wf(),
        ensures
            final(self).wf(),
            final(self)@ == old(self)@.insert((output_port_id, input_port_id)),
            r == !old(self)@.contains((output_port_id, input_port_id)),
    {
        if self.contains(output_port_id, input_port_id) {
            assert(self@.insert((output_port_id, input_port_id)) =~= self@);
            false
        } else {
            let ghost pre = self.pairs@;
            self.pairs.push((output_port_id, input_port_id));
            proof {
                pre.lemma_push_to_set_commute((output_port_id, input_port_id));
                assert(self.pairs@ == pre.push((output_port_id, input_port_id)));
                assert(!pre.contains((output_port_id, input_port_id)));
            }
            true
        }
    }

    /// Drops the pair; true when it was pending.
    pub fn remove(&mut self, output_port_id: u32, input_port_id: u32) -> (r: bool)
        requires
            old(self).wf(),
        ensures
            final(self).wf(),
            final(self)@ == old(self)@.remove((output_port_id, input_port_id)),
            r == old(self)@.contains((output_port_id, input_port_id)),
    {
        match self.position(output_port_id, input_port_id) {
            Some(i) => {
                let ghost pre = self.pairs@;
                let _ = self.pairs.remove(i);
                proof {
                    let p = (output_port_id, input_port_id);
                    assert(self.pairs@ =~= pre.remove(i as int));
                    assert forall|x: (u32, u32)|
                        self.pairs@.to_set().contains(x) <==> pre.to_set().remove(p).contains(x) by {
                        if self.pairs@.to_set().contains(x) {
                            let k = self.pairs@.index_of(x);
                            let k2 = if k < i { k } else { k + 1 };
                            assert(pre[k2] == x);
                        }
                        if pre.to_set().remove(p).contains(x) {
                            let k = pre.index_of(x);
                            let k1 = if k < i { k } else { k - 1 };
                            assert(self.pairs@[k1] == x);
                        }
                    }
                    assert(self@ =~= old(self)@.remove(p));
                }
                true
            },
            None => {
                assert(self@.remove((output_port_id, input_port_id)) =~= self@);
                false
            },
        }
    }

    pub fn len(&self) -> (n: usize)
        requires
            self.wf(),
        ensures
            n == self@.len(),
    {
        proof {
            self.pairs@.unique_seq_to_set();
        }
        self.pairs.len()
    }
}

} // verus!
