use vstd::prelude::*;

verus! {

broadcast use vstd::seq_lib::group_seq_properties;

/// One connection of a preset, named by node and port names rather than ids,
/// so that it outlives a restart of the graph service.
#[derive(Debug, Clone)]
pub struct PresetConnection {
    pub output_node: String,
    pub output_port: String,
    pub input_node: String,
    pub input_port: String,
}

/// A named list of connections.
#[derive(Debug, Clone)]
pub struct Preset {
    pub name: String,
    pub connections: Vec<PresetConnection>,
}

/// Strings in the order `Ord for String` gives them: character by character,
/// a proper prefix first.
pub open spec fn text_le(a: Seq<char>, b: Seq<char>) -> bool
    decreases a.len(),
{
    if a.len() == 0 {
        true
    } else if b.len() == 0 {
        false
    } else if a[0] != b[0] {
        (a[0] as u32) < (b[0] as u32)
    } else {
        text_le(a.drop_first(), b.drop_first())
    }
}

pub open spec fn texts(v: Seq<String>) -> Seq<Seq<char>> {
    v.map_values(|s: String| s@)
}

/// Relies on `slice::sort` for `String`: the same strings, in ascending order.
#[verifier::external_body]
fn sort_strings(v: &mut Vec<String>)
    ensures
        texts(final(v)@).to_multiset() == texts(old(v)@).to_multiset(),
        final(v)@.len() == old(v)@.len(),
        forall|i: int, j: int|
            0 <= i < j < final(v)@.len() ==> text_le(#[trigger] final(v)@[i]@, #[trigger] final(v)@[j]@),
{
    v.sort();
}

/// All saved presets, at most one per name, and the one that is active.
#[derive(Debug, Clone)]
pub struct PresetStore {
    pub presets: Vec<Preset>,
    /// Name of the preset that connects automatically, if any.
    pub active_preset: Option<String>,
}

impl PresetStore {
    /// No two presets share a name.
    pub open spec fn wf(&self) -> bool {
        forall|i: int, j: int|
            0 <= i < self.presets@.len() && 0 <= j < self.presets@.len()
                && #[trigger] self.presets@[i].name@ == #[trigger] self.presets@[j].name@ ==> i == j
    }

    pub open spec fn has(&self, name: Seq<char>) -> bool {
        exists|i: int| 0 <= i < self.presets@.len() && #[trigger] self.presets@[i].name@ == name
    }

    pub open spec fn index_of(&self, name: Seq<char>) -> int {
        choose|i: int| 0 <= i < self.presets@.len() && #[trigger] self.presets@[i].name@ == name
    }

    /// The presets by name.
    pub open spec fn model(&self) -> Map<Seq<char>, Preset> {
        Map::new(|n: Seq<char>| self.has(n), |n: Seq<char>| self.presets@[self.index_of(n)])
    }

    /// The preset that is active: one is named active and it exists.
    pub open spec fn spec_active(&self) -> Option<Preset> {
        match self.active_preset {
            Some(a) => if self.model().contains_key(a@) {
                Some(self.model()[a@])
            } else {
                None
            },
            None => None,
        }
    }

    proof fn lemma_index_of(&self, i: int)
        requires
            self.wf(),
            0 <= i < self.presets@.len(),
        ensures
            self.has(self.presets@[i].name@),
            self.index_of(self.presets@[i].name@) == i,
            self.model()[self.presets@[i].name@] == self.presets@[i],
    {
        assert(self.has(self.presets@[i].name@));
    }

    pub fn new() -> (s: Self)
        ensures
            s.wf(),
            s.model() == Map::<Seq<char>, Preset>::empty(),
            s.active_preset is None,
    {
        let s = PresetStore { presets: Vec::new(), active_preset: None };
        assert(s.model() =~= Map::<Seq<char>, Preset>::empty());
        s
    }

    fn position(&self, name: &str) -> (r: Option<usize>)
        requires
            self.wf(),
        ensures
            r is Some <==> self.has(name@),
            r matches Some(i) ==> i < self.presets@.len() && self.presets@[i as int].name@ == name@
                && self.index_of(name@) == i,
    {
        let owned = name.to_owned();
        let mut i: usize = 0;
        while i < self.presets.len()
            invariant
                self.wf(),
                owned@ == name@,
                i <= self.presets@.len(),
                forall|k: int| 0 <= k < i ==> #[trigger] self.presets@[k].name@ != name@,
            decreases self.presets@.len() - i,
        {
            if self.presets[i].name == owned {
                proof {
                    self.lemma_index_of(i as int);
                }
                return Some(i);
            }
            i += 1;
        }
        None
    }

    /// Adds a preset, replacing one of the same name.
    pub fn add_preset(&mut self, preset: Preset)
        requires
            old(self).wf(),
        ensures
            final(self).wf(),
            final(self).model() == old(self).model().insert(preset.name@, preset),
            final(self).active_preset == old(self).active_preset,
    {
        let ghost pre = *self;
        let ghost pv = preset;
        let ghost key = preset.name@;
        match self.position(preset.name.as_str()) {
            Some(i) => {
                self.presets.set(i, preset);
                proof {
                    assert forall|a: int, b: int|
                        0 <= a < self.presets@.len() && 0 <= b < self.presets@.len()
                            && #[trigger] self.presets@[a].name@ == #[trigger] self.presets@[b].name@
                            implies a == b by {
                        if a != i && b != i {
                            assert(pre.presets@[a].name@ == pre.presets@[b].name@);
                        } else if a == i && b != i {
                            assert(pre.presets@[b].name@ == pre.presets@[i as int].name@);
                        } else if a != i && b == i {
                            assert(pre.presets@[a].name@ == pre.presets@[i as int].name@);
                        }
                    }
                    self.lemma_index_of(i as int);
                    assert forall|k: Seq<char>| k != key implies (self.has(k) <==> pre.has(k)) by {
                        if self.has(k) {
                            let j = self.index_of(k);
                            assert(pre.presets@[j].name@ == k);
                        }
                        if pre.has(k) {
                            let j = pre.index_of(k);
                            assert(self.presets@[j].name@ == k);
                        }
                    }
                    assert forall|k: Seq<char>| k != key && #[trigger] pre.has(k) implies self.model()[k]
                        == pre.model()[k] by {
                        let j = pre.index_of(k);
                        pre.lemma_index_of(j);
                        self.lemma_index_of(j);
                    }
                    assert(self.model() =~= pre.model().insert(key, pv));
                }
            },
            None => {
                self.presets.push(preset);
                proof {
                    let n = pre.presets@.len() as int;
                    assert forall|a: int, b: int|
                        0 <= a < self.presets@.len() && 0 <= b < self.presets@.len()
                            && #[trigger] self.presets@[a].name@ == #[trigger] self.presets@[b].name@
                            implies a == b by {
                        if a < n && b < n {
                            assert(pre.presets@[a].name@ == pre.presets@[b].name@);
                        } else if a < n {
                            assert(pre.presets@[a].name@ == key);
                        } else if b < n {
                            assert(pre.presets@[b].name@ == key);
                        }
                    }
                    self.lemma_index_of(n);
                    assert forall|k: Seq<char>| k != key implies (self.has(k) <==> pre.has(k)) by {
                        if self.has(k) {
                            let j = self.index_of(k);
                            assert(pre.presets@[j].name@ == k);
                        }
                        if pre.has(k) {
                            let j = pre.index_of(k);
                            assert(self.presets@[j].name@ == k);
                        }
                    }
                    assert forall|k: Seq<char>| k != key && #[trigger] pre.has(k) implies self.model()[k]
                        == pre.model()[k] by {
                        let j = pre.index_of(k);
                        pre.lemma_index_of(j);
                        self.lemma_index_of(j);
                    }
                    assert(self.model() =~= pre.model().insert(key, pv));
                }
            },
        }
    }

    /// Removes a preset by name; an unknown name changes nothing.
    pub fn remove_preset(&mut self, name: &str)
        requires
            old(self).wf(),
        ensures
            final(self).wf(),
            final(self).model() == old(self).model().remove(name@),
            final(self).active_preset == old(self).active_preset,
    {
        let ghost pre = *self;
        let ghost key = name@;
        match self.position(name) {
            Some(i) => {
                proof {
                    pre.lemma_index_of(i as int);
                }
                let _ = self.presets.remove(i);
                proof {
                    assert forall|a: int, b: int|
                        0 <= a < self.presets@.len() && 0 <= b < self.presets@.len()
                            && #[trigger] self.presets@[a].name@ == #[trigger] self.presets@[b].name@
                            implies a == b by {
                        let a2 = if a < i { a } else { a + 1 };
                        let b2 = if b < i { b } else { b + 1 };
                        assert(self.presets@[a] == pre.presets@[a2]);
                        assert(self.presets@[b] == pre.presets@[b2]);
                        assert(pre.presets@[a2].name@ == pre.presets@[b2].name@);
                    }
                    assert forall|k: Seq<char>| k != key implies (self.has(k) <==> pre.has(k)) by {
                        if self.has(k) {
                            let j = self.index_of(k);
                            let j2 = if j < i { j } else { j + 1 };
                            assert(self.presets@[j] == pre.presets@[j2]);
                        }
                        if pre.has(k) {
                            let j = pre.index_of(k);
                            let j1 = if j < i { j } else { j - 1 };
                            assert(self.presets@[j1] == pre.presets@[j]);
                        }
                    }
                    assert(!self.has(key)) by {
                        if self.has(key) {
                            let j = self.index_of(key);
                            let j2 = if j < i { j } else { j + 1 };
                            assert(self.presets@[j] == pre.presets@[j2]);
                        }
                    }
                    assert forall|k: Seq<char>| k != key && #[trigger] pre.has(k) implies self.model()[k]
                        == pre.model()[k] by {
                        let j = pre.index_of(k);
                        pre.lemma_index_of(j);
                        let j1 = if j < i { j } else { j - 1 };
                        assert(self.presets@[j1] == pre.presets@[j]);
                        self.lemma_index_of(j1);
                    }
                    assert(self.model() =~= pre.model().remove(key));
                }
            },
            None => {
                assert(pre.model().remove(key) =~= pre.model());
            },
        }
    }

    /// Gets a preset by name.
    pub fn get_preset(&self, name: &str) -> (r: Option<&Preset>)
        requires
            self.wf(),
        ensures
            r is Some <==> self.model().contains_key(name@),
            r matches Some(p) ==> *p == self.model()[name@],
    {
        match self.position(name) {
            Some(i) => {
                proof {
                    self.lemma_index_of(i as int);
                }
                Some(&self.presets[i])
            },
            None => None,
        }
    }

    /// All preset names, sorted.
    pub fn preset_names(&self) -> (r: Vec<String>)
        requires
            self.wf(),
        ensures
            texts(r@).to_set() == self.model().dom(),
            texts(r@).no_duplicates(),
            forall|i: int, j: int| 0 <= i < j < r@.len() ==> text_le(#[trigger] r@[i]@, #[trigger] r@[j]@),
    {
        let mut names: Vec<String> = Vec::new();
        let mut i: usize = 0;
        while i < self.presets.len()
            invariant
                i <= self.presets@.len(),
                names@.len() == i,
                forall|k: int| 0 <= k < i ==> #[trigger] names@[k]@ == self.presets@[k].name@,
            decreases self.presets@.len() - i,
        {
            names.push(self.presets[i].name.clone());
            i += 1;
        }
        let ghost before = texts(names@);
        sort_strings(&mut names);
        proof {
            assert(before == self.presets@.map_values(|p: Preset| p.name@));
            assert forall|n: Seq<char>| #[trigger] before.contains(n) <==> self.model().dom().contains(n) by {
                if before.contains(n) {
                    let k = before.index_of(n);
                    assert(self.presets@[k].name@ == n);
                }
                if self.has(n) {
                    let k = self.index_of(n);
                    assert(before[k] == n);
                }
            }
            assert(before.no_duplicates()) by {
                assert forall|a: int, b: int| 0 <= a < before.len() && 0 <= b < before.len() && a != b
                    implies before[a] != before[b] by {
                    assert(before[a] == self.presets@[a].name@);
                    assert(before[b] == self.presets@[b].name@);
                }
            }
            let after = texts(names@);
            assert forall|n: Seq<char>| #[trigger] after.contains(n) <==> before.contains(n) by {
                assert(after.to_multiset().count(n) == before.to_multiset().count(n));
            }
            assert(after.to_set() =~= self.model().dom());
            before.lemma_multiset_has_no_duplicates();
            after.lemma_multiset_has_no_duplicates_conv();
        }
        names
    }

    /// Makes the named preset the active one; an unknown name changes nothing.
    pub fn activate_preset(&mut self, name: &str)
        requires
            old(self).wf(),
        ensures
            final(self).wf(),
            final(self).model() == old(self).model(),
            old(self).model().contains_key(name@) ==> (final(self).active_preset matches Some(a)
                && a@ == name@),
            !old(self).model().contains_key(name@) ==> final(self).active_preset == old(
                self,
            ).active_preset,
    {
        if self.position(name).is_some() {
            self.active_preset = Some(name.to_owned());
        }
    }

    /// No preset is active afterwards.
    pub fn deactivate_preset(&mut self)
        requires
            old(self).wf(),
        ensures
            final(self).wf(),
            final(self).model() == old(self).model(),
            final(self).active_preset is None,
    {
        self.active_preset = None;
    }

    /// Gets the active preset, if one is named and exists.
    pub fn get_active_preset(&self) -> (r: Option<&Preset>)
        requires
            self.wf(),
        ensures
            r is Some <==> self.spec_active() is Some,
            r matches Some(p) ==> *p == self.spec_active()->0,
    {
        match &self.active_preset {
            Some(a) => self.get_preset(a.as_str()),
            None => None,
        }
    }

    /// Whether the named preset is the active one.
    pub fn is_active(&self, name: &str) -> (r: bool)
        ensures
            r == (self.active_preset matches Some(a) && a@ == name@),
    {
        match &self.active_preset {
            Some(a) => *a == name.to_owned(),
            None => false,
        }
    }
}

} // verus!
