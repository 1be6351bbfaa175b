use vstd::prelude::*;
use crate::messages::PortDirection;
use crate::presets::PresetConnection;
use crate::state::{PwPort, PwState};

verus! {

broadcast use vstd::seq_lib::group_seq_properties;

impl PwState {
    /// The port has this direction and name, and its node is known under
    /// this name.
    pub open spec fn port_fits(
        &self,
        p: PwPort,
        direction: PortDirection,
        node_name: Seq<char>,
        port_name: Seq<char>,
    ) -> bool {
        &&& p.direction == direction
        &&& p.name@ == port_name
        &&& self@.nodes.contains_key(p.node_id)
        &&& self@.nodes[p.node_id].name@ == node_name
    }

    /// The first port, in arrival order, that fits.
    #[verifier::opaque]
    pub open spec fn resolved(
        &self,
        direction: PortDirection,
        node_name: Seq<char>,
        port_name: Seq<char>,
    ) -> Option<PwPort> {
        let ports = self.ports.items@;
        if exists|i: int|
            0 <= i < ports.len() && self.port_fits(ports[i], direction, node_name, port_name)
                && forall|k: int| 0 <= k < i ==> !#[trigger] self.port_fits(ports[k], direction, node_name, port_name)
        {
            Some(
                ports[choose|i: int|
                    0 <= i < ports.len() && self.port_fits(ports[i], direction, node_name, port_name)
                        && forall|k: int|
                        0 <= k < i ==> !#[trigger] self.port_fits(ports[k], direction, node_name, port_name)],
            )
        } else {
            None
        }
    }

    /// Finds a port by direction, node name and port name; where several fit,
    /// the first in arrival order.
    pub fn find_port(&self, direction: PortDirection, node_name: &String, port_name: &String) -> (r:
        Option<&PwPort>)
        requires
            self.wf(),
        ensures
            r is Some <==> self.resolved(direction, node_name@, port_name@) is Some,
            r matches Some(p) ==> *p == self.resolved(direction, node_name@, port_name@)->0,
    {
        let ghost nn = node_name@;
        let ghost pn = port_name@;
        let mut i: usize = 0;
        while i < self.ports.items.len()
            invariant
                self.wf(),
                nn == node_name@,
                pn == port_name@,
                i <= self.ports.items@.len(),
                forall|k: int| 0 <= k < i ==> !#[trigger] self.port_fits(self.ports.items@[k], direction, nn, pn),
            decreases self.ports.items@.len() - i,
        {
            let p = &self.ports.items[i];
            let fits = if p.direction == direction && p.name == *port_name {
                match self.nodes.get(p.node_id) {
                    Some(n) => n.name == *node_name,
                    None => false,
                }
            } else {
                false
            };
            assert(fits == self.port_fits(*p, direction, nn, pn));
            if fits {
                proof {
                    reveal(PwState::resolved);
                    let ports = self.ports.items@;
                    assert(self.port_fits(ports[i as int], direction, nn, pn));
                    let j = choose|j: int|
                        0 <= j < ports.len() && self.port_fits(ports[j], direction, nn, pn)
                            && forall|k: int|
                            0 <= k < j ==> !#[trigger] self.port_fits(ports[k], direction, nn, pn);
                    if j < i {
                    } else if j > i {
                        assert(!self.port_fits(ports[i as int], direction, nn, pn));
                    }
                }
                return Some(p);
            }
            i += 1;
        }
        proof {
            reveal(PwState::resolved);
        }
        None
    }

    /// The pair of port ids a rule names, where both ends resolve.
    pub open spec fn rule_ends(&self, rule: PresetConnection) -> Option<(u32, u32)> {
        match (
            self.resolved(PortDirection::Output, rule.output_node@, rule.output_port@),
            self.resolved(PortDirection::Input, rule.input_node@, rule.input_port@),
        ) {
            (Some(o), Some(i)) => Some((o.id, i.id)),
            _ => None,
        }
    }

    /// Resolves both ends of a rule.
    pub fn resolve_rule(&self, rule: &PresetConnection) -> (r: Option<(u32, u32)>)
        requires
            self.wf(),
        ensures
            r == self.rule_ends(*rule),
    {
        let o = self.find_port(PortDirection::Output, &rule.output_node, &rule.output_port);
        let i = self.find_port(PortDirection::Input, &rule.input_node, &rule.input_port);
        match (o, i) {
            (Some(o), Some(i)) => Some((o.id, i.id)),
            _ => None,
        }
    }

    /// The link creations that a preset's rules ask for: each rule whose two
    /// ends resolve, are not linked yet and are not pending, in rule order;
    /// a pair asked for once counts as pending for the later rules.
    pub open spec fn auto_requests(&self, pending: Set<(u32, u32)>, rules: Seq<PresetConnection>) -> Seq<
        (u32, u32),
    >
        decreases rules.len(),
    {
        if rules.len() == 0 {
            Seq::empty()
        } else {
            let prev = self.auto_requests(pending, rules.drop_last());
            match self.rule_ends(rules.last()) {
                Some(pair) => if !self@.has_link_between(pair.0, pair.1) && !pending.union(
                    prev.to_set(),
                ).contains(pair) {
                    prev.push(pair)
                } else {
                    prev
                },
                None => prev,
            }
        }
    }

    /// What loading a preset finds: the pairs to create (ends resolved, not
    /// linked yet) and the number of rules skipped.
    pub open spec fn load_plan(&self, rules: Seq<PresetConnection>) -> (Seq<(u32, u32)>, nat)
        decreases rules.len(),
    {
        if rules.len() == 0 {
            (Seq::empty(), 0)
        } else {
            let (create, skipped) = self.load_plan(rules.drop_last());
            match self.rule_ends(rules.last()) {
                Some(pair) => if !self@.has_link_between(pair.0, pair.1) {
                    (create.push(pair), skipped)
                } else {
                    (create, skipped + 1)
                },
                None => (create, skipped + 1),
            }
        }
    }

    /// Splits a preset's rules into the pairs to create and a count of the
    /// rules that are already linked or cannot be resolved.
    pub fn plan_preset_load(&self, rules: &Vec<PresetConnection>) -> (r: (Vec<(u32, u32)>, usize))
        requires
            self.wf(),
        ensures
            r.0@ == self.load_plan(rules@).0,
            r.1 == self.load_plan(rules@).1,
    {
        let mut create: Vec<(u32, u32)> = Vec::new();
        let mut skipped: usize = 0;
        let mut k: usize = 0;
        while k < rules.len()
            invariant
                self.wf(),
                k <= rules@.len(),
                create@ == self.load_plan(rules@.take(k as int)).0,
                skipped == self.load_plan(rules@.take(k as int)).1,
                skipped <= k,
            decreases rules@.len() - k,
        {
            assert(rules@.take(k + 1).drop_last() =~= rules@.take(k as int));
            match self.resolve_rule(&rules[k]) {
                Some((o, i)) => {
                    if !self.link_exists(o, i) {
                        create.push((o, i));
                    } else {
                        skipped += 1;
                    }
                },
                None => {
                    skipped += 1;
                },
            }
            k += 1;
        }
        assert(rules@.take(k as int) =~= rules@);
        (create, skipped)
    }
}

/// The pairs that connecting a selection asks for: one output to every
/// input, every output to one input, or else pairwise by position for as
/// many pairs as the shorter side has. Nothing when either side is empty.
pub open spec fn selection_pairs(outputs: Seq<u32>, inputs: Seq<u32>) -> Seq<(u32, u32)> {
    if outputs.len() == 0 || inputs.len() == 0 {
        Seq::empty()
    } else if outputs.len() == 1 {
        inputs.map_values(|i: u32| (outputs[0], i))
    } else if inputs.len() == 1 {
        outputs.map_values(|o: u32| (o, inputs[0]))
    } else {
        let n = if outputs.len() <= inputs.len() {
            outputs.len()
        } else {
            inputs.len()
        };
        Seq::new(n, |k: int| (outputs[k], inputs[k]))
    }
}

/// Pairs the selected output ports with the selected input ports.
pub fn pair_selection(outputs: &Vec<u32>, inputs: &Vec<u32>) -> (r: Vec<(u32, u32)>)
    ensures
        r@ == selection_pairs(outputs@, inputs@),
{
    let mut r: Vec<(u32, u32)> = Vec::new();
    if outputs.len() == 0 || inputs.len() == 0 {
        assert(r@ =~= selection_pairs(outputs@, inputs@));
        return r;
    }
    if outputs.len() == 1 {
        let o = outputs[0];
        let mut k: usize = 0;
        while k < inputs.len()
            invariant
                k <= inputs@.len(),
                o == outputs@[0],
                r@ =~= inputs@.take(k as int).map_values(|i: u32| (o, i)),
            decreases inputs@.len() - k,
        {
            r.push((o, inputs[k]));
            assert(inputs@.take(k + 1) =~= inputs@.take(k as int).push(inputs@[k as int]));
            k += 1;
        }
        assert(inputs@.take(k as int) =~= inputs@);
    } else if inputs.len() == 1 {
        let i = inputs[0];
        let mut k: usize = 0;
        while k < outputs.len()
            invariant
                k <= outputs@.len(),
                i == inputs@[0],
                r@ =~= outputs@.take(k as int).map_values(|o: u32| (o, i)),
            decreases outputs@.len() - k,
        {
            r.push((outputs[k], i));
            assert(outputs@.take(k + 1) =~= outputs@.take(k as int).push(outputs@[k as int]));
            k += 1;
        }
        assert(outputs@.take(k as int) =~= outputs@);
    } else {
        let n = if outputs.len() <= inputs.len() {
            outputs.len()
        } else {
            inputs.len()
        };
        let mut k: usize = 0;
        while k < n
            invariant
                k <= n,
                n <= outputs@.len(),
                n <= inputs@.len(),
                r@ =~= Seq::new(k as nat, |j: int| (outputs@[j], inputs@[j])),
            decreases n - k,
        {
            r.push((outputs[k], inputs[k]));
            k += 1;
        }
    }
    r
}

/// One output and several inputs give one pair per input; several outputs
/// and one input give one pair per output; otherwise there are as many pairs
/// as the shorter side has ports.
pub proof fn lemma_selection_count(outputs: Seq<u32>, inputs: Seq<u32>)
    requires
        outputs.len() > 0,
        inputs.len() > 0,
    ensures
        selection_pairs(outputs, inputs).len() == (if outputs.len() == 1 {
            inputs.len()
        } else if inputs.len() == 1 {
            outputs.len()
        } else if outputs.len() <= inputs.len() {
            outputs.len()
        } else {
            inputs.len()
        }),
        outputs.len() > 1 && inputs.len() > 1 ==> forall|k: int|
            0 <= k < selection_pairs(outputs, inputs).len() ==> #[trigger] selection_pairs(
                outputs,
                inputs,
            )[k] == (outputs[k], inputs[k]),
{
}

} // verus!
