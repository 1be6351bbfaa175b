use vstd::prelude::*;
use crate::matcher::{pair_selection, selection_pairs};
use crate::messages::{PwEvent, UiCommand};
use crate::pending::PendingLinks;
use crate::presets::{Preset, PresetConnection, PresetStore};
use crate::state::{GraphModel, PwLink, PwState};

verus! {

broadcast use vstd::seq_lib::group_seq_properties;

/// The pairs of a list of requests that go out, in order: a pair goes out
/// unless it is pending, and a pair that went out counts as pending for the
/// requests after it.
pub open spec fn forwarded(pending: Set<(u32, u32)>, pairs: Seq<(u32, u32)>) -> Seq<(u32, u32)>
    decreases pairs.len(),
{
    if pairs.len() == 0 {
        Seq::empty()
    } else {
        let prev = forwarded(pending, pairs.drop_last());
        if pending.union(pairs.drop_last().to_set()).contains(pairs.last()) {
            prev
        } else {
            prev.push(pairs.last())
        }
    }
}

/// The creation command for each pair.
pub open spec fn create_commands(pairs: Seq<(u32, u32)>) -> Seq<UiCommand> {
    pairs.map_values(|p: (u32, u32)| UiCommand::CreateLink { output_port_id: p.0, input_port_id: p.1 })
}

/// The pending pairs after an event: a confirmed link is no longer pending,
/// and neither is the pair of a known link that goes away.
pub open spec fn pending_after(pending: Set<(u32, u32)>, m: GraphModel, ev: PwEvent) -> Set<(u32, u32)> {
    match ev {
        PwEvent::LinkAdded { output_port_id, input_port_id, .. } => pending.remove(
            (output_port_id, input_port_id),
        ),
        PwEvent::LinkRemoved { id } => if m.links.contains_key(id) {
            pending.remove((m.links[id].output_port_id, m.links[id].input_port_id))
        } else {
            pending
        },
        _ => pending,
    }
}

/// The preset connections a link stands for, where both its ports and their
/// nodes are known.
pub open spec fn link_rule(m: GraphModel, l: PwLink) -> Option<PresetConnection> {
    if m.ports.contains_key(l.output_port_id) && m.ports.contains_key(l.input_port_id)
        && m.nodes.contains_key(m.ports[l.output_port_id].node_id) && m.nodes.contains_key(
        m.ports[l.input_port_id].node_id,
    ) {
        Some(
            PresetConnection {
                output_node: m.nodes[m.ports[l.output_port_id].node_id].name,
                output_port: m.ports[l.output_port_id].name,
                input_node: m.nodes[m.ports[l.input_port_id].node_id].name,
                input_port: m.ports[l.input_port_id].name,
            },
        )
    } else {
        None
    }
}

/// The rules for a sequence of links, skipping those with unknown ends.
pub open spec fn link_rules(m: GraphModel, links: Seq<PwLink>) -> Seq<PresetConnection>
    decreases links.len(),
{
    if links.len() == 0 {
        Seq::empty()
    } else {
        let prev = link_rules(m, links.drop_last());
        match link_rule(m, links.last()) {
            Some(r) => prev.push(r),
            None => prev,
        }
    }
}

fn clone_opt_string(s: &Option<String>) -> (r: Option<String>)
    ensures
        r == *s,
{
    match s {
        Some(v) => Some(v.clone()),
        None => None,
    }
}

impl PwState {
    /// The rule for a link, by the names of its ports and their nodes.
    pub fn rule_for_link(&self, l: &PwLink) -> (r: Option<PresetConnection>)
        requires
            self.wf(),
        ensures
            r == link_rule(self@, *l),
    {
        let op = match self.ports.get(l.output_port_id) {
            Some(p) => p,
            None => return None,
        };
        let ip = match self.ports.get(l.input_port_id) {
            Some(p) => p,
            None => return None,
        };
        let on = match self.nodes.get(op.node_id) {
            Some(n) => n,
            None => return None,
        };
        let inn = match self.nodes.get(ip.node_id) {
            Some(n) => n,
            None => return None,
        };
        Some(
            PresetConnection {
                output_node: on.name.clone(),
                output_port: op.name.clone(),
                input_node: inn.name.clone(),
                input_port: ip.name.clone(),
            },
        )
    }

    /// The connections of the graph as name-based rules, one for each link
    /// whose ports and nodes are known, in link order.
    pub fn snapshot_rules(&self) -> (r: Vec<PresetConnection>)
        requires
            self.wf(),
        ensures
            r@ == link_rules(self@, self.links.items@),
    {
        let mut r: Vec<PresetConnection> = Vec::new();
        let mut k: usize = 0;
        while k < self.links.items.len()
            invariant
                self.wf(),
                k <= self.links.items@.len(),
                r@ == link_rules(self@, self.links.items@.take(k as int)),
            decreases self.links.items@.len() - k,
        {
            assert(self.links.items@.take(k + 1).drop_last() =~= self.links.items@.take(k as int));
            match self.rule_for_link(&self.links.items[k]) {
                Some(rule) => r.push(rule),
                None => {},
            }
            k += 1;
        }
        assert(self.links.items@.take(k as int) =~= self.links.items@);
        r
    }
}

/// What loading a preset did.
pub struct PresetLoad {
    /// Commands to send, one per link to create.
    pub commands: Vec<UiCommand>,
    /// Rules whose link exists already or whose ports are missing.
    pub skipped: usize,
}

/// The consumer's state: the mirror, the pending link requests and the
/// presets, and the decisions taken on them.
pub struct LinkManager {
    pub state: PwState,
    pub pending: PendingLinks,
    pub presets: PresetStore,
}

impl LinkManager {
    pub open spec fn wf(&self) -> bool {
        self.state.wf() && self.pending.wf() && self.presets.wf()
    }

    pub fn new(presets: PresetStore) -> (r: Self)
        requires
            presets.wf(),
        ensures
            r.wf(),
            r.state@ == GraphModel::empty(),
            r.pending@ == Set::<(u32, u32)>::empty(),
            r.presets == presets,
    {
        LinkManager { state: PwState::new(), pending: PendingLinks::new(), presets }
    }

    /// Asks for a link, unless the same pair is already pending. The pair is
    /// pending afterwards either way.
    pub fn request_link(&mut self, output_port_id: u32, input_port_id: u32) -> (r: Option<UiCommand>)
        requires
            old(self).wf(),
        ensures
            final(self).wf(),
            final(self).state == old(self).state,
            final(self).presets == old(self).presets,
            final(self).pending@ == old(self).pending@.insert((output_port_id, input_port_id)),
            r == (if old(self).pending@.contains((output_port_id, input_port_id)) {
                None
            } else {
                Some(UiCommand::CreateLink { output_port_id, input_port_id })
            }),
    {
        if self.pending.insert(output_port_id, input_port_id) {
            Some(UiCommand::CreateLink { output_port_id, input_port_id })
        } else {
            None
        }
    }

    /// Asks for each pair in turn.
    pub fn request_links(&mut self, pairs: &Vec<(u32, u32)>) -> (r: Vec<UiCommand>)
        requires
            old(self).wf(),
        ensures
            final(self).wf(),
            final(self).state == old(self).state,
            final(self).presets == old(self).presets,
            final(self).pending@ == old(self).pending@.union(pairs@.to_set()),
            r@ == create_commands(forwarded(old(self).pending@, pairs@)),
    {
        let ghost start = self.pending@;
        let mut r: Vec<UiCommand> = Vec::new();
        let mut k: usize = 0;
        while k < pairs.len()
            invariant
                self.wf(),
                self.state == old(self).state,
                self.presets == old(self).presets,
                start == old(self).pending@,
                k <= pairs@.len(),
                self.pending@ == start.union(pairs@.take(k as int).to_set()),
                r@ == create_commands(forwarded(start, pairs@.take(k as int))),
            decreases pairs@.len() - k,
        {
            let (o, i) = pairs[k];
            let ghost prev = r@;
            proof {
                let t = pairs@.take(k + 1);
                assert(t.drop_last() =~= pairs@.take(k as int));
                assert(t.last() == (o, i));
                pairs@.take(k as int).lemma_push_to_set_commute((o, i));
                assert(t =~= pairs@.take(k as int).push((o, i)));
            }
            match self.request_link(o, i) {
                Some(c) => {
                    r.push(c);
                    proof {
                        forwarded(start, pairs@.take(k as int)).lemma_push_map_commute(
                            |p: (u32, u32)| UiCommand::CreateLink { output_port_id: p.0, input_port_id: p.1 },
                            (o, i),
                        );
                    }
                },
                None => {},
            }
            proof {
                assert(self.pending@ =~= start.union(pairs@.take(k + 1).to_set()));
            }
            k += 1;
        }
        assert(pairs@.take(k as int) =~= pairs@);
        r
    }

    /// Connects the selected output ports to the selected input ports: one
    /// output to every input, every output to one input, or else pairwise by
    /// position. Each pair goes out unless it is pending.
    pub fn connect_selected(&mut self, outputs: &Vec<u32>, inputs: &Vec<u32>) -> (r: Vec<UiCommand>)
        requires
            old(self).wf(),
        ensures
            final(self).wf(),
            final(self).state == old(self).state,
            final(self).presets == old(self).presets,
            final(self).pending@ == old(self).pending@.union(selection_pairs(outputs@, inputs@).to_set()),
            r@ == create_commands(forwarded(old(self).pending@, selection_pairs(outputs@, inputs@))),
    {
        let pairs = pair_selection(outputs, inputs);
        self.request_links(&pairs)
    }

    /// The command that deletes a link. The mirror changes only when the
    /// service confirms the removal.
    pub fn delete_link(&self, link_id: u32) -> (r: UiCommand)
        ensures
            r == (UiCommand::DeleteLink { link_id }),
    {
        UiCommand::DeleteLink { link_id }
    }

    /// Asks for the links of the active preset's rules that are resolvable,
    /// not linked and not pending, marking them pending.
    pub fn check_auto_connect(&mut self) -> (r: Vec<UiCommand>)
        requires
            old(self).wf(),
        ensures
            final(self).wf(),
            final(self).state == old(self).state,
            final(self).presets == old(self).presets,
            match old(self).presets.spec_active() {
                Some(p) => {
                    let batch = old(self).state.auto_requests(old(self).pending@, p.connections@);
                    &&& r@ == create_commands(batch)
                    &&& final(self).pending@ == old(self).pending@.union(batch.to_set())
                },
                None => r@.len() == 0 && final(self).pending@ == old(self).pending@,
            },
    {
        let mut r: Vec<UiCommand> = Vec::new();
        let rules = match self.presets.get_active_preset() {
            Some(p) => &p.connections,
            None => return r,
        };
        let ghost start = self.pending@;
        let ghost batch: Seq<(u32, u32)> = Seq::empty();
        let mut k: usize = 0;
        while k < rules.len()
            invariant
                self.wf(),
                self.state == old(self).state,
                self.presets == old(self).presets,
                start == old(self).pending@,
                k <= rules@.len(),
                batch == self.state.auto_requests(start, rules@.take(k as int)),
                self.pending@ == start.union(batch.to_set()),
                r@ == create_commands(batch),
            decreases rules@.len() - k,
        {
            proof {
                assert(rules@.take(k + 1).drop_last() =~= rules@.take(k as int));
            }
            match self.state.resolve_rule(&rules[k]) {
                Some((o, i)) => {
                    if !self.state.link_exists(o, i) && !self.pending.contains(o, i) {
                        self.pending.insert(o, i);
                        r.push(UiCommand::CreateLink { output_port_id: o, input_port_id: i });
                        proof {
                            batch.lemma_push_to_set_commute((o, i));
                            batch.lemma_push_map_commute(
                                |p: (u32, u32)| UiCommand::CreateLink { output_port_id: p.0, input_port_id: p.1 },
                                (o, i),
                            );
                            batch = batch.push((o, i));
                            assert(self.pending@ =~= start.union(batch.to_set()));
                        }
                    }
                },
                None => {},
            }
            k += 1;
        }
        assert(rules@.take(k as int) =~= rules@);
        r
    }

    /// Applies an event from the service. A confirmed link is no longer
    /// pending, nor is the pair of a known link that goes away; a new port
    /// may complete a rule of the active preset, whose requests are returned.
    pub fn handle_pw_event(&mut self, ev: PwEvent) -> (r: Vec<UiCommand>)
        requires
            old(self).wf(),
        ensures
            final(self).wf(),
            final(self).state@ == old(self).state@.apply(ev),
            final(self).presets == old(self).presets,
            ({
                let mid = pending_after(old(self).pending@, old(self).state@, ev);
                if ev is PortAdded && final(self).presets.spec_active() is Some {
                    let batch = final(self).state.auto_requests(
                        mid,
                        final(self).presets.spec_active()->0.connections@,
                    );
                    &&& r@ == create_commands(batch)
                    &&& final(self).pending@ == mid.union(batch.to_set())
                } else {
                    r@.len() == 0 && final(self).pending@ == mid
                }
            }),
    {
        let is_port = match &ev {
            PwEvent::PortAdded { .. } => true,
            _ => false,
        };
        match &ev {
            PwEvent::LinkAdded { output_port_id, input_port_id, .. } => {
                self.pending.remove(*output_port_id, *input_port_id);
            },
            PwEvent::LinkRemoved { id } => {
                let ends = match self.state.links.get(*id) {
                    Some(l) => Some((l.output_port_id, l.input_port_id)),
                    None => None,
                };
                if let Some((o, i)) = ends {
                    self.pending.remove(o, i);
                }
            },
            _ => {},
        }
        self.state.apply_event(ev);
        if is_port {
            self.check_auto_connect()
        } else {
            Vec::new()
        }
    }

    /// Makes the named preset active and asks at once for its links. An
    /// unknown name changes nothing.
    pub fn activate_preset(&mut self, name: &str) -> (r: Vec<UiCommand>)
        requires
            old(self).wf(),
        ensures
            final(self).wf(),
            final(self).state == old(self).state,
            final(self).presets.model() == old(self).presets.model(),
            old(self).presets.model().contains_key(name@) ==> {
                let batch = old(self).state.auto_requests(
                    old(self).pending@,
                    old(self).presets.model()[name@].connections@,
                );
                &&& final(self).presets.active_preset matches Some(a) && a@ == name@
                &&& r@ == create_commands(batch)
                &&& final(self).pending@ == old(self).pending@.union(batch.to_set())
            },
            !old(self).presets.model().contains_key(name@) ==> final(self).presets == old(self).presets
                && final(self).pending@ == old(self).pending@ && r@.len() == 0,
    {
        if self.presets.get_preset(name).is_none() {
            return Vec::new();
        }
        self.presets.activate_preset(name);
        self.check_auto_connect()
    }

    /// No preset is active afterwards; true when one was named active.
    pub fn deactivate_preset(&mut self) -> (r: bool)
        requires
            old(self).wf(),
        ensures
            final(self).wf(),
            final(self).state == old(self).state,
            final(self).pending == old(self).pending,
            final(self).presets.model() == old(self).presets.model(),
            final(self).presets.active_preset is None,
            r == old(self).presets.active_preset is Some,
    {
        let was = self.presets.active_preset.is_some();
        self.presets.deactivate_preset();
        was
    }

    /// Deletes a preset, deactivating it first where it is the active one;
    /// true when it was active.
    pub fn delete_preset(&mut self, name: &str) -> (r: bool)
        requires
            old(self).wf(),
        ensures
            final(self).wf(),
            final(self).state == old(self).state,
            final(self).pending == old(self).pending,
            final(self).presets.model() == old(self).presets.model().remove(name@),
            r == (old(self).presets.active_preset matches Some(a) && a@ == name@),
            r ==> final(self).presets.active_preset is None,
            !r ==> final(self).presets.active_preset == old(self).presets.active_preset,
    {
        let was = self.presets.is_active(name);
        if was {
            self.presets.deactivate_preset();
        }
        self.presets.remove_preset(name);
        was
    }

    /// Loads a preset once: asks for each resolvable rule's link that does
    /// not exist yet and counts the other rules as skipped. `None` when no
    /// preset has the name.
    pub fn load_preset(&mut self, name: &str) -> (r: Option<PresetLoad>)
        requires
            old(self).wf(),
        ensures
            final(self).wf(),
            final(self).state == old(self).state,
            final(self).presets == old(self).presets,
            r is Some <==> old(self).presets.model().contains_key(name@),
            r is None ==> final(self).pending@ == old(self).pending@,
            r matches Some(l) ==> {
                let plan = old(self).state.load_plan(old(self).presets.model()[name@].connections@);
                &&& l.commands@ == create_commands(forwarded(old(self).pending@, plan.0))
                &&& l.skipped == plan.1
                &&& final(self).pending@ == old(self).pending@.union(plan.0.to_set())
            },
    {
        let (create, skipped) = match self.presets.get_preset(name) {
            Some(p) => self.state.plan_preset_load(&p.connections),
            None => return None,
        };
        let commands = self.request_links(&create);
        Some(PresetLoad { commands, skipped })
    }

    /// Saves the current connections as a preset under this name, replacing
    /// one of the same name, and returns how many it holds. Where no link has
    /// known ends nothing is saved and the count is zero.
    pub fn save_preset(&mut self, name: &str) -> (r: usize)
        requires
            old(self).wf(),
        ensures
            final(self).wf(),
            final(self).state == old(self).state,
            final(self).pending == old(self).pending,
            final(self).presets.active_preset == old(self).presets.active_preset,
            r == link_rules(old(self).state@, old(self).state.links.items@).len(),
            r == 0 ==> final(self).presets.model() == old(self).presets.model(),
            r > 0 ==> final(self).presets.model().contains_key(name@)
                && final(self).presets.model()[name@].connections@ == link_rules(
                old(self).state@,
                old(self).state.links.items@,
            ) && final(self).presets.model() == old(self).presets.model().insert(
                name@,
                final(self).presets.model()[name@],
            ),
    {
        let connections = self.state.snapshot_rules();
        let count = connections.len();
        if count == 0 {
            return 0;
        }
        let preset = Preset { name: name.to_owned(), connections };
        self.presets.add_preset(preset);
        count
    }
}

/// Two requests for the same pair before any confirmation send one command;
/// once the link is confirmed the pair is no longer pending, and a further
/// request for it is sent again.
pub proof fn lemma_request_dedup(
    pending: Set<(u32, u32)>,
    m: GraphModel,
    pair: (u32, u32),
    link_id: u32,
    output_node_id: u32,
    input_node_id: u32,
    state: crate::messages::LinkState,
)
    requires
        !pending.contains(pair),
    ensures
        forwarded(pending, seq![pair, pair]) == seq![pair],
        ({
            let confirmed = pending_after(
                pending.insert(pair),
                m,
                PwEvent::LinkAdded {
                    id: link_id,
                    output_node_id,
                    output_port_id: pair.0,
                    input_node_id,
                    input_port_id: pair.1,
                    state,
                },
            );
            &&& !confirmed.contains(pair)
            &&& forwarded(confirmed, seq![pair]) == seq![pair]
        }),
{
    let two = seq![pair, pair];
    assert(two.drop_last() =~= seq![pair]);
    assert(seq![pair].drop_last() =~= Seq::<(u32, u32)>::empty());
    assert(Seq::<(u32, u32)>::empty().to_set() =~= Set::empty());
    assert(seq![pair].to_set().contains(pair)) by {
        assert(seq![pair][0] == pair);
    }
    let empty = Seq::<(u32, u32)>::empty();
    assert(seq![pair].last() == pair);
    assert(two.last() == pair);
    assert forall|p: Set<(u32, u32)>| !p.contains(pair) implies #[trigger] forwarded(p, seq![pair])
        == seq![pair] by {
        assert(forwarded(p, empty) == empty);
        assert(p.union(empty.to_set()) =~= p);
        assert(empty.push(pair) =~= seq![pair]);
    }
    assert(pending.union(seq![pair].to_set()).contains(pair));
    assert(forwarded(pending, seq![pair]) == seq![pair]);
    assert(forwarded(pending, two) == forwarded(pending, two.drop_last()));
    let confirmed = pending.insert(pair).remove(pair);
    assert(!confirmed.contains(pair));
}

/// When no requested pair repeats and none is pending, every request goes
/// out.
pub proof fn lemma_forwarded_all(pending: Set<(u32, u32)>, pairs: Seq<(u32, u32)>)
    requires
        pairs.no_duplicates(),
        forall|k: int| 0 <= k < pairs.len() ==> !pending.contains(#[trigger] pairs[k]),
    ensures
        forwarded(pending, pairs) == pairs,
    decreases pairs.len(),
{
    if pairs.len() > 0 {
        let init = pairs.drop_last();
        lemma_forwarded_all(pending, init);
        assert(!init.to_set().contains(pairs.last())) by {
            if init.to_set().contains(pairs.last()) {
                let k = init.index_of(pairs.last());
                assert(pairs[k] == pairs[pairs.len() - 1]);
            }
        }
        assert(pairs =~= init.push(pairs.last()));
    }
}

/// Connecting distinct selected ports of which none is pending sends one
/// request per output when there is one input, one per input when there is
/// one output, and otherwise one per position of the shorter side.
pub proof fn lemma_connect_count(pending: Set<(u32, u32)>, outputs: Seq<u32>, inputs: Seq<u32>)
    requires
        outputs.len() > 0,
        inputs.len() > 0,
        outputs.no_duplicates(),
        inputs.no_duplicates(),
        forall|o: u32, i: u32| outputs.contains(o) && inputs.contains(i) ==> !pending.contains((o, i)),
    ensures
        create_commands(forwarded(pending, selection_pairs(outputs, inputs))).len() == (if outputs.len()
            == 1 {
            inputs.len()
        } else if inputs.len() == 1 {
            outputs.len()
        } else if outputs.len() <= inputs.len() {
            outputs.len()
        } else {
            inputs.len()
        }),
{
    let pairs = selection_pairs(outputs, inputs);
    assert forall|a: int, b: int| 0 <= a < pairs.len() && 0 <= b < pairs.len() && a != b implies pairs[a]
        != pairs[b] by {
        if outputs.len() == 1 {
            assert(pairs[a].1 == inputs[a] && pairs[b].1 == inputs[b]);
        } else if inputs.len() == 1 {
            assert(pairs[a].0 == outputs[a] && pairs[b].0 == outputs[b]);
        } else {
            assert(pairs[a].0 == outputs[a] && pairs[b].0 == outputs[b]);
        }
    }
    assert forall|k: int| 0 <= k < pairs.len() implies !pending.contains(#[trigger] pairs[k]) by {
        if outputs.len() == 1 {
            assert(outputs.contains(outputs[0]) && inputs.contains(inputs[k]));
        } else if inputs.len() == 1 {
            assert(outputs.contains(outputs[k]) && inputs.contains(inputs[0]));
        } else {
            assert(outputs.contains(outputs[k]) && inputs.contains(inputs[k]));
        }
    }
    lemma_forwarded_all(pending, pairs);
}

/// A single rule whose ports exist and are not linked or pending asks for
/// exactly one link; once that link exists it asks for none.
pub proof fn lemma_single_rule(st: PwState, pending: Set<(u32, u32)>, rule: PresetConnection)
    requires
        st.rule_ends(rule) is Some,
    ensures
        ({
            let pair = st.rule_ends(rule)->0;
            let asked = st.auto_requests(pending, seq![rule]);
            &&& !st@.has_link_between(pair.0, pair.1) && !pending.contains(pair) ==> asked == seq![pair]
            &&& st@.has_link_between(pair.0, pair.1) ==> asked.len() == 0
            &&& pending.contains(pair) ==> asked.len() == 0
        }),
{
    assert(seq![rule].drop_last() =~= Seq::<PresetConnection>::empty());
    assert(seq![rule].last() == rule);
    assert(st.auto_requests(pending, Seq::<PresetConnection>::empty()) == Seq::<(u32, u32)>::empty());
    assert(Seq::<(u32, u32)>::empty().to_set() =~= Set::empty());
    assert(pending.union(Set::empty()) =~= pending);
    assert(Seq::<(u32, u32)>::empty().push(st.rule_ends(rule)->0) =~= seq![st.rule_ends(rule)->0]);
}

} // verus!
