use vstd::prelude::*;
use crate::messages::{LinkState, MediaType, PortDirection, PwEvent};
use crate::table::{EntityTable, Keyed};
use crate::text::{contains_str, has_substring, lowercase_of, to_lowercase};

verus! {

broadcast use vstd::seq_lib::group_seq_properties;

/// A node of the graph: a device or an application stream.
#[derive(Debug, Clone)]
pub struct PwNode {
    pub id: u32,
    pub name: String,
    pub media_class: Option<String>,
    pub description: Option<String>,
    pub application_name: Option<String>,
}

impl PwNode {
    /// The description, else the application name, else the name.
    pub open spec fn spec_display_name(&self) -> Seq<char> {
        match self.description {
            Some(d) => d@,
            None => match self.application_name {
                Some(a) => a@,
                None => self.name@,
            },
        }
    }

    /// Returns the best display name for this node.
    pub fn display_name(&self) -> (r: &str)
        ensures
            r@ == self.spec_display_name(),
    {
        match &self.description {
            Some(d) => d.as_str(),
            None => match &self.application_name {
                Some(a) => a.as_str(),
                None => self.name.as_str(),
            },
        }
    }
}

impl Keyed for PwNode {
    open spec fn spec_id(&self) -> u32 {
        self.id
    }

    fn entity_id(&self) -> (r: u32) {
        self.id
    }
}

/// A directional endpoint on a node. `node_id` may name a node that has not
/// been seen yet.
#[derive(Debug, Clone)]
pub struct PwPort {
    pub id: u32,
    pub node_id: u32,
    pub name: String,
    pub alias: Option<String>,
    pub direction: PortDirection,
    pub media_type: MediaType,
    pub channel: Option<String>,
}

impl PwPort {
    /// The alias, else the name.
    pub open spec fn spec_display_name(&self) -> Seq<char> {
        match self.alias {
            Some(a) => a@,
            None => self.name@,
        }
    }

    /// Returns the best display name for this port.
    pub fn display_name(&self) -> (r: &str)
        ensures
            r@ == self.spec_display_name(),
    {
        match &self.alias {
            Some(a) => a.as_str(),
            None => self.name.as_str(),
        }
    }
}

impl Keyed for PwPort {
    open spec fn spec_id(&self) -> u32 {
        self.id
    }

    fn entity_id(&self) -> (r: u32) {
        self.id
    }
}

/// A connection from an output port to an input port.
#[derive(Debug, Clone, Copy, PartialEq, Eq, Structural)]
pub struct PwLink {
    pub id: u32,
    pub output_node_id: u32,
    pub output_port_id: u32,
    pub input_node_id: u32,
    pub input_port_id: u32,
    pub state: LinkState,
}

impl Keyed for PwLink {
    open spec fn spec_id(&self) -> u32 {
        self.id
    }

    fn entity_id(&self) -> (r: u32) {
        self.id
    }
}

/// The graph as maps from id to entity.
pub struct GraphModel {
    pub nodes: Map<u32, PwNode>,
    pub ports: Map<u32, PwPort>,
    pub links: Map<u32, PwLink>,
}

/// The media type read from a node's lower-cased media class, or `given`
/// where the class names none.
pub open spec fn class_media(class_lower: Seq<char>, given: MediaType) -> MediaType {
    if has_substring(class_lower, "video"@) {
        MediaType::Video
    } else if has_substring(class_lower, "midi"@) {
        MediaType::Midi
    } else if has_substring(class_lower, "audio"@) || has_substring(class_lower, "stream"@) {
        MediaType::Audio
    } else {
        given
    }
}

impl GraphModel {
    pub open spec fn empty() -> GraphModel {
        GraphModel { nodes: Map::empty(), ports: Map::empty(), links: Map::empty() }
    }

    /// A port's media type once an `Unknown` has been resolved from its
    /// owning node's media class.
    pub open spec fn resolved_media(self, node_id: u32, given: MediaType) -> MediaType {
        if given != MediaType::Unknown {
            given
        } else if self.nodes.contains_key(node_id) {
            match self.nodes[node_id].media_class {
                Some(mc) => class_media(lowercase_of(mc@), given),
                None => given,
            }
        } else {
            given
        }
    }

    /// The graph after one event.
    pub open spec fn apply(self, ev: PwEvent) -> GraphModel {
        match ev {
            PwEvent::NodeAdded { id, name, media_class, description, application_name } => GraphModel {
                nodes: self.nodes.insert(
                    id,
                    PwNode { id, name, media_class, description, application_name },
                ),
                ..self
            },
            PwEvent::NodeRemoved { id } => GraphModel { nodes: self.nodes.remove(id), ..self },
            PwEvent::PortAdded { id, node_id, name, alias, direction, media_type, channel } =>
                GraphModel {
                ports: self.ports.insert(
                    id,
                    PwPort {
                        id,
                        node_id,
                        name,
                        alias,
                        direction,
                        media_type: self.resolved_media(node_id, media_type),
                        channel,
                    },
                ),
                ..self
            },
            PwEvent::PortRemoved { id } => GraphModel { ports: self.ports.remove(id), ..self },
            PwEvent::LinkAdded {
                id,
                output_node_id,
                output_port_id,
                input_node_id,
                input_port_id,
                state,
            } => GraphModel {
                links: self.links.insert(
                    id,
                    PwLink {
                        id,
                        output_node_id,
                        output_port_id,
                        input_node_id,
                        input_port_id,
                        state,
                    },
                ),
                ..self
            },
            PwEvent::LinkRemoved { id } => GraphModel { links: self.links.remove(id), ..self },
            PwEvent::LinkStateChanged { id, state } => if self.links.contains_key(id) {
                GraphModel { links: self.links.insert(id, PwLink { state, ..self.links[id] }), ..self }
            } else {
                self
            },
            _ => self,
        }
    }

    /// The graph after a sequence of events, applied in order.
    pub open spec fn replay(self, events: Seq<PwEvent>) -> GraphModel
        decreases events.len(),
    {
        if events.len() == 0 {
            self
        } else {
            self.replay(events.drop_last()).apply(events.last())
        }
    }

    /// A link joins these two ports.
    pub open spec fn has_link_between(self, output_port_id: u32, input_port_id: u32) -> bool {
        exists|id: u32|
            #[trigger] self.links.contains_key(id) && self.links[id].output_port_id == output_port_id
                && self.links[id].input_port_id == input_port_id
    }
}

/// The three kinds of entity in the mirror.
#[derive(Clone, Copy, PartialEq, Eq, Structural)]
pub enum EntityKind {
    Node,
    Port,
    Link,
}

impl GraphModel {
    /// The ids present of one kind.
    pub open spec fn ids(self, kind: EntityKind) -> Set<u32> {
        match kind {
            EntityKind::Node => self.nodes.dom(),
            EntityKind::Port => self.ports.dom(),
            EntityKind::Link => self.links.dom(),
        }
    }
}

/// The id an event adds of this kind, if any.
pub open spec fn added_id(kind: EntityKind, ev: PwEvent) -> Option<u32> {
    match (kind, ev) {
        (EntityKind::Node, PwEvent::NodeAdded { id, .. }) => Some(id),
        (EntityKind::Port, PwEvent::PortAdded { id, .. }) => Some(id),
        (EntityKind::Link, PwEvent::LinkAdded { id, .. }) => Some(id),
        _ => None,
    }
}

/// The id an event removes of this kind, if any.
pub open spec fn removed_id(kind: EntityKind, ev: PwEvent) -> Option<u32> {
    match (kind, ev) {
        (EntityKind::Node, PwEvent::NodeRemoved { id }) => Some(id),
        (EntityKind::Port, PwEvent::PortRemoved { id }) => Some(id),
        (EntityKind::Link, PwEvent::LinkRemoved { id }) => Some(id),
        _ => None,
    }
}

/// The ids of one kind that the events added and did not remove afterwards.
pub open spec fn live_ids(events: Seq<PwEvent>, kind: EntityKind) -> Set<u32>
    decreases events.len(),
{
    if events.len() == 0 {
        Set::empty()
    } else {
        let prior = live_ids(events.drop_last(), kind);
        match added_id(kind, events.last()) {
            Some(id) => prior.insert(id),
            None => match removed_id(kind, events.last()) {
                Some(id) => prior.remove(id),
                None => prior,
            },
        }
    }
}

/// Replaying events into an empty mirror leaves, of each kind, exactly the
/// ids that were added and not removed since; so the count of each kind is
/// the net number of adds and removes, and an id just removed is absent.
pub proof fn lemma_replay_counts(events: Seq<PwEvent>, kind: EntityKind)
    ensures
        GraphModel::empty().replay(events).ids(kind) == live_ids(events, kind),
        live_ids(events, kind).finite(),
        events.len() > 0 && removed_id(kind, events.last()) is Some ==> !GraphModel::empty().replay(
            events,
        ).ids(kind).contains(removed_id(kind, events.last())->0),
    decreases events.len(),
{
    if events.len() > 0 {
        lemma_replay_counts(events.drop_last(), kind);
        let prior = GraphModel::empty().replay(events.drop_last());
        let ev = events.last();
        assert(prior.apply(ev).ids(kind) =~= live_ids(events, kind));
    } else {
        assert(GraphModel::empty().ids(kind) =~= Set::empty());
    }
}

/// The removal notification carries no type, so it is passed on as a
/// removal of each kind.
pub open spec fn removal_broadcast(id: u32) -> Seq<PwEvent> {
    seq![PwEvent::NodeRemoved { id }, PwEvent::PortRemoved { id }, PwEvent::LinkRemoved { id }]
}

/// Removing an id that is absent changes nothing, so removing the same id a
/// second time, alone or through the removal broadcast, is a no-op.
pub proof fn lemma_removal_idempotent(m: GraphModel, id: u32)
    ensures
        !m.nodes.contains_key(id) ==> m.apply(PwEvent::NodeRemoved { id }) == m,
        !m.ports.contains_key(id) ==> m.apply(PwEvent::PortRemoved { id }) == m,
        !m.links.contains_key(id) ==> m.apply(PwEvent::LinkRemoved { id }) == m,
        m.apply(PwEvent::NodeRemoved { id }).apply(PwEvent::NodeRemoved { id }) == m.apply(
            PwEvent::NodeRemoved { id },
        ),
        m.apply(PwEvent::PortRemoved { id }).apply(PwEvent::PortRemoved { id }) == m.apply(
            PwEvent::PortRemoved { id },
        ),
        m.apply(PwEvent::LinkRemoved { id }).apply(PwEvent::LinkRemoved { id }) == m.apply(
            PwEvent::LinkRemoved { id },
        ),
        m.replay(removal_broadcast(id)).replay(removal_broadcast(id)) == m.replay(
            removal_broadcast(id),
        ),
{
    assert(m.nodes.remove(id).remove(id) =~= m.nodes.remove(id));
    assert(m.ports.remove(id).remove(id) =~= m.ports.remove(id));
    assert(m.links.remove(id).remove(id) =~= m.links.remove(id));
    if !m.nodes.contains_key(id) {
        assert(m.nodes.remove(id) =~= m.nodes);
    }
    if !m.ports.contains_key(id) {
        assert(m.ports.remove(id) =~= m.ports);
    }
    if !m.links.contains_key(id) {
        assert(m.links.remove(id) =~= m.links);
    }
    let b = removal_broadcast(id);
    assert(b.drop_last().drop_last().drop_last() =~= Seq::<PwEvent>::empty());
    assert(b.drop_last().drop_last().last() == PwEvent::NodeRemoved { id });
    assert(b.drop_last().last() == PwEvent::PortRemoved { id });
    assert(b.last() == PwEvent::LinkRemoved { id });
    assert forall|g: GraphModel| #[trigger] g.replay(b) == g.apply(PwEvent::NodeRemoved { id }).apply(
        PwEvent::PortRemoved { id },
    ).apply(PwEvent::LinkRemoved { id }) by {
        let b1 = b.drop_last().drop_last();
        let b2 = b.drop_last();
        assert(b1.drop_last() =~= Seq::<PwEvent>::empty());
        assert(b2.drop_last() =~= b1);
        assert(g.replay(b1.drop_last()) == g);
        assert(g.replay(b1) == g.replay(b1.drop_last()).apply(b1.last()));
        assert(g.replay(b2) == g.replay(b1).apply(b2.last()));
        assert(g.replay(b) == g.replay(b2).apply(b.last()));
    }
    let once = m.replay(b);
    assert(once == GraphModel {
        nodes: m.nodes.remove(id),
        ports: m.ports.remove(id),
        links: m.links.remove(id),
    });
    let o2 = once.replay(b);
    assert(o2.nodes =~= once.nodes);
    assert(o2.ports =~= once.ports);
    assert(o2.links =~= once.links);
}

/// A port announced with an `Unknown` media type takes it from its owning
/// node's media class, read in lower case: "video" gives `Video`, "midi"
/// gives `Midi`, "audio" or "stream" gives `Audio`, and a class with none of
/// these, a node without a class, or a missing node leave it `Unknown`.
pub proof fn lemma_port_media_from_node(
    m: GraphModel,
    id: u32,
    node_id: u32,
    name: String,
    alias: Option<String>,
    direction: PortDirection,
    channel: Option<String>,
)
    ensures
        ({
            let after = m.apply(
                PwEvent::PortAdded {
                    id,
                    node_id,
                    name,
                    alias,
                    direction,
                    media_type: MediaType::Unknown,
                    channel,
                },
            );
            let got = after.ports[id].media_type;
            &&& after.ports.contains_key(id)
            &&& (m.nodes.contains_key(node_id) && m.nodes[node_id].media_class is Some) ==> {
                let class = lowercase_of(m.nodes[node_id].media_class->0@);
                &&& has_substring(class, "video"@) ==> got == MediaType::Video
                &&& !has_substring(class, "video"@) && has_substring(class, "midi"@) ==> got
                    == MediaType::Midi
                &&& !has_substring(class, "video"@) && !has_substring(class, "midi"@) && (
                has_substring(class, "audio"@) || has_substring(class, "stream"@)) ==> got
                    == MediaType::Audio
                &&& !has_substring(class, "video"@) && !has_substring(class, "midi"@)
                    && !has_substring(class, "audio"@) && !has_substring(class, "stream"@) ==> got
                    == MediaType::Unknown
            }
            &&& !(m.nodes.contains_key(node_id) && m.nodes[node_id].media_class is Some) ==> got
                == MediaType::Unknown
        }),
{
}

/// Which ports a selection keeps.
#[derive(Clone, Copy)]
pub enum PortFilter {
    OfNode(u32),
    Towards(PortDirection),
}

pub open spec fn port_kept(f: PortFilter, p: PwPort) -> bool {
    match f {
        PortFilter::OfNode(n) => p.node_id == n,
        PortFilter::Towards(d) => p.direction == d,
    }
}

/// The mirror of the graph: every node, port and link the service has
/// announced and not yet removed.
pub struct PwState {
    pub nodes: EntityTable<PwNode>,
    pub ports: EntityTable<PwPort>,
    pub links: EntityTable<PwLink>,
}

impl View for PwState {
    type V = GraphModel;

    open spec fn view(&self) -> GraphModel {
        GraphModel { nodes: self.nodes.model(), ports: self.ports.model(), links: self.links.model() }
    }
}

/// The media type read from a lower-cased media class, or `given` where the
/// class names none.
pub fn media_from_class(class_lower: &str, given: MediaType) -> (r: MediaType)
    ensures
        r == class_media(class_lower@, given),
{
    if contains_str(class_lower, "video") {
        MediaType::Video
    } else if contains_str(class_lower, "midi") {
        MediaType::Midi
    } else if contains_str(class_lower, "audio") || contains_str(class_lower, "stream") {
        MediaType::Audio
    } else {
        given
    }
}

impl PwState {
    pub open spec fn wf(&self) -> bool {
        self.nodes.wf() && self.ports.wf() && self.links.wf()
    }

    pub fn new() -> (s: Self)
        ensures
            s.wf(),
            s@ == GraphModel::empty(),
    {
        let s = PwState { nodes: EntityTable::new(), ports: EntityTable::new(), links: EntityTable::new() };
        assert(s@ =~= GraphModel::empty());
        s
    }

    pub fn apply_node_added(&mut self, node: PwNode)
        requires
            old(self).wf(),
        ensures
            final(self).wf(),
            final(self)@ == (GraphModel { nodes: old(self)@.nodes.insert(node.id, node), ..old(self)@ }),
    {
        self.nodes.upsert(node);
    }

    /// Removes the node; an unknown id is no error and changes nothing.
    pub fn remove_node(&mut self, id: u32)
        requires
            old(self).wf(),
        ensures
            final(self).wf(),
            final(self)@ == (GraphModel { nodes: old(self)@.nodes.remove(id), ..old(self)@ }),
    {
        let _ = self.nodes.remove(id);
    }

    /// The media type a new port gets: `given`, unless that is `Unknown` and
    /// the owning node's media class names one.
    pub fn resolve_media(&self, node_id: u32, given: MediaType) -> (r: MediaType)
        requires
            self.wf(),
        ensures
            r == self@.resolved_media(node_id, given),
    {
        if given != MediaType::Unknown {
            return given;
        }
        match self.nodes.get(node_id) {
            Some(n) => match &n.media_class {
                Some(mc) => {
                    let lower = to_lowercase(mc.as_str());
                    media_from_class(lower.as_str(), given)
                },
                None => given,
            },
            None => given,
        }
    }

    /// Adds the port, with an `Unknown` media type resolved from its node.
    pub fn apply_port_added(&mut self, port: PwPort)
        requires
            old(self).wf(),
        ensures
            final(self).wf(),
            final(self)@ == (GraphModel {
                ports: old(self)@.ports.insert(
                    port.id,
                    PwPort { media_type: old(self)@.resolved_media(port.node_id, port.media_type), ..port },
                ),
                ..old(self)@
            }),
    {
        let media = self.resolve_media(port.node_id, port.media_type);
        let port = PwPort { media_type: media, ..port };
        self.ports.upsert(port);
    }

    /// Removes the port; an unknown id is no error and changes nothing.
    pub fn remove_port(&mut self, id: u32)
        requires
            old(self).wf(),
        ensures
            final(self).wf(),
            final(self)@ == (GraphModel { ports: old(self)@.ports.remove(id), ..old(self)@ }),
    {
        let _ = self.ports.remove(id);
    }

    pub fn apply_link_added(&mut self, link: PwLink)
        requires
            old(self).wf(),
        ensures
            final(self).wf(),
            final(self)@ == (GraphModel { links: old(self)@.links.insert(link.id, link), ..old(self)@ }),
    {
        self.links.upsert(link);
    }

    /// Records a link's new state; an unknown id changes nothing.
    pub fn apply_link_state_changed(&mut self, id: u32, state: LinkState)
        requires
            old(self).wf(),
        ensures
            final(self).wf(),
            final(self)@ == old(self)@.apply(PwEvent::LinkStateChanged { id, state }),
    {
        let found = match self.links.get(id) {
            Some(l) => Some(*l),
            None => None,
        };
        if let Some(l) = found {
            self.links.upsert(PwLink { state, ..l });
        } else {
            assert(self@ =~= old(self)@.apply(PwEvent::LinkStateChanged { id, state }));
        }
    }

    /// Removes the link; an unknown id is no error and changes nothing.
    pub fn remove_link(&mut self, id: u32) -> (r: Option<PwLink>)
        requires
            old(self).wf(),
        ensures
            final(self).wf(),
            final(self)@ == (GraphModel { links: old(self)@.links.remove(id), ..old(self)@ }),
            r == (if old(self)@.links.contains_key(id) {
                Some(old(self)@.links[id])
            } else {
                None
            }),
    {
        self.links.remove(id)
    }

    /// Applies one event to the mirror. Events that carry no graph change
    /// (connection status, errors) leave it as it is.
    pub fn apply_event(&mut self, ev: PwEvent)
        requires
            old(self).wf(),
        ensures
            final(self).wf(),
            final(self)@ == old(self)@.apply(ev),
    {
        match ev {
            PwEvent::NodeAdded { id, name, media_class, description, application_name } => {
                self.apply_node_added(PwNode { id, name, media_class, description, application_name });
            },
            PwEvent::NodeRemoved { id } => self.remove_node(id),
            PwEvent::PortAdded { id, node_id, name, alias, direction, media_type, channel } => {
                self.apply_port_added(
                    PwPort { id, node_id, name, alias, direction, media_type, channel },
                );
            },
            PwEvent::PortRemoved { id } => self.remove_port(id),
            PwEvent::LinkAdded {
                id,
                output_node_id,
                output_port_id,
                input_node_id,
                input_port_id,
                state,
            } => {
                self.apply_link_added(
                    PwLink { id, output_node_id, output_port_id, input_node_id, input_port_id, state },
                );
            },
            PwEvent::LinkRemoved { id } => {
                let _ = self.remove_link(id);
            },
            PwEvent::LinkStateChanged { id, state } => self.apply_link_state_changed(id, state),
            _ => {},
        }
    }

    /// Get the node that owns a port.
    pub fn get_port_node(&self, port_id: u32) -> (r: Option<&PwNode>)
        requires
            self.wf(),
        ensures
            r is Some <==> self@.ports.contains_key(port_id) && self@.nodes.contains_key(
                self@.ports[port_id].node_id,
            ),
            r matches Some(n) ==> *n == self@.nodes[self@.ports[port_id].node_id],
    {
        match self.ports.get(port_id) {
            Some(p) => self.nodes.get(p.node_id),
            None => None,
        }
    }

    fn select_ports(&self, f: PortFilter) -> (r: Vec<&PwPort>)
        requires
            self.wf(),
        ensures
            r@.map_values(|p: &PwPort| *p) == self.ports.items@.filter(|p: PwPort| port_kept(f, p)),
    {
        let mut r: Vec<&PwPort> = Vec::new();
        let mut i: usize = 0;
        while i < self.ports.items.len()
            invariant
                i <= self.ports.items@.len(),
                r@.map_values(|p: &PwPort| *p) == self.ports.items@.take(i as int).filter(|p: PwPort| port_kept(f, p)),
            decreases self.ports.items@.len() - i,
        {
            let p = &self.ports.items[i];
            let keep = match f {
                PortFilter::OfNode(n) => p.node_id == n,
                PortFilter::Towards(d) => p.direction == d,
            };
            proof {
                assert(self.ports.items@.take(i + 1) =~= self.ports.items@.take(i as int).push(*p));
                self.ports.items@.take(i as int).lemma_filter_push(*p, |p: PwPort| port_kept(f, p));
            }
            let ghost prev = r@;
            assert(keep == port_kept(f, *p));
            if keep {
                r.push(p);
                proof {
                    prev.lemma_push_map_commute(|p: &PwPort| *p, p);
                }
            }
            i += 1;
        }
        assert(self.ports.items@.take(i as int) =~= self.ports.items@);
        r
    }

    /// Get all ports of a node, in arrival order.
    pub fn get_node_ports(&self, node_id: u32) -> (r: Vec<&PwPort>)
        requires
            self.wf(),
        ensures
            r@.map_values(|p: &PwPort| *p) == self.ports.items@.filter(
                |p: PwPort| p.node_id == node_id,
            ),
    {
        let r = self.select_ports(PortFilter::OfNode(node_id));
        assert((|p: PwPort| port_kept(PortFilter::OfNode(node_id), p)) =~= (|p: PwPort| p.node_id
            == node_id));
        assert(self.ports.items@.filter(|p: PwPort| port_kept(PortFilter::OfNode(node_id), p))
            =~= self.ports.items@.filter(|p: PwPort| p.node_id == node_id));
        r
    }

    /// Get all output ports (sources), in arrival order.
    pub fn output_ports(&self) -> (r: Vec<&PwPort>)
        requires
            self.wf(),
        ensures
            r@.map_values(|p: &PwPort| *p) == self.ports.items@.filter(
                |p: PwPort| p.direction == PortDirection::Output,
            ),
    {
        let r = self.select_ports(PortFilter::Towards(PortDirection::Output));
        assert((|p: PwPort| port_kept(PortFilter::Towards(PortDirection::Output), p)) =~= (|p: PwPort|
            p.direction == PortDirection::Output));
        assert(self.ports.items@.filter(
            |p: PwPort| port_kept(PortFilter::Towards(PortDirection::Output), p),
        ) =~= self.ports.items@.filter(|p: PwPort| p.direction == PortDirection::Output));
        r
    }

    /// Get all input ports (sinks), in arrival order.
    pub fn input_ports(&self) -> (r: Vec<&PwPort>)
        requires
            self.wf(),
        ensures
            r@.map_values(|p: &PwPort| *p) == self.ports.items@.filter(
                |p: PwPort| p.direction == PortDirection::Input,
            ),
    {
        let r = self.select_ports(PortFilter::Towards(PortDirection::Input));
        assert((|p: PwPort| port_kept(PortFilter::Towards(PortDirection::Input), p)) =~= (|p: PwPort|
            p.direction == PortDirection::Input));
        assert(self.ports.items@.filter(
            |p: PwPort| port_kept(PortFilter::Towards(PortDirection::Input), p),
        ) =~= self.ports.items@.filter(|p: PwPort| p.direction == PortDirection::Input));
        r
    }

    /// Find the link between two ports.
    pub fn find_link(&self, output_port_id: u32, input_port_id: u32) -> (r: Option<&PwLink>)
        requires
            self.wf(),
        ensures
            r is Some <==> self@.has_link_between(output_port_id, input_port_id),
            r matches Some(l) ==> self@.links.contains_key(l.id) && self@.links[l.id] == *l
                && l.output_port_id == output_port_id && l.input_port_id == input_port_id,
    {
        let mut i: usize = 0;
        while i < self.links.items.len()
            invariant
                self.wf(),
                i <= self.links.items@.len(),
                forall|k: int|
                    0 <= k < i ==> !(#[trigger] self.links.items@[k].output_port_id == output_port_id
                        && self.links.items@[k].input_port_id == input_port_id),
            decreases self.links.items@.len() - i,
        {
            let l = &self.links.items[i];
            if l.output_port_id == output_port_id && l.input_port_id == input_port_id {
                proof {
                    self.links.lemma_index_of(i as int);
                    assert(self@.links.contains_key(l.id));
                }
                return Some(l);
            }
            i += 1;
        }
        proof {
            assert forall|id: u32| #[trigger] self@.links.contains_key(id) implies !(
            self@.links[id].output_port_id == output_port_id && self@.links[id].input_port_id
                == input_port_id) by {
                let k = self.links.index_of(id);
                self.links.lemma_index_of(k);
            }
        }
        None
    }

    /// Check if a link joins two ports.
    pub fn link_exists(&self, output_port_id: u32, input_port_id: u32) -> (r: bool)
        requires
            self.wf(),
        ensures
            r == self@.has_link_between(output_port_id, input_port_id),
    {
        self.find_link(output_port_id, input_port_id).is_some()
    }
}

} // verus!
