use vstd::prelude::*;
use vstd::string::StringExecFns;
use crate::messages::{format_media, LinkState, MediaType, PortDirection, PwEvent, UiCommand};
use crate::state::removal_broadcast;

verus! {

broadcast use vstd::seq_lib::group_seq_properties;

/// The kinds of registry object the bridge reports on.
#[derive(Debug, Clone, Copy, PartialEq, Eq, Structural)]
pub enum ObjectKind {
    Node,
    Port,
    Link,
    Other,
}

/// The first value stored under `key`.
pub open spec fn prop(props: Seq<(String, String)>, key: Seq<char>) -> Option<Seq<char>>
    decreases props.len(),
{
    if props.len() == 0 {
        None
    } else if props[0].0@ == key {
        Some(props[0].1@)
    } else {
        prop(props.drop_first(), key)
    }
}

/// The value under `key`, or `fallback` where there is none.
pub open spec fn prop_or(props: Seq<(String, String)>, key: Seq<char>, fallback: Seq<char>) -> Seq<
    char,
> {
    match prop(props, key) {
        Some(v) => v,
        None => fallback,
    }
}

pub open spec fn opt_view(o: Option<String>) -> Option<Seq<char>> {
    match o {
        Some(s) => Some(s@),
        None => None,
    }
}

pub open spec fn is_digit(c: char) -> bool {
    '0' <= c && c <= '9'
}

/// The number a string of decimal digits writes.
pub open spec fn digits_value(s: Seq<char>) -> nat
    decreases s.len(),
{
    if s.len() == 0 {
        0
    } else {
        digits_value(s.drop_last()) * 10 + ((s.last() as u32) - ('0' as u32)) as nat
    }
}

/// What `u32::from_str` accepts: an optional `+` and then one or more
/// decimal digits whose value fits in a `u32`.
pub open spec fn decimal_u32(s: Seq<char>) -> Option<u32> {
    let d = if s.len() > 0 && s[0] == '+' {
        s.drop_first()
    } else {
        s
    };
    if d.len() > 0 && (forall|i: int| 0 <= i < d.len() ==> is_digit(#[trigger] d[i])) && digits_value(d)
        <= u32::MAX {
        Some(digits_value(d) as u32)
    } else {
        None
    }
}

/// A numeric property, with `0` where it is missing or unreadable.
pub open spec fn prop_u32(props: Seq<(String, String)>, key: Seq<char>) -> u32 {
    match prop(props, key) {
        Some(v) => match decimal_u32(v) {
            Some(n) => n,
            None => 0,
        },
        None => 0,
    }
}

/// The decimal digits of `n`, most significant first, without leading zeros.
pub open spec fn decimal_text(n: nat) -> Seq<char>
    decreases n,
{
    if n < 10 {
        seq![(('0' as u32) + n) as char]
    } else {
        decimal_text(n / 10).push((('0' as u32) + (n % 10)) as char)
    }
}

/// Relies on `<u32 as FromStr>::from_str` (through `str::parse`): an optional
/// `+` and then decimal digits, else an error.
#[verifier::external_body]
fn parse_u32(s: &str) -> (r: Option<u32>)
    ensures
        r == decimal_u32(s@),
{
    s.parse::<u32>().ok()
}

/// Relies on `<u32 as ToString>::to_string`: the number in decimal.
#[verifier::external_body]
fn u32_text(n: u32) -> (r: String)
    ensures
        r@ == decimal_text(n as nat),
{
    n.to_string()
}

/// The first value stored under `key`.
pub fn prop_get<'a>(props: &'a Vec<(String, String)>, key: &str) -> (r: Option<&'a String>)
    ensures
        opt_view(
            match r {
                Some(v) => Some(*v),
                None => None,
            },
        ) == prop(props@, key@),
{
    let owned = key.to_owned();
    let mut i: usize = 0;
    while i < props.len()
        invariant
            owned@ == key@,
            i <= props@.len(),
            prop(props@, key@) == prop(props@.skip(i as int), key@),
        decreases props@.len() - i,
    {
        let ghost rest = props@.skip(i as int);
        assert(rest[0] == props@[i as int]);
        if props[i].0 == owned {
            return Some(&props[i].1);
        }
        assert(rest.drop_first() =~= props@.skip(i + 1));
        i += 1;
    }
    None
}

/// Reads a numeric property, with `0` where it is missing or unreadable.
pub fn prop_u32_or_zero(props: &Vec<(String, String)>, key: &str) -> (r: u32)
    ensures
        r == prop_u32(props@, key@),
{
    match prop_get(props, key) {
        Some(v) => match parse_u32(v.as_str()) {
            Some(n) => n,
            None => 0,
        },
        None => 0,
    }
}

fn prop_text_or(props: &Vec<(String, String)>, key: &str, fallback: &str) -> (r: String)
    ensures
        r@ == prop_or(props@, key@, fallback@),
{
    match prop_get(props, key) {
        Some(v) => v.clone(),
        None => fallback.to_owned(),
    }
}

fn prop_text(props: &Vec<(String, String)>, key: &str) -> (r: Option<String>)
    ensures
        opt_view(r) == prop(props@, key@),
{
    match prop_get(props, key) {
        Some(v) => Some(v.clone()),
        None => None,
    }
}

/// The port direction a `port.direction` value names, if any.
pub open spec fn direction_of(v: Option<Seq<char>>) -> Option<PortDirection> {
    match v {
        Some(d) => if d == "in"@ {
            Some(PortDirection::Input)
        } else if d == "out"@ {
            Some(PortDirection::Output)
        } else {
            None
        },
        None => None,
    }
}

/// The event that a new registry object gives: a node, a port with a
/// known direction, or a link, each read from its properties with defaults
/// for what is missing; nothing for an object without properties, a port
/// of another direction, or another kind of object.
pub open spec fn global_event(kind: ObjectKind, id: u32, props: Option<Seq<(String, String)>>, r: Option<
    PwEvent,
>) -> bool {
    match props {
        None => r is None,
        Some(ps) => match kind {
            ObjectKind::Node => match r {
                Some(PwEvent::NodeAdded { id: i, name, media_class, description, application_name }) => {
                    &&& i == id
                    &&& name@ == prop_or(ps, "node.name"@, "Unknown"@)
                    &&& opt_view(media_class) == prop(ps, "media.class"@)
                    &&& opt_view(description) == prop(ps, "node.description"@)
                    &&& opt_view(application_name) == prop(ps, "application.name"@)
                },
                _ => false,
            },
            ObjectKind::Port => match direction_of(prop(ps, "port.direction"@)) {
                Some(dir) => match r {
                    Some(PwEvent::PortAdded { id: i, node_id, name, alias, direction, media_type, channel }) => {
                        &&& i == id
                        &&& node_id == prop_u32(ps, "node.id"@)
                        &&& name@ == prop_or(ps, "port.name"@, "Unknown"@)
                        &&& opt_view(alias) == prop(ps, "port.alias"@)
                        &&& direction == dir
                        &&& media_type == format_media(prop(ps, "format.dsp"@))
                        &&& opt_view(channel) == prop(ps, "audio.channel"@)
                    },
                    _ => false,
                },
                None => r is None,
            },
            ObjectKind::Link => r == Some(
                PwEvent::LinkAdded {
                    id,
                    output_node_id: prop_u32(ps, "link.output.node"@),
                    output_port_id: prop_u32(ps, "link.output.port"@),
                    input_node_id: prop_u32(ps, "link.input.node"@),
                    input_port_id: prop_u32(ps, "link.input.port"@),
                    state: LinkState::Active,
                },
            ),
            ObjectKind::Other => r is None,
        },
    }
}

/// Turns a registry object that appeared into the event to send, if any.
pub fn global_added_event(kind: ObjectKind, id: u32, props: Option<&Vec<(String, String)>>) -> (r:
    Option<PwEvent>)
    ensures
        global_event(
            kind,
            id,
            match props {
                Some(p) => Some(p@),
                None => None,
            },
            r,
        ),
{
    let props = match props {
        Some(p) => p,
        None => return None,
    };
    match kind {
        ObjectKind::Node => Some(
            PwEvent::NodeAdded {
                id,
                name: prop_text_or(props, "node.name", "Unknown"),
                media_class: prop_text(props, "media.class"),
                description: prop_text(props, "node.description"),
                application_name: prop_text(props, "application.name"),
            },
        ),
        ObjectKind::Port => {
            let in_text = "in".to_owned();
            let out_text = "out".to_owned();
            let direction = match prop_get(props, "port.direction") {
                Some(d) => if *d == in_text {
                    PortDirection::Input
                } else if *d == out_text {
                    PortDirection::Output
                } else {
                    return None;
                },
                None => return None,
            };
            let media_type = MediaType::from_format_dsp(
                match prop_get(props, "format.dsp") {
                    Some(f) => Some(f.as_str()),
                    None => None,
                },
            );
            Some(
                PwEvent::PortAdded {
                    id,
                    node_id: prop_u32_or_zero(props, "node.id"),
                    name: prop_text_or(props, "port.name", "Unknown"),
                    alias: prop_text(props, "port.alias"),
                    direction,
                    media_type,
                    channel: prop_text(props, "audio.channel"),
                },
            )
        },
        ObjectKind::Link => Some(
            PwEvent::LinkAdded {
                id,
                output_node_id: prop_u32_or_zero(props, "link.output.node"),
                output_port_id: prop_u32_or_zero(props, "link.output.port"),
                input_node_id: prop_u32_or_zero(props, "link.input.node"),
                input_port_id: prop_u32_or_zero(props, "link.input.port"),
                state: LinkState::Active,
            },
        ),
        ObjectKind::Other => None,
    }
}

/// The events for a registry object that went away. The notification does
/// not say what kind of object it was, so it is reported as a removal of
/// each kind; the consumer ignores the ones that do not apply.
pub fn global_removed_events(id: u32) -> (r: Vec<PwEvent>)
    ensures
        r@ == removal_broadcast(id),
{
    let r = vec![PwEvent::NodeRemoved { id }, PwEvent::PortRemoved { id }, PwEvent::LinkRemoved { id }];
    assert(r@ =~= removal_broadcast(id));
    r
}

/// The commands one poll runs, in arrival order, and whether it stops the
/// loop: everything before the first `Quit`, and a stop where there is one.
pub struct TickPlan {
    pub run: Vec<UiCommand>,
    pub quit: bool,
}

/// How one poll of the command queue proceeds.
pub fn plan_tick(queued: &Vec<UiCommand>) -> (r: TickPlan)
    ensures
        r.quit <==> exists|k: int| 0 <= k < queued@.len() && queued@[k] == UiCommand::Quit,
        r.run@.len() <= queued@.len(),
        r.run@ == queued@.take(r.run@.len() as int),
        forall|k: int| 0 <= k < r.run@.len() ==> r.run@[k] != UiCommand::Quit,
        r.quit ==> queued@[r.run@.len() as int] == UiCommand::Quit,
        !r.quit ==> r.run@ == queued@,
{
    let mut run: Vec<UiCommand> = Vec::new();
    let mut k: usize = 0;
    while k < queued.len()
        invariant
            k <= queued@.len(),
            run@ == queued@.take(k as int),
            forall|j: int| 0 <= j < k ==> queued@[j] != UiCommand::Quit,
        decreases queued@.len() - k,
    {
        let c = queued[k];
        if c == UiCommand::Quit {
            return TickPlan { run, quit: true };
        }
        run.push(c);
        assert(queued@.take(k + 1) =~= queued@.take(k as int).push(c));
        k += 1;
    }
    assert(queued@.take(k as int) =~= queued@);
    TickPlan { run, quit: false }
}

/// The properties of a link to create between two ports: the two port ids
/// in decimal, and `object.linger` so that the link outlives its handle.
pub fn link_properties(output_port_id: u32, input_port_id: u32) -> (r: Vec<(String, String)>)
    ensures
        r@.len() == 3,
        r@[0].0@ == "link.output.port"@ && r@[0].1@ == decimal_text(output_port_id as nat),
        r@[1].0@ == "link.input.port"@ && r@[1].1@ == decimal_text(input_port_id as nat),
        r@[2].0@ == "object.linger"@ && r@[2].1@ == "true"@,
{
    let mut r: Vec<(String, String)> = Vec::new();
    r.push(("link.output.port".to_owned(), u32_text(output_port_id)));
    r.push(("link.input.port".to_owned(), u32_text(input_port_id)));
    r.push(("object.linger".to_owned(), "true".to_owned()));
    r
}

/// The event that reports a command that did not take effect.
pub fn command_failure(cmd: UiCommand, detail: &str) -> (r: PwEvent)
    ensures
        r matches PwEvent::Error { message } && message@ == (match cmd {
            UiCommand::CreateLink { .. } => "Failed to create connection: "@,
            UiCommand::DeleteLink { .. } => "Failed to delete connection: "@,
            UiCommand::Quit => "Failed to stop: "@,
        }) + detail@,
{
    let mut message = match cmd {
        UiCommand::CreateLink { .. } => "Failed to create connection: ".to_owned(),
        UiCommand::DeleteLink { .. } => "Failed to delete connection: ".to_owned(),
        UiCommand::Quit => "Failed to stop: ".to_owned(),
    };
    message.append(detail);
    PwEvent::Error { message }
}

} // verus!
