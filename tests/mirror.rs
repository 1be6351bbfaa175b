use pw_audioshare::messages::{LinkState, MediaType, PortDirection, PwEvent};
use pw_audioshare::state::{media_from_class, PwNode, PwPort, PwState};

fn node(id: u32, name: &str, class: Option<&str>) -> PwEvent {
    PwEvent::NodeAdded {
        id,
        name: name.to_string(),
        media_class: class.map(|c| c.to_string()),
        description: None,
        application_name: None,
    }
}

fn port(id: u32, node_id: u32, direction: PortDirection, media_type: MediaType) -> PwEvent {
    PwEvent::PortAdded {
        id,
        node_id,
        name: format!("port{}", id),
        alias: None,
        direction,
        media_type,
        channel: None,
    }
}

fn link(id: u32, out: u32, inp: u32) -> PwEvent {
    PwEvent::LinkAdded {
        id,
        output_node_id: 0,
        output_port_id: out,
        input_node_id: 0,
        input_port_id: inp,
        state: LinkState::Active,
    }
}

#[test]
fn scenario_node_ports_link() {
    let mut st = PwState::new();
    st.apply_event(node(1, "app", None));
    st.apply_event(port(10, 1, PortDirection::Output, MediaType::Audio));
    st.apply_event(port(20, 1, PortDirection::Input, MediaType::Audio));
    st.apply_event(PwEvent::LinkAdded {
        id: 100,
        output_node_id: 1,
        output_port_id: 10,
        input_node_id: 1,
        input_port_id: 20,
        state: LinkState::Active,
    });
    assert!(st.link_exists(10, 20));
    assert_eq!(st.find_link(10, 20).unwrap().id, 100);
    assert!(!st.link_exists(20, 10));
    assert!(st.find_link(20, 10).is_none());
}

#[test]
fn replay_counts_net_adds_and_removes() {
    let mut st = PwState::new();
    let events = vec![
        node(1, "a", None),
        node(2, "b", None),
        port(10, 1, PortDirection::Output, MediaType::Audio),
        port(11, 2, PortDirection::Input, MediaType::Audio),
        link(100, 10, 11),
        PwEvent::NodeRemoved { id: 2 },
        PwEvent::PortRemoved { id: 11 },
        node(3, "c", None),
        PwEvent::Connected,
    ];
    for ev in events {
        st.apply_event(ev);
    }
    assert_eq!(st.nodes.len(), 2);
    assert_eq!(st.ports.len(), 1);
    assert_eq!(st.links.len(), 1);
    assert!(st.nodes.get(2).is_none());
    assert!(st.ports.get(11).is_none());
    assert!(st.nodes.get(3).is_some());
}

#[test]
fn re_adding_an_id_replaces_it() {
    let mut st = PwState::new();
    st.apply_event(node(1, "first", None));
    st.apply_event(node(1, "second", None));
    assert_eq!(st.nodes.len(), 1);
    assert_eq!(st.nodes.get(1).unwrap().name, "second");
}

#[test]
fn removal_twice_is_a_no_op() {
    let mut st = PwState::new();
    st.apply_event(node(1, "a", None));
    st.apply_event(port(10, 1, PortDirection::Output, MediaType::Audio));
    st.apply_event(link(100, 10, 10));
    for _ in 0..2 {
        st.apply_event(PwEvent::NodeRemoved { id: 10 });
        st.apply_event(PwEvent::PortRemoved { id: 10 });
        st.apply_event(PwEvent::LinkRemoved { id: 10 });
    }
    assert_eq!(st.nodes.len(), 1);
    assert_eq!(st.ports.len(), 0);
    assert_eq!(st.links.len(), 1);
    assert!(st.remove_link(999).is_none());
    st.remove_node(999);
    st.remove_port(999);
    assert_eq!(st.nodes.len(), 1);
}

#[test]
fn media_resolved_from_node_class() {
    let mut st = PwState::new();
    st.apply_event(node(1, "midi", Some("Midi/Bridge")));
    st.apply_event(node(2, "cam", Some("Video/Source")));
    st.apply_event(node(3, "sink", Some("Audio/Sink")));
    st.apply_event(node(4, "app", Some("Stream/Output/Audio")));
    st.apply_event(node(5, "odd", Some("Something/Else")));
    st.apply_event(node(6, "bare", None));
    for (pid, nid) in [(11, 1), (12, 2), (13, 3), (14, 4), (15, 5), (16, 6), (17, 99)] {
        st.apply_event(port(pid, nid, PortDirection::Output, MediaType::Unknown));
    }
    assert_eq!(st.ports.get(11).unwrap().media_type, MediaType::Midi);
    assert_eq!(st.ports.get(12).unwrap().media_type, MediaType::Video);
    assert_eq!(st.ports.get(13).unwrap().media_type, MediaType::Audio);
    assert_eq!(st.ports.get(14).unwrap().media_type, MediaType::Audio);
    assert_eq!(st.ports.get(15).unwrap().media_type, MediaType::Unknown);
    assert_eq!(st.ports.get(16).unwrap().media_type, MediaType::Unknown);
    assert_eq!(st.ports.get(17).unwrap().media_type, MediaType::Unknown);
}

#[test]
fn known_media_type_is_kept() {
    let mut st = PwState::new();
    st.apply_event(node(1, "cam", Some("Video/Source")));
    st.apply_event(port(10, 1, PortDirection::Output, MediaType::Midi));
    assert_eq!(st.ports.get(10).unwrap().media_type, MediaType::Midi);
}

#[test]
fn media_from_lowercase_class() {
    assert_eq!(media_from_class("video/source", MediaType::Unknown), MediaType::Video);
    assert_eq!(media_from_class("midi/bridge", MediaType::Unknown), MediaType::Midi);
    assert_eq!(media_from_class("stream/input", MediaType::Unknown), MediaType::Audio);
    assert_eq!(media_from_class("nothing", MediaType::Unknown), MediaType::Unknown);
    assert_eq!(media_from_class("Video/Source", MediaType::Unknown), MediaType::Unknown);
}

#[test]
fn link_state_change() {
    let mut st = PwState::new();
    st.apply_event(link(100, 1, 2));
    st.apply_event(PwEvent::LinkStateChanged { id: 100, state: LinkState::Paused });
    assert_eq!(st.links.get(100).unwrap().state, LinkState::Paused);
    st.apply_event(PwEvent::LinkStateChanged { id: 7, state: LinkState::Error });
    assert_eq!(st.links.len(), 1);
}

#[test]
fn port_queries() {
    let mut st = PwState::new();
    st.apply_event(node(1, "a", None));
    st.apply_event(node(2, "b", None));
    st.apply_event(port(10, 1, PortDirection::Output, MediaType::Audio));
    st.apply_event(port(11, 1, PortDirection::Input, MediaType::Audio));
    st.apply_event(port(12, 2, PortDirection::Output, MediaType::Audio));
    st.apply_event(port(13, 3, PortDirection::Input, MediaType::Audio));
    let outs: Vec<u32> = st.output_ports().iter().map(|p| p.id).collect();
    let ins: Vec<u32> = st.input_ports().iter().map(|p| p.id).collect();
    let of1: Vec<u32> = st.get_node_ports(1).iter().map(|p| p.id).collect();
    assert_eq!(outs, vec![10, 12]);
    assert_eq!(ins, vec![11, 13]);
    assert_eq!(of1, vec![10, 11]);
    assert_eq!(st.get_port_node(12).unwrap().id, 2);
    assert!(st.get_port_node(13).is_none());
    assert!(st.get_port_node(99).is_none());
}

#[test]
fn display_names() {
    let n = PwNode {
        id: 1,
        name: "alsa_output".to_string(),
        media_class: None,
        description: Some("Speakers".to_string()),
        application_name: Some("Player".to_string()),
    };
    assert_eq!(n.display_name(), "Speakers");
    let n2 = PwNode { description: None, ..n.clone() };
    assert_eq!(n2.display_name(), "Player");
    let n3 = PwNode { application_name: None, ..n2.clone() };
    assert_eq!(n3.display_name(), "alsa_output");
    let p = PwPort {
        id: 5,
        node_id: 1,
        name: "output_FL".to_string(),
        alias: Some("Front Left".to_string()),
        direction: PortDirection::Output,
        media_type: MediaType::Audio,
        channel: Some("FL".to_string()),
    };
    assert_eq!(p.display_name(), "Front Left");
    let p2 = PwPort { alias: None, ..p.clone() };
    assert_eq!(p2.display_name(), "output_FL");
}

#[test]
fn names_of_enums() {
    assert_eq!(PortDirection::Input.as_str(), "input");
    assert_eq!(PortDirection::Output.as_str(), "output");
    assert_eq!(MediaType::Audio.as_str(), "audio");
    assert_eq!(MediaType::Midi.as_str(), "midi");
    assert_eq!(MediaType::Video.as_str(), "video");
    assert_eq!(MediaType::Unknown.as_str(), "unknown");
    assert_eq!(LinkState::Active.as_str(), "active");
    assert_eq!(LinkState::Paused.as_str(), "paused");
    assert_eq!(LinkState::Error.as_str(), "error");
    assert_eq!(MediaType::default(), MediaType::Audio);
    assert_eq!(LinkState::default(), LinkState::Active);
}

#[test]
fn media_from_format() {
    assert_eq!(MediaType::from_format_dsp(Some("32 bit float mono audio")), MediaType::Audio);
    assert_eq!(MediaType::from_format_dsp(Some("8 bit raw midi")), MediaType::Midi);
    assert_eq!(MediaType::from_format_dsp(Some("32 bit float RGBA video")), MediaType::Video);
    assert_eq!(MediaType::from_format_dsp(Some("32 bit float")), MediaType::Audio);
    assert_eq!(MediaType::from_format_dsp(Some("other")), MediaType::Unknown);
    assert_eq!(MediaType::from_format_dsp(None), MediaType::Unknown);
}
