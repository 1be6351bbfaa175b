use pw_audioshare::bridge::{
    command_failure, global_added_event, global_removed_events, link_properties, plan_tick,
    prop_get, prop_u32_or_zero, ObjectKind,
};
use pw_audioshare::messages::{LinkState, MediaType, PortDirection, PwEvent, UiCommand};

fn props(pairs: &[(&str, &str)]) -> Vec<(String, String)> {
    pairs.iter().map(|(k, v)| (k.to_string(), v.to_string())).collect()
}

#[test]
fn node_event_from_properties() {
    let p = props(&[("node.name", "speakers"), ("media.class", "Audio/Sink"), ("application.name", "pw")]);
    match global_added_event(ObjectKind::Node, 7, Some(&p)) {
        Some(PwEvent::NodeAdded { id, name, media_class, description, application_name }) => {
            assert_eq!(id, 7);
            assert_eq!(name, "speakers");
            assert_eq!(media_class.as_deref(), Some("Audio/Sink"));
            assert_eq!(description, None);
            assert_eq!(application_name.as_deref(), Some("pw"));
        }
        other => panic!("unexpected {:?}", other),
    }
}

#[test]
fn node_without_name_is_unknown() {
    let p = props(&[]);
    match global_added_event(ObjectKind::Node, 3, Some(&p)) {
        Some(PwEvent::NodeAdded { name, .. }) => assert_eq!(name, "Unknown"),
        other => panic!("unexpected {:?}", other),
    }
}

#[test]
fn port_event_with_defaults() {
    let p = props(&[("port.direction", "out"), ("node.id", "42"), ("format.dsp", "32 bit float mono audio")]);
    match global_added_event(ObjectKind::Port, 9, Some(&p)) {
        Some(PwEvent::PortAdded { id, node_id, name, direction, media_type, .. }) => {
            assert_eq!(id, 9);
            assert_eq!(node_id, 42);
            assert_eq!(name, "Unknown");
            assert_eq!(direction, PortDirection::Output);
            assert_eq!(media_type, MediaType::Audio);
        }
        other => panic!("unexpected {:?}", other),
    }
    let bad = props(&[("port.direction", "in"), ("node.id", "forty")]);
    match global_added_event(ObjectKind::Port, 9, Some(&bad)) {
        Some(PwEvent::PortAdded { node_id, direction, media_type, .. }) => {
            assert_eq!(node_id, 0);
            assert_eq!(direction, PortDirection::Input);
            assert_eq!(media_type, MediaType::Unknown);
        }
        other => panic!("unexpected {:?}", other),
    }
}

#[test]
fn port_without_direction_is_dropped() {
    let p = props(&[("port.direction", "sideways")]);
    assert!(global_added_event(ObjectKind::Port, 9, Some(&p)).is_none());
    let q = props(&[("port.name", "x")]);
    assert!(global_added_event(ObjectKind::Port, 9, Some(&q)).is_none());
    assert!(global_added_event(ObjectKind::Node, 9, None).is_none());
    assert!(global_added_event(ObjectKind::Other, 9, Some(&q)).is_none());
}

#[test]
fn link_event_from_properties() {
    let p = props(&[
        ("link.output.node", "1"),
        ("link.output.port", "+10"),
        ("link.input.node", "2"),
        ("link.input.port", "99999999999"),
    ]);
    match global_added_event(ObjectKind::Link, 100, Some(&p)) {
        Some(PwEvent::LinkAdded { id, output_node_id, output_port_id, input_node_id, input_port_id, state }) => {
            assert_eq!(id, 100);
            assert_eq!(output_node_id, 1);
            assert_eq!(output_port_id, 10);
            assert_eq!(input_node_id, 2);
            assert_eq!(input_port_id, 0);
            assert_eq!(state, LinkState::Active);
        }
        other => panic!("unexpected {:?}", other),
    }
}

#[test]
fn numeric_properties() {
    let p = props(&[("a", "4294967295"), ("b", "4294967296"), ("c", ""), ("d", "-1"), ("a", "5")]);
    assert_eq!(prop_u32_or_zero(&p, "a"), 4294967295);
    assert_eq!(prop_u32_or_zero(&p, "b"), 0);
    assert_eq!(prop_u32_or_zero(&p, "c"), 0);
    assert_eq!(prop_u32_or_zero(&p, "d"), 0);
    assert_eq!(prop_u32_or_zero(&p, "zz"), 0);
    assert_eq!(prop_get(&p, "a").map(|s| s.as_str()), Some("4294967295"));
}

#[test]
fn removal_is_broadcast_to_every_kind() {
    let evs = global_removed_events(5);
    assert_eq!(evs.len(), 3);
    assert!(matches!(evs[0], PwEvent::NodeRemoved { id: 5 }));
    assert!(matches!(evs[1], PwEvent::PortRemoved { id: 5 }));
    assert!(matches!(evs[2], PwEvent::LinkRemoved { id: 5 }));
}

#[test]
fn tick_runs_until_quit() {
    let q = vec![
        UiCommand::CreateLink { output_port_id: 1, input_port_id: 2 },
        UiCommand::DeleteLink { link_id: 3 },
        UiCommand::Quit,
        UiCommand::DeleteLink { link_id: 4 },
    ];
    let plan = plan_tick(&q);
    assert!(plan.quit);
    assert_eq!(plan.run, q[..2].to_vec());
    let plan2 = plan_tick(&q[..2].to_vec());
    assert!(!plan2.quit);
    assert_eq!(plan2.run, q[..2].to_vec());
    assert!(plan_tick(&vec![]).run.is_empty());
}

#[test]
fn link_creation_properties() {
    let p = link_properties(10, 2048);
    assert_eq!(p, props(&[("link.output.port", "10"), ("link.input.port", "2048"), ("object.linger", "true")]));
}

#[test]
fn failure_messages() {
    match command_failure(UiCommand::CreateLink { output_port_id: 1, input_port_id: 2 }, "busy") {
        PwEvent::Error { message } => assert_eq!(message, "Failed to create connection: busy"),
        other => panic!("unexpected {:?}", other),
    }
    match command_failure(UiCommand::DeleteLink { link_id: 1 }, "gone") {
        PwEvent::Error { message } => assert_eq!(message, "Failed to delete connection: gone"),
        other => panic!("unexpected {:?}", other),
    }
}
