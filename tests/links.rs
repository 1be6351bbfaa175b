use pw_audioshare::manager::LinkManager;
use pw_audioshare::matcher::pair_selection;
use pw_audioshare::messages::{LinkState, MediaType, PortDirection, PwEvent, UiCommand};
use pw_audioshare::pending::PendingLinks;
use pw_audioshare::presets::{Preset, PresetConnection, PresetStore};

fn create(o: u32, i: u32) -> UiCommand {
    UiCommand::CreateLink { output_port_id: o, input_port_id: i }
}

fn node(id: u32, name: &str) -> PwEvent {
    PwEvent::NodeAdded {
        id,
        name: name.to_string(),
        media_class: Some("Audio/Sink".to_string()),
        description: None,
        application_name: None,
    }
}

fn port(id: u32, node_id: u32, name: &str, direction: PortDirection) -> PwEvent {
    PwEvent::PortAdded {
        id,
        node_id,
        name: name.to_string(),
        alias: None,
        direction,
        media_type: MediaType::Audio,
        channel: None,
    }
}

fn link(id: u32, out: u32, inp: u32) -> PwEvent {
    PwEvent::LinkAdded {
        id,
        output_node_id: 0,
        output_port_id: out,
        input_node_id: 0,
        input_port_id: inp,
        state: LinkState::Active,
    }
}

fn rule(on: &str, op: &str, inn: &str, ip: &str) -> PresetConnection {
    PresetConnection {
        output_node: on.to_string(),
        output_port: op.to_string(),
        input_node: inn.to_string(),
        input_port: ip.to_string(),
    }
}

fn store_with(name: &str, rules: Vec<PresetConnection>) -> PresetStore {
    let mut s = PresetStore::new();
    s.add_preset(Preset { name: name.to_string(), connections: rules });
    s
}

#[test]
fn duplicate_request_forwarded_once() {
    let mut m = LinkManager::new(PresetStore::new());
    assert_eq!(m.request_link(10, 20), Some(create(10, 20)));
    assert_eq!(m.request_link(10, 20), None);
    assert!(m.pending.contains(10, 20));
    let cmds = m.handle_pw_event(link(100, 10, 20));
    assert!(cmds.is_empty());
    assert!(!m.pending.contains(10, 20));
    assert_eq!(m.request_link(10, 20), Some(create(10, 20)));
}

#[test]
fn removed_link_clears_pending() {
    let mut m = LinkManager::new(PresetStore::new());
    m.handle_pw_event(link(100, 1, 2));
    assert_eq!(m.request_link(1, 2), Some(create(1, 2)));
    m.handle_pw_event(PwEvent::LinkRemoved { id: 100 });
    assert!(!m.pending.contains(1, 2));
    assert!(!m.state.link_exists(1, 2));
    m.handle_pw_event(PwEvent::LinkRemoved { id: 100 });
    assert_eq!(m.pending.len(), 0);
}

#[test]
fn pending_set_basics() {
    let mut p = PendingLinks::new();
    assert!(p.insert(1, 2));
    assert!(!p.insert(1, 2));
    assert!(p.insert(2, 1));
    assert_eq!(p.len(), 2);
    assert!(p.remove(1, 2));
    assert!(!p.remove(1, 2));
    assert!(!p.contains(1, 2));
    assert!(p.contains(2, 1));
}

#[test]
fn connect_one_output_to_three_inputs() {
    let mut m = LinkManager::new(PresetStore::new());
    let cmds = m.connect_selected(&vec![1], &vec![5, 6, 7]);
    assert_eq!(cmds, vec![create(1, 5), create(1, 6), create(1, 7)]);
}

#[test]
fn connect_three_outputs_to_one_input() {
    let mut m = LinkManager::new(PresetStore::new());
    let cmds = m.connect_selected(&vec![1, 2, 3], &vec![9]);
    assert_eq!(cmds, vec![create(1, 9), create(2, 9), create(3, 9)]);
}

#[test]
fn connect_three_by_three_pairwise() {
    let mut m = LinkManager::new(PresetStore::new());
    let cmds = m.connect_selected(&vec![1, 2, 3], &vec![7, 8, 9]);
    assert_eq!(cmds, vec![create(1, 7), create(2, 8), create(3, 9)]);
}

#[test]
fn connect_three_by_two_pairwise() {
    let mut m = LinkManager::new(PresetStore::new());
    let cmds = m.connect_selected(&vec![1, 2, 3], &vec![7, 8]);
    assert_eq!(cmds, vec![create(1, 7), create(2, 8)]);
}

#[test]
fn connect_with_empty_side_does_nothing() {
    let mut m = LinkManager::new(PresetStore::new());
    assert!(m.connect_selected(&vec![], &vec![7, 8]).is_empty());
    assert!(m.connect_selected(&vec![1], &vec![]).is_empty());
    assert_eq!(m.pending.len(), 0);
}

#[test]
fn connect_skips_pending_pairs() {
    let mut m = LinkManager::new(PresetStore::new());
    m.request_link(1, 6);
    let cmds = m.connect_selected(&vec![1], &vec![5, 6, 7]);
    assert_eq!(cmds, vec![create(1, 5), create(1, 7)]);
}

#[test]
fn selection_pairs_shapes() {
    assert_eq!(pair_selection(&vec![4], &vec![1, 2]), vec![(4, 1), (4, 2)]);
    assert_eq!(pair_selection(&vec![4, 5], &vec![1]), vec![(4, 1), (5, 1)]);
    assert_eq!(pair_selection(&vec![4, 5], &vec![1, 2, 3]), vec![(4, 1), (5, 2)]);
}

#[test]
fn single_rule_connects_once() {
    let rules = vec![rule("player", "out_FL", "speakers", "in_FL")];
    let mut m = LinkManager::new(store_with("stereo", rules));
    m.handle_pw_event(node(1, "player"));
    m.handle_pw_event(node(2, "speakers"));
    assert!(m.handle_pw_event(port(10, 1, "out_FL", PortDirection::Output)).is_empty());
    assert!(m.handle_pw_event(port(20, 2, "in_FL", PortDirection::Input)).is_empty());
    let cmds = m.activate_preset("stereo");
    assert_eq!(cmds, vec![create(10, 20)]);
    assert!(m.check_auto_connect().is_empty());
    m.handle_pw_event(link(100, 10, 20));
    assert!(!m.pending.contains(10, 20));
    assert!(m.check_auto_connect().is_empty());
}

#[test]
fn new_port_completes_active_rule() {
    let rules = vec![rule("player", "out_FL", "speakers", "in_FL")];
    let mut m = LinkManager::new(store_with("stereo", rules));
    assert!(m.activate_preset("stereo").is_empty());
    m.handle_pw_event(node(1, "player"));
    m.handle_pw_event(node(2, "speakers"));
    assert!(m.handle_pw_event(port(10, 1, "out_FL", PortDirection::Output)).is_empty());
    let cmds = m.handle_pw_event(port(20, 2, "in_FL", PortDirection::Input));
    assert_eq!(cmds, vec![create(10, 20)]);
    let again = m.handle_pw_event(port(30, 2, "in_FR", PortDirection::Input));
    assert!(again.is_empty());
}

#[test]
fn link_removal_does_not_reconnect() {
    let rules = vec![rule("player", "out_FL", "speakers", "in_FL")];
    let mut m = LinkManager::new(store_with("stereo", rules));
    m.handle_pw_event(node(1, "player"));
    m.handle_pw_event(node(2, "speakers"));
    m.handle_pw_event(port(10, 1, "out_FL", PortDirection::Output));
    m.handle_pw_event(port(20, 2, "in_FL", PortDirection::Input));
    assert_eq!(m.activate_preset("stereo"), vec![create(10, 20)]);
    m.handle_pw_event(link(100, 10, 20));
    assert!(m.handle_pw_event(PwEvent::LinkRemoved { id: 100 }).is_empty());
    assert_eq!(m.handle_pw_event(port(40, 2, "in_RR", PortDirection::Input)), vec![create(10, 20)]);
}

#[test]
fn unknown_preset_activation_changes_nothing() {
    let mut m = LinkManager::new(PresetStore::new());
    assert!(m.activate_preset("missing").is_empty());
    assert!(m.presets.active_preset.is_none());
    assert!(!m.deactivate_preset());
}

#[test]
fn load_preset_counts_created_and_skipped() {
    let rules = vec![
        rule("player", "out_FL", "speakers", "in_FL"),
        rule("player", "out_FR", "speakers", "in_FR"),
        rule("ghost", "out", "speakers", "in_FL"),
    ];
    let mut m = LinkManager::new(store_with("stereo", rules));
    m.handle_pw_event(node(1, "player"));
    m.handle_pw_event(node(2, "speakers"));
    m.handle_pw_event(port(10, 1, "out_FL", PortDirection::Output));
    m.handle_pw_event(port(11, 1, "out_FR", PortDirection::Output));
    m.handle_pw_event(port(20, 2, "in_FL", PortDirection::Input));
    m.handle_pw_event(port(21, 2, "in_FR", PortDirection::Input));
    m.handle_pw_event(link(100, 11, 21));
    let load = m.load_preset("stereo").unwrap();
    assert_eq!(load.commands, vec![create(10, 20)]);
    assert_eq!(load.skipped, 2);
    assert!(m.load_preset("nope").is_none());
}

#[test]
fn save_and_delete_preset() {
    let mut m = LinkManager::new(PresetStore::new());
    assert_eq!(m.save_preset("empty"), 0);
    assert!(m.presets.get_preset("empty").is_none());
    m.handle_pw_event(node(1, "player"));
    m.handle_pw_event(node(2, "speakers"));
    m.handle_pw_event(port(10, 1, "out_FL", PortDirection::Output));
    m.handle_pw_event(port(20, 2, "in_FL", PortDirection::Input));
    m.handle_pw_event(link(100, 10, 20));
    m.handle_pw_event(link(101, 10, 99));
    assert_eq!(m.save_preset("mine"), 1);
    let saved = m.presets.get_preset("mine").unwrap();
    assert_eq!(saved.connections.len(), 1);
    assert_eq!(saved.connections[0].output_node, "player");
    assert_eq!(saved.connections[0].output_port, "out_FL");
    assert_eq!(saved.connections[0].input_node, "speakers");
    assert_eq!(saved.connections[0].input_port, "in_FL");
    m.activate_preset("mine");
    assert!(m.presets.is_active("mine"));
    assert!(m.delete_preset("mine"));
    assert!(m.presets.active_preset.is_none());
    assert!(m.presets.get_preset("mine").is_none());
    assert!(!m.delete_preset("mine"));
}

#[test]
fn delete_link_command() {
    let m = LinkManager::new(PresetStore::new());
    assert_eq!(m.delete_link(42), UiCommand::DeleteLink { link_id: 42 });
}
