use pw_audioshare::presets::{Preset, PresetStore};
use pw_audioshare::settings::Settings;
use pw_audioshare::tray::TrayCommand;

fn preset(name: &str) -> Preset {
    Preset { name: name.to_string(), connections: Vec::new() }
}

#[test]
fn names_are_sorted_and_unique() {
    let mut s = PresetStore::new();
    s.add_preset(preset("zeta"));
    s.add_preset(preset("alpha"));
    s.add_preset(preset("Mid"));
    s.add_preset(preset("alpha"));
    assert_eq!(s.preset_names(), vec!["Mid".to_string(), "alpha".to_string(), "zeta".to_string()]);
}

#[test]
fn add_replaces_same_name() {
    let mut s = PresetStore::new();
    s.add_preset(preset("a"));
    let mut p = preset("a");
    p.connections.push(pw_audioshare::presets::PresetConnection {
        output_node: "n".to_string(),
        output_port: "p".to_string(),
        input_node: "m".to_string(),
        input_port: "q".to_string(),
    });
    s.add_preset(p);
    assert_eq!(s.presets.len(), 1);
    assert_eq!(s.get_preset("a").unwrap().connections.len(), 1);
}

#[test]
fn activation_follows_existing_names() {
    let mut s = PresetStore::new();
    s.add_preset(preset("a"));
    s.activate_preset("b");
    assert!(s.active_preset.is_none());
    assert!(s.get_active_preset().is_none());
    s.activate_preset("a");
    assert!(s.is_active("a"));
    assert!(!s.is_active("b"));
    assert_eq!(s.get_active_preset().unwrap().name, "a");
    s.remove_preset("a");
    assert!(s.get_active_preset().is_none());
    s.deactivate_preset();
    assert!(!s.is_active("a"));
    s.remove_preset("unknown");
    assert!(s.presets.is_empty());
}

#[test]
fn settings_default_and_tray_commands() {
    assert!(!Settings::default().start_minimized);
    assert_ne!(TrayCommand::Show, TrayCommand::Quit);
}
