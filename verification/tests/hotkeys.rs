use std::str::FromStr;
use virtual_soundboard::hotkeys::{build_hotkey_map, resolve_hotkeys, unique_bindings, HotkeyBinding, HotkeyTarget};

fn binding(hotkey: &str, clip_id: &str, volume: f32) -> HotkeyBinding<f32> {
    HotkeyBinding {
        hotkey: hotkey.to_string(),
        clip_id: clip_id.to_string(),
        volume,
    }
}

fn target(clip_id: &str, volume: f32) -> HotkeyTarget<f32> {
    HotkeyTarget { clip_id: clip_id.to_string(), volume }
}

fn hotkey_id(hotkey: &str) -> u32 {
    global_hotkey::hotkey::HotKey::from_str(hotkey).unwrap().id()
}

#[test]
fn unique_bindings_skip_blank_ones_and_keep_the_last_per_hotkey() {
    let entries = unique_bindings(vec![
        binding("Ctrl+A", "one-1", 0.5),
        binding("  ", "two-2", 1.0),
        binding("Ctrl+B", "\t", 1.0),
        binding("Ctrl+B", "three-3", 0.25),
        binding("Ctrl+A", "four-4", 0.75),
    ]);
    assert_eq!(entries.len(), 2);
    let a = entries.iter().find(|(k, _)| k == "Ctrl+A").unwrap();
    assert_eq!(a.1.clip_id, "four-4");
    assert_eq!(a.1.volume, 0.75);
    let b = entries.iter().find(|(k, _)| k == "Ctrl+B").unwrap();
    assert_eq!(b.1.clip_id, "three-3");
    assert_eq!(b.1.volume, 0.25);
}

#[test]
fn unique_bindings_of_nothing() {
    assert!(unique_bindings::<f32>(Vec::new()).is_empty());
    assert!(unique_bindings(vec![binding("", "x", 1.0), binding("Ctrl+A", "", 1.0)]).is_empty());
}

#[test]
fn hotkey_map_maps_shortcut_ids_to_targets() {
    let (keys, map) = build_hotkey_map(vec![
        binding("Ctrl+Shift+A", "air-horn-1", 0.5),
        binding("Alt+1", "bruh-2", 1.0),
        binding("", "ignored-3", 1.0),
        binding("Ctrl+Shift+A", "air-horn-9", 0.8),
    ])
    .unwrap();
    assert_eq!(keys.len(), 2);
    assert!(keys.contains(&"Ctrl+Shift+A".to_string()));
    assert!(keys.contains(&"Alt+1".to_string()));
    assert_eq!(map.len(), 2);
    let a = map.get(&hotkey_id("Ctrl+Shift+A")).unwrap();
    assert_eq!(a.clip_id, "air-horn-9");
    assert_eq!(a.volume, 0.8);
    let b = map.get(&hotkey_id("Alt+1")).unwrap();
    assert_eq!(b.clip_id, "bruh-2");
}

#[test]
fn hotkey_map_reports_a_hotkey_that_does_not_parse() {
    let err = build_hotkey_map(vec![binding("Ctrl+A", "x-1", 1.0), binding("Nope+Q+", "y-2", 1.0)])
        .err()
        .unwrap();
    let reason = global_hotkey::hotkey::HotKey::from_str("Nope+Q+").err().unwrap().to_string();
    assert_eq!(err, format!("Could not register hotkey 'Nope+Q+': {reason}"));
}

#[test]
fn hotkey_map_of_no_bindings_is_empty() {
    let (keys, map) = build_hotkey_map::<f32>(Vec::new()).unwrap();
    assert!(keys.is_empty());
    assert!(map.is_empty());
}

#[test]
fn resolve_hotkeys_later_ids_win_and_first_error_is_reported() {
    let entries = vec![
        ("Ctrl+A".to_string(), target("one-1", 1.0)),
        ("Control+A".to_string(), target("two-2", 0.5)),
        ("Ctrl+B".to_string(), target("three-3", 0.25)),
    ];
    let (keys, map) = resolve_hotkeys(entries, vec![Ok(7), Ok(7), Ok(9)]).unwrap();
    assert_eq!(keys, vec!["Ctrl+A".to_string(), "Control+A".to_string(), "Ctrl+B".to_string()]);
    assert_eq!(map.len(), 2);
    assert_eq!(map.get(&7).unwrap().clip_id, "two-2");
    assert_eq!(map.get(&9).unwrap().clip_id, "three-3");

    let entries = vec![
        ("Ctrl+A".to_string(), target("one-1", 1.0)),
        ("Bad".to_string(), target("two-2", 0.5)),
        ("Worse".to_string(), target("three-3", 0.25)),
    ];
    let err = resolve_hotkeys(entries, vec![Ok(1), Err("no key".to_string()), Err("other".to_string())])
        .err()
        .unwrap();
    assert_eq!(err, "Could not register hotkey 'Bad': no key");
}

#[test]
fn hotkeys_spelled_differently_can_share_a_shortcut() {
    let (keys, map) = build_hotkey_map(vec![binding("Ctrl+A", "one-1", 1.0), binding("control+a", "two-2", 0.5)]).unwrap();
    assert_eq!(keys.len(), 2);
    assert_eq!(hotkey_id("Ctrl+A"), hotkey_id("control+a"));
    assert_eq!(map.len(), 1);
    assert_eq!(map.get(&hotkey_id("Ctrl+A")).unwrap().clip_id, "two-2");
}

#[test]
fn cmd_or_ctrl_hotkeys_get_the_platform_reading() {
    let (keys, map) = build_hotkey_map(vec![binding("CmdOrCtrl+K", "k-1", 1.0)]).unwrap();
    assert_eq!(keys, vec!["CmdOrCtrl+K".to_string()]);
    let id = hotkey_id("CmdOrCtrl+K");
    assert!(id == hotkey_id("Ctrl+K") || id == hotkey_id("Super+K"));
    assert_eq!(map.get(&id).unwrap().clip_id, "k-1");
}
