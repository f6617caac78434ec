use dsh_pet::autostart::{set_enabled, AutostartAction};
use dsh_pet::geometry::{clamp_position, corner_position, keep_bottom};
use dsh_pet::role::{merge_character_ids, parse_manifest};
use dsh_pet::tray::{decode_tray_command, decode_tray_event, Tray, TrayCommand, TrayEvent};
use dsh_pet::wide::{run_command, run_key_path, to_wide, tray_tip, value_name};

#[test]
fn wide_strings_are_utf16_with_nul() {
    assert_eq!(to_wide("A"), vec![0x41, 0]);
    assert_eq!(to_wide(""), vec![0]);
    assert_eq!(to_wide("€😀"), vec![0x20AC, 0xD83D, 0xDE00, 0]);
    let expected: Vec<u16> = "动画 · 移动".encode_utf16().chain(std::iter::once(0)).collect();
    assert_eq!(to_wide("动画 · 移动"), expected);
}

#[test]
fn registry_names_are_encoded() {
    let path: Vec<u16> = "Software\\Microsoft\\Windows\\CurrentVersion\\Run"
        .encode_utf16()
        .chain(std::iter::once(0))
        .collect();
    assert_eq!(run_key_path(), path);
    let name: Vec<u16> = "dsh-pet-standalone".encode_utf16().chain(std::iter::once(0)).collect();
    assert_eq!(value_name(), name);
    let cmd: Vec<u16> = "\"C:\\p\\pet.exe\"".encode_utf16().chain(std::iter::once(0)).collect();
    assert_eq!(run_command("C:\\p\\pet.exe"), cmd);
}

#[test]
fn tray_tip_is_cut_to_127_units() {
    assert_eq!(tray_tip("ab"), vec![0x61, 0x62, 0]);
    let long = "x".repeat(200);
    let tip = tray_tip(&long);
    assert_eq!(tip.len(), 127);
    assert!(tip.iter().all(|u| *u == 0x78));
}

#[test]
fn tray_records_whether_the_icon_was_added() {
    let mut t = Tray::new();
    assert!(!t.is_added());
    assert!(!Tray::can_add(0));
    assert!(Tray::can_add(5));
    t.record_add(true);
    assert!(t.is_added());
    assert!(t.take_added());
    assert!(!t.take_added());
    assert!(!Tray::default().is_added());
}

#[test]
fn tray_events_and_commands_decode() {
    assert!(matches!(decode_tray_event(0x0203), TrayEvent::ToggleVisible));
    assert!(matches!(decode_tray_event(0x1_0205), TrayEvent::ShowMenu));
    assert!(matches!(decode_tray_event(0x0201), TrayEvent::Nothing));
    assert!(matches!(decode_tray_event(0x0202), TrayEvent::Nothing));
    assert!(matches!(decode_tray_event(0x0204), TrayEvent::Nothing));
    assert!(matches!(decode_tray_command(1001, 0), TrayCommand::ToggleVisible));
    assert!(matches!(decode_tray_command(1002, 0), TrayCommand::ToggleAutostart));
    assert!(matches!(decode_tray_command(1003, 0), TrayCommand::Spawn));
    assert!(matches!(decode_tray_command(1004, 0), TrayCommand::Quit));
    assert!(matches!(decode_tray_command(1101, 2), TrayCommand::SwitchCharacter(1)));
    assert!(matches!(decode_tray_command(1102, 2), TrayCommand::Nothing));
    assert!(matches!(decode_tray_command(0, 2), TrayCommand::Nothing));
}

#[test]
fn autostart_request_maps_to_registry_change() {
    assert!(matches!(set_enabled(true), AutostartAction::Enable));
    assert!(matches!(set_enabled(false), AutostartAction::Disable));
}

#[test]
fn character_list_starts_with_builtin_and_drops_repeats() {
    let found: Vec<String> = vec!["b".into(), "shenshen".into(), "a".into(), "b".into()];
    assert_eq!(merge_character_ids(&found), vec!["shenshen", "b", "a"]);
    assert_eq!(merge_character_ids(&Vec::new()), vec!["shenshen"]);
}

#[test]
fn manifest_must_be_a_json_object() {
    assert!(parse_manifest("{\"idle\": [\"a\"]}").is_some());
    assert!(parse_manifest("[1, 2]").is_none());
    assert!(parse_manifest("not json").is_none());
    assert!(parse_manifest("").is_none());
}

#[test]
fn placement_in_whole_pixels() {
    assert_eq!(corner_position(1920, 1040, 461, 281), (1920 - 461 - 24, 1040 - 281));
    let area = (0, 0, 1920, 1040);
    assert_eq!(clamp_position(-50, 900, area, 461, 281), (0, 759));
    assert_eq!(clamp_position(100, 100, area, 461, 281), (100, 100));
    assert_eq!(clamp_position(1800, -3, area, 461, 281), (1459, 0));
    assert_eq!(keep_bottom(500, 281), 220);
}
