use knx_homekit_bridge::command_mapper::{CommandMapper, CoverAction, DeviceMappings};

fn pairs(items: &[(&str, &str)]) -> Vec<(String, String)> {
    items.iter().map(|(k, v)| (k.to_string(), v.to_string())).collect()
}

fn mappings(lights: &[(&str, &str)], blinds: &[(&str, &str)], sensors: &[(&str, &str)]) -> DeviceMappings {
    DeviceMappings {
        lights: pairs(lights),
        blinds: pairs(blinds),
        dimmers: Vec::new(),
        ventilation: Vec::new(),
        scenes: Vec::new(),
        switches: Vec::new(),
        sensors: pairs(sensors),
    }
}

#[test]
fn test_device_key() {
    assert_eq!(CommandMapper::device_key("Single_1", "02"), "Single_1_page02");
    assert_eq!(CommandMapper::device_key("Single_1_page02", "02"), "Single_1_page02");
}

#[test]
fn device_key_is_idempotent_on_examples() {
    for (id, page) in [("Single_1", "02"), ("X", "01"), ("", "07"), ("a_pageb", "03")] {
        let once = CommandMapper::device_key(id, page);
        let twice = CommandMapper::device_key(&once, page);
        assert_eq!(once, twice);
    }
}

#[test]
fn device_key_keeps_ids_with_marker_anywhere() {
    assert_eq!(CommandMapper::device_key("Dimmer_page03_x", "01"), "Dimmer_page03_x");
    assert_eq!(CommandMapper::device_key("Lüftung", "05"), "Lüftung_page05");
}

#[test]
fn readonly_key_is_masked() {
    let m = CommandMapper::from_mappings(mappings(&[], &[], &[("X_page01", "READONLY")]));
    assert_eq!(m.get_command("X", "01"), None);
    assert!(m.is_readonly("X", "01"));
}

#[test]
fn mapped_key_returns_its_command() {
    let m = CommandMapper::from_mappings(mappings(&[("Single_1_page02", "12+01+00+02")], &[], &[]));
    assert_eq!(m.get_command("Single_1", "02"), Some("12+01+00+02"));
    assert_eq!(m.get_command("Single_1_page02", "09"), Some("12+01+00+02"));
    assert!(!m.is_readonly("Single_1", "02"));
}

#[test]
fn unknown_key_has_no_command() {
    let m = CommandMapper::from_mappings(mappings(&[("A_page01", "1+01+00+01")], &[], &[]));
    assert_eq!(m.get_command("B", "01"), None);
    assert!(!m.is_readonly("B", "01"));
}

#[test]
fn later_category_wins_on_duplicate_keys() {
    let m = CommandMapper::from_mappings(mappings(
        &[("K_page01", "1+01+00+01")],
        &[("K_page01", "9+01+00+01")],
        &[],
    ));
    assert_eq!(m.get_command("K", "01"), Some("9+01+00+01"));
    assert_eq!(m.all_keys(), vec!["K_page01".to_string()]);
}

#[test]
fn all_keys_lists_each_key_once() {
    let m = CommandMapper::from_mappings(mappings(
        &[("A_page01", "1"), ("B_page01", "2"), ("A_page01", "3")],
        &[],
        &[("C_page02", "READONLY")],
    ));
    let mut keys = m.all_keys();
    keys.sort();
    assert_eq!(keys, vec!["A_page01", "B_page01", "C_page02"]);
}

#[test]
fn blind_commands_need_all_three() {
    let full = CommandMapper::from_mappings(mappings(
        &[],
        &[
            ("Double3_page02_up", "5+01+00+02"),
            ("Double3_page02_stop", "5+02+00+02"),
            ("Double3_page02_down", "5+03+00+02"),
        ],
        &[],
    ));
    let b = full.get_blind_commands("Double3", "02").expect("all three mapped");
    assert_eq!(b.up, "5+01+00+02");
    assert_eq!(b.stop, "5+02+00+02");
    assert_eq!(b.down, "5+03+00+02");
    assert_eq!(full.get_cover_command("Double3", "02", CoverAction::Stop), Some("5+02+00+02"));

    let partial = CommandMapper::from_mappings(mappings(
        &[],
        &[("Double3_page02_up", "5+01+00+02"), ("Double3_page02_down", "5+03+00+02")],
        &[],
    ));
    assert!(partial.get_blind_commands("Double3", "02").is_none());

    let readonly = CommandMapper::from_mappings(mappings(
        &[],
        &[
            ("Double3_page02_up", "5+01+00+02"),
            ("Double3_page02_stop", "READONLY"),
            ("Double3_page02_down", "5+03+00+02"),
        ],
        &[],
    ));
    assert!(readonly.get_blind_commands("Double3", "02").is_none());
    assert_eq!(readonly.get_cover_command("Double3", "02", CoverAction::Stop), None);
    assert_eq!(readonly.get_cover_command("Double3", "02", CoverAction::Up), Some("5+01+00+02"));
}
