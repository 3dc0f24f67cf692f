use knx_homekit_bridge::classify::{
    detect_device_type, device_from_element, next_discovery_page, page_label, parse_devices,
    classify_lowered, RawElement,
};
use knx_homekit_bridge::device::{DeviceState, DeviceType};
use knx_homekit_bridge::discovery::{
    categorize, clean_key, element_mappings, icon_type, login_wait_step, render_mappings,
    ElementRecord, LoginWait, MappingCategory, PageScan,
};

fn element(id: Option<&str>, name: Option<&str>, classes: &str, button: Option<&str>) -> RawElement {
    RawElement {
        id: id.map(String::from),
        index: Some("12".to_string()),
        name_text: name.map(String::from),
        classes: Some(classes.to_string()),
        button_classes: button.map(String::from),
    }
}

#[test]
fn type_detection() {
    assert_eq!(detect_device_type("visu-element", "TEMP. Küche"), DeviceType::TemperatureSensor);
    assert_eq!(detect_device_type("visu-element", "Außentemperatur"), DeviceType::TemperatureSensor);
    assert_eq!(detect_device_type("visu-element visu-slider", "Licht"), DeviceType::Dimmer);
    assert_eq!(detect_device_type("visu-shifter", "Rollo"), DeviceType::WindowCovering);
    assert_eq!(detect_device_type("visu-element", "SZENE Abend"), DeviceType::Scene);
    assert_eq!(detect_device_type("visu-element", "LÜFTUNG Bad"), DeviceType::Fan);
    assert_eq!(detect_device_type("visu-element", "Flur"), DeviceType::Light);
    assert_eq!(classify_lowered("", "szene"), DeviceType::Scene);
    assert_eq!(classify_lowered("", "SZENE"), DeviceType::Light);
}

#[test]
fn elements_become_devices() {
    let d = device_from_element(&element(Some("Single_1"), Some("Flur"), "visu-element", Some("visu-icon btn-active")), "02").unwrap();
    assert_eq!(d.id, "Single_1");
    assert_eq!(d.name, "Flur");
    assert_eq!(d.page, "02");
    assert_eq!(d.index, "12");
    assert_eq!(d.device_type, DeviceType::Light);
    assert_eq!(d.state, DeviceState::OnOff(true));
    assert_eq!(d.key(), "Single_1_page02");

    let named_by_id = device_from_element(&element(Some("Dim_4"), None, "visu-slider", Some("visu-icon")), "01").unwrap();
    assert_eq!(named_by_id.name, "Dim_4");
    assert_eq!(named_by_id.state, DeviceState::Brightness { on: false, level: 0 });
}

#[test]
fn non_devices_are_skipped() {
    assert!(device_from_element(&element(None, Some("Flur"), "", None), "01").is_none());
    assert!(device_from_element(&element(Some("x"), Some(""), "", None), "01").is_none());
    assert!(device_from_element(&element(Some("x"), Some("Datum heute"), "", None), "01").is_none());
    assert!(device_from_element(&element(Some("x"), Some("Uhrzeit"), "", None), "01").is_none());
}

#[test]
fn parse_keeps_page_order() {
    let elems = vec![
        element(Some("a"), Some("A"), "", None),
        element(Some("b"), Some("Datum"), "", None),
        element(Some("c"), Some("C"), "visu-shifter", None),
    ];
    let devices = parse_devices(&elems, "03");
    assert_eq!(devices.len(), 2);
    assert_eq!(devices[0].id, "a");
    assert_eq!(devices[1].id, "c");
    assert_eq!(devices[1].device_type, DeviceType::WindowCovering);
    assert!(parse_devices(&Vec::new(), "01").is_empty());
}

#[test]
fn page_walk() {
    assert_eq!(page_label(1), "01");
    assert_eq!(page_label(42), "42");
    assert_eq!(page_label(99), "99");
    assert_eq!(page_label(0), "00");
    assert_eq!(next_discovery_page(1, 4), Some(2));
    assert_eq!(next_discovery_page(3, 0), None);
    assert_eq!(next_discovery_page(99, 4), None);
}

#[test]
fn mapping_scan_stops_after_two_empty_pages() {
    let s = PageScan::start();
    assert_eq!(s, PageScan { page: 1, consecutive_empty: 0 });
    let s = s.next(3).unwrap();
    assert_eq!(s, PageScan { page: 2, consecutive_empty: 0 });
    let s = s.next(0).unwrap();
    assert_eq!(s, PageScan { page: 3, consecutive_empty: 1 });
    let s2 = s.next(5).unwrap();
    assert_eq!(s2, PageScan { page: 4, consecutive_empty: 0 });
    assert_eq!(s.next(0), None);
    assert_eq!(PageScan { page: 99, consecutive_empty: 0 }.next(1), None);
}

#[test]
fn manual_login_wait() {
    assert_eq!(login_wait_step(0, true), LoginWait::LoggedIn);
    assert_eq!(login_wait_step(0, false), LoginWait::KeepWaiting);
    assert_eq!(login_wait_step(179, false), LoginWait::KeepWaiting);
    assert_eq!(login_wait_step(180, false), LoginWait::TimedOut);
    assert_eq!(login_wait_step(180, true), LoginWait::LoggedIn);
}

#[test]
fn icon_types() {
    assert_eq!(icon_type("visu-icon icon-45 btn-active"), "icon-45");
    assert_eq!(icon_type("icon-11"), "icon-11");
    assert_eq!(icon_type("visu-icon\ticon-76\nx"), "icon-76");
    assert_eq!(icon_type("myicon-3 visu"), "");
    assert_eq!(icon_type(""), "");
}

fn record(id: &str, index: &str, shifter: bool, icon: &str) -> ElementRecord {
    ElementRecord {
        id: id.to_string(),
        name: "n".to_string(),
        index: index.to_string(),
        page: "02".to_string(),
        is_shifter: shifter,
        icon_class: icon.to_string(),
    }
}

#[test]
fn element_commands() {
    let mut out = Vec::new();
    element_mappings(&record("Double3_1", "7", true, ""), &mut out);
    assert_eq!(
        out,
        vec![
            ("Double3_1_page02_up".to_string(), "7+01+00+02".to_string()),
            ("Double3_1_page02_stop".to_string(), "7+02+00+02".to_string()),
            ("Double3_1_page02_down".to_string(), "7+03+00+02".to_string()),
        ]
    );
    let mut out = Vec::new();
    element_mappings(&record("Single_1", "12", false, "visu-icon icon-3"), &mut out);
    assert_eq!(out, vec![("Single_1_page02_icon-3".to_string(), "12+01+00+02".to_string())]);
    element_mappings(&record("", "12", false, ""), &mut out);
    element_mappings(&record("x", "", false, ""), &mut out);
    assert_eq!(out.len(), 1);
}

#[test]
fn categories_and_clean_keys() {
    assert_eq!(categorize("Double3_1_page02_up"), MappingCategory::Blinds);
    assert_eq!(categorize("ExtendedSlider_2_page01_icon-1"), MappingCategory::Dimmers);
    assert_eq!(categorize("Single_1_page01_icon-45"), MappingCategory::Ventilation);
    assert_eq!(categorize("Single_1_page01_icon-11"), MappingCategory::Scenes);
    assert_eq!(categorize("Temp_1_page01_icon-2"), MappingCategory::Sensors);
    assert_eq!(categorize("Single_1_page01_icon-2"), MappingCategory::Lights);
    assert_eq!(categorize("Other_1_page01_icon-2"), MappingCategory::Switches);
    assert_eq!(clean_key("Single_1_page01_icon-2"), "Single_1_page01");
    assert_eq!(clean_key("Double3_1_page02_up"), "Double3_1_page02_up");
}

#[test]
fn mapping_file() {
    let entries = vec![
        ("Single_1_page01_icon-2".to_string(), "1+01+00+01".to_string()),
        ("Temp_1_page01_icon-9".to_string(), "2+01+00+01".to_string()),
        ("Single_2_page01_icon-2".to_string(), "3+01+00+01".to_string()),
        ("Single_1_page01_icon-7".to_string(), "4+01+00+01".to_string()),
    ];
    let text = render_mappings(&entries);
    assert_eq!(
        text,
        "# Auto-generated device mappings\n# Generated by auto-discovery mode\n\n\
         [lights]\n\"Single_1_page01\" = \"4+01+00+01\"\n\"Single_2_page01\" = \"3+01+00+01\"\n\n\
         [sensors]\n\"Temp_1_page01\" = \"READONLY\"\n\n"
    );
    assert_eq!(
        render_mappings(&Vec::new()),
        "# Auto-generated device mappings\n# Generated by auto-discovery mode\n\n"
    );
}
