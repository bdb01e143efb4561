use jbar::bluetooth::{
    agent_reply, device_action, device_status, discovery_method, empty_text, find_adapter,
    icon_name_for, scan_label, snapshot_from_objects, AdapterProps, AgentReply, BtObject,
    BtSnapshot, DeviceAction, DeviceInfo, DeviceProps,
};

fn adapter(path: &str, powered: bool) -> BtObject {
    BtObject {
        path: path.to_string(),
        adapter: Some(AdapterProps { powered: Some(powered), discovering: None }),
        device: None,
    }
}

fn device(path: &str, adapter: &str, alias: Option<&str>, name: Option<&str>, paired: bool, connected: bool) -> BtObject {
    BtObject {
        path: path.to_string(),
        adapter: None,
        device: Some(DeviceProps {
            adapter: Some(adapter.to_string()),
            alias: alias.map(|s| s.to_string()),
            name: name.map(|s| s.to_string()),
            paired: Some(paired),
            connected: Some(connected),
        }),
    }
}

#[test]
fn first_adapter_is_used() {
    let objs = vec![device("/d", "/hci0", Some("x"), None, false, false), adapter("/hci0", true), adapter("/hci1", false)];
    assert_eq!(find_adapter(&objs).as_deref(), Some("/hci0"));
    assert_eq!(find_adapter(&Vec::new()), None);
}

#[test]
fn devices_sorted_connected_paired_name() {
    let objs = vec![
        adapter("/hci0", true),
        device("/d1", "/hci0", Some("Zeta"), None, true, false),
        device("/d2", "/hci0", Some("alpha"), None, false, false),
        device("/d3", "/hci0", Some("Beta"), None, true, true),
        device("/d4", "/hci0", Some("Alpha"), None, true, false),
        device("/d5", "/hci1", Some("Other"), None, true, true),
        device("/d6", "/hci0", Some(""), Some("Named"), false, false),
        device("/d7", "/hci0", None, None, true, true),
    ];
    let s = snapshot_from_objects(&objs, "/hci0");
    assert!(s.powered);
    assert!(!s.discovering);
    let names: Vec<&str> = s.devices.iter().map(|d| d.name.as_str()).collect();
    assert_eq!(names, vec!["Beta", "Alpha", "Zeta", "Named", "alpha"]);
}

#[test]
fn equal_devices_keep_their_order() {
    let objs = vec![
        device("/first", "/hci0", Some("Same"), None, false, false),
        device("/second", "/hci0", Some("Same"), None, false, false),
    ];
    let s = snapshot_from_objects(&objs, "/hci0");
    let paths: Vec<&str> = s.devices.iter().map(|d| d.path.as_str()).collect();
    assert_eq!(paths, vec!["/first", "/second"]);
    assert!(!s.powered);
}

#[test]
fn empty_snapshot_default() {
    let s = BtSnapshot::default();
    assert!(!s.powered && !s.discovering && s.devices.is_empty());
    assert_eq!(icon_name_for(&s), "bluetooth-disabled-symbolic");
}

#[test]
fn bluetooth_icon() {
    let mut s = BtSnapshot::default();
    s.powered = true;
    assert_eq!(icon_name_for(&s), "bluetooth-symbolic");
    s.devices.push(DeviceInfo { path: "/d".to_string(), name: "n".to_string(), paired: true, connected: true });
    assert_eq!(icon_name_for(&s), "bluetooth-active-symbolic");
}

#[test]
fn device_clicks_and_status() {
    let mut d = DeviceInfo { path: "/d".to_string(), name: "n".to_string(), paired: false, connected: false };
    assert_eq!(device_action(&d), DeviceAction::PairAndConnect);
    assert_eq!(device_status(&d), None);
    d.paired = true;
    assert_eq!(device_action(&d), DeviceAction::Connect);
    assert_eq!(device_status(&d), Some("Paired"));
    d.connected = true;
    assert_eq!(device_action(&d), DeviceAction::Disconnect);
    assert_eq!(device_status(&d), Some("Connected"));
}

#[test]
fn scanning_texts() {
    assert_eq!(scan_label(true), "Stop scanning");
    assert_eq!(scan_label(false), "Scan for devices");
    assert_eq!(empty_text(true), "Searching...");
    assert_eq!(empty_text(false), "No devices found");
    assert_eq!(discovery_method(true), "StartDiscovery");
    assert_eq!(discovery_method(false), "StopDiscovery");
}

#[test]
fn pairing_agent_replies() {
    assert_eq!(agent_reply("RequestPinCode"), AgentReply::Text("0000".to_string()));
    assert_eq!(agent_reply("RequestPasskey"), AgentReply::Number(0));
    assert_eq!(agent_reply("Release"), AgentReply::Empty);
}
