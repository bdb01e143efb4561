use jbar::network::{
    airplane_settings, ap_click, ap_info, build_snapshot, classify_devices, find_saved_connection,
    icon_name_for, key_mgmt, list_mode, lists_networks, new_connection, password_problem,
    row_is_connected, signal_icon_name, wired_text, ActiveConnectionProps, ApClick, ApProps,
    ListMode, NmProps, SavedConnection, WifiDeviceProps, WireguardProps,
};

fn ap(path: &str, ssid: &str, strength: u8) -> ApProps {
    ApProps {
        path: path.to_string(),
        ssid: Some(ssid.as_bytes().to_vec()),
        strength: Some(strength),
        flags: None,
        wpa_flags: None,
        rsn_flags: None,
    }
}

fn props(aps: Vec<ApProps>, active: Option<&str>) -> NmProps {
    NmProps {
        wireless_enabled: Some(true),
        wwan_enabled: None,
        wifi: Some(WifiDeviceProps {
            active_access_point: active.map(|s| s.to_string()),
            access_points: Some(aps),
        }),
        wired_state: None,
        active_connections: Vec::new(),
        wireguard: None,
    }
}

#[test]
fn access_points_strongest_first_stable() {
    let p = props(
        vec![ap("/a", "one", 40), ap("/b", "", 90), ap("/c", "two", 70), ap("/d", "three", 40), ap("/e", "four", 70)],
        Some("/d"),
    );
    let s = build_snapshot(&p);
    let order: Vec<&str> = s.access_points.iter().map(|a| a.ssid.as_str()).collect();
    assert_eq!(order, vec!["two", "four", "one", "three"]);
    let connected = s.connected_ap.expect("connected");
    assert_eq!(connected.path, "/d");
    assert!(s.wifi_enabled);
    assert!(!s.airplane_mode);
}

#[test]
fn no_active_access_point_when_path_is_root() {
    let s = build_snapshot(&props(vec![ap("/a", "one", 40)], Some("/")));
    assert!(s.connected_ap.is_none());
    let s = build_snapshot(&props(vec![ap("/a", "one", 40)], Some("/zzz")));
    assert!(s.connected_ap.is_none());
}

#[test]
fn airplane_mode_needs_both_radios_off() {
    let mut p = props(Vec::new(), None);
    p.wireless_enabled = Some(false);
    p.wwan_enabled = Some(false);
    assert!(build_snapshot(&p).airplane_mode);
    p.wwan_enabled = None;
    assert!(!build_snapshot(&p).airplane_mode);
    let (wifi, wwan) = airplane_settings(true);
    p.wireless_enabled = Some(wifi);
    p.wwan_enabled = Some(wwan);
    assert!(build_snapshot(&p).airplane_mode);
    assert_eq!(airplane_settings(false), (true, true));
}

#[test]
fn wired_and_vpn() {
    let mut p = props(Vec::new(), None);
    p.wired_state = Some(Some(100));
    p.active_connections = vec![
        ActiveConnectionProps { path: "/c1".to_string(), vpn: Some(false), id: Some("home".to_string()) },
        ActiveConnectionProps { path: "/c2".to_string(), vpn: Some(true), id: None },
        ActiveConnectionProps { path: "/c3".to_string(), vpn: Some(true), id: Some("work".to_string()) },
    ];
    let s = build_snapshot(&p);
    assert!(s.has_wired);
    assert!(s.wired_connected);
    let vpn = s.vpn.expect("vpn");
    assert_eq!(vpn.name, "");
    assert_eq!(vpn.active_connection_path, "/c2");
}

#[test]
fn wireguard_counts_as_vpn() {
    let mut p = props(Vec::new(), None);
    p.wired_state = Some(None);
    p.wireguard = Some(WireguardProps {
        state: Some(100),
        active_connection: Some("/ac".to_string()),
        interface: Some("wg0".to_string()),
        active_connection_id: None,
    });
    let s = build_snapshot(&p);
    assert!(s.has_wired);
    assert!(!s.wired_connected);
    let vpn = s.vpn.expect("vpn");
    assert_eq!(vpn.name, "wg0");
    assert_eq!(vpn.active_connection_path, "/ac");
    p.wireguard.as_mut().unwrap().state = Some(30);
    assert!(build_snapshot(&p).vpn.is_none());
}

#[test]
fn access_point_security() {
    let mut a = ap("/a", "net", 50);
    assert!(!ap_info(&a).secured);
    a.flags = Some(1);
    assert!(ap_info(&a).secured);
    a.flags = None;
    a.rsn_flags = Some(0x400);
    let info = ap_info(&a);
    assert!(info.secured && info.sae);
    assert_eq!(key_mgmt(&info), "sae");
    a.rsn_flags = None;
    a.wpa_flags = Some(0x100);
    let info = ap_info(&a);
    assert!(info.secured && !info.sae);
    assert_eq!(key_mgmt(&info), "wpa-psk");
    a.strength = None;
    assert_eq!(ap_info(&a).strength, 0);
}

#[test]
fn ssid_bytes_are_decoded_lossily() {
    let mut a = ap("/a", "x", 50);
    a.ssid = Some(vec![b'c', 0xff, b'a']);
    assert_eq!(ap_info(&a).ssid, "c\u{FFFD}a");
    a.ssid = None;
    assert_eq!(ap_info(&a).ssid, "");
}

#[test]
fn devices_are_classified() {
    let d = classify_devices(&vec![
        ("/d1".to_string(), Some(14)),
        ("/d2".to_string(), Some(2)),
        ("/d3".to_string(), Some(1)),
        ("/d4".to_string(), Some(2)),
        ("/d5".to_string(), None),
    ]);
    assert_eq!(d.wifi.as_deref(), Some("/d2"));
    assert_eq!(d.wired.as_deref(), Some("/d3"));
    assert_eq!(d.wireguard, None);
    assert!(d.usable());
}

#[test]
fn saved_connection_by_ssid() {
    let profiles = vec![
        SavedConnection { path: "/s0".to_string(), ssid: None },
        SavedConnection { path: "/s1".to_string(), ssid: Some(b"home".to_vec()) },
        SavedConnection { path: "/s2".to_string(), ssid: Some(b"home".to_vec()) },
    ];
    assert_eq!(find_saved_connection(&profiles, "home").as_deref(), Some("/s1"));
    assert_eq!(find_saved_connection(&profiles, "work"), None);
}

#[test]
fn signal_icons() {
    assert_eq!(signal_icon_name(100), "network-wireless-signal-excellent-symbolic");
    assert_eq!(signal_icon_name(80), "network-wireless-signal-excellent-symbolic");
    assert_eq!(signal_icon_name(79), "network-wireless-signal-good-symbolic");
    assert_eq!(signal_icon_name(30), "network-wireless-signal-ok-symbolic");
    assert_eq!(signal_icon_name(1), "network-wireless-signal-weak-symbolic");
    assert_eq!(signal_icon_name(0), "network-wireless-signal-none-symbolic");
    assert_eq!(signal_icon_name(101), "network-wireless-signal-none-symbolic");
}

#[test]
fn bar_icon_and_popover() {
    let mut s = build_snapshot(&props(vec![ap("/a", "one", 60)], Some("/a")));
    assert_eq!(icon_name_for(&s), "network-wireless-signal-good-symbolic");
    assert_eq!(list_mode(&s, false), ListMode::ConnectedOnly);
    assert_eq!(list_mode(&s, true), ListMode::All);
    assert!(row_is_connected(&s, &s.access_points[0].clone()));
    assert!(lists_networks(&s));
    s.connected_ap = None;
    s.wired_connected = true;
    assert_eq!(icon_name_for(&s), "network-wired-symbolic");
    s.airplane_mode = true;
    assert_eq!(icon_name_for(&s), "airplane-mode-symbolic");
    assert_eq!(list_mode(&s, false), ListMode::Hidden);
    assert_eq!(wired_text(true), "Ethernet: Connected");
    assert_eq!(wired_text(false), "Ethernet: Not connected");
}

#[test]
fn clicking_networks() {
    assert_eq!(ap_click(true, true), ApClick::UsedSaved);
    assert_eq!(ap_click(false, true), ApClick::AskPassword);
    assert_eq!(ap_click(false, false), ApClick::ConnectOpen);
    assert_eq!(password_problem(""), Some("Enter a password"));
    assert_eq!(password_problem("x"), None);
}

#[test]
fn new_connection_settings() {
    let mut a = ap("/a", "café", 50);
    a.rsn_flags = Some(0x400);
    let info = ap_info(&a);
    let c = new_connection(&info, Some("pw"));
    assert_eq!(c.ssid, "café".as_bytes().to_vec());
    assert_eq!(c.mode, "infrastructure");
    assert_eq!(c.connection_type, "802-11-wireless");
    assert_eq!(c.id, "café");
    let sec = c.security.expect("security");
    assert_eq!(sec.key_mgmt, "sae");
    assert_eq!(sec.psk, "pw");
    assert!(new_connection(&info, None).security.is_none());
}
