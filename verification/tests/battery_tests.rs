use jbar::battery::{
    charge_state, find_battery, icon_name_for, parse_status, percentage_text, power_actions,
    present_profiles, profile_highlights, profile_title, status_text, BatteryStatus, ChargeState,
    LogindTarget, PowerAction,
};

#[test]
fn battery_is_first_supply_of_type_battery() {
    let types = vec!["Mains\n".to_string(), "".to_string(), " Battery\n".to_string(), "Battery".to_string()];
    assert_eq!(find_battery(&types), Some(2));
    assert_eq!(find_battery(&vec!["USB".to_string()]), None);
}

#[test]
fn status_parsed_from_sysfs_files() {
    let s = parse_status("87\n", "Charging\n").unwrap();
    assert_eq!(s, BatteryStatus { percentage: 87, state: ChargeState::Charging });
    let s = parse_status("120", "").unwrap();
    assert_eq!(s, BatteryStatus { percentage: 100, state: ChargeState::Other });
    assert_eq!(parse_status("256", "Full"), None);
    assert_eq!(parse_status("abc", "Full"), None);
    assert_eq!(charge_state(" Discharging "), ChargeState::Discharging);
    assert_eq!(charge_state("Full"), ChargeState::Full);
    assert_eq!(charge_state("Not charging"), ChargeState::Other);
}

#[test]
fn battery_icons() {
    let st = |p: u8, s: ChargeState| BatteryStatus { percentage: p, state: s };
    assert_eq!(icon_name_for(st(19, ChargeState::Discharging)), "battery-caution-symbolic");
    assert_eq!(icon_name_for(st(20, ChargeState::Discharging)), "battery-low-symbolic");
    assert_eq!(icon_name_for(st(40, ChargeState::Full)), "battery-good-symbolic");
    assert_eq!(icon_name_for(st(80, ChargeState::Charging)), "battery-full-charging-symbolic");
    assert_eq!(icon_name_for(st(0, ChargeState::Charging)), "battery-caution-charging-symbolic");
}

#[test]
fn battery_texts() {
    let s = BatteryStatus { percentage: 42, state: ChargeState::Other };
    assert_eq!(status_text(s), "42% - Not charging");
    assert_eq!(percentage_text(s), "42%");
    let s = BatteryStatus { percentage: 100, state: ChargeState::Full };
    assert_eq!(status_text(s), "100% - Full");
}

#[test]
fn profile_titles() {
    assert_eq!(profile_title("power-saver"), "Power saver");
    assert_eq!(profile_title("balanced"), "Balanced");
    assert_eq!(profile_title("Performance"), "Performance");
    assert_eq!(profile_title(""), "");
    assert_eq!(profile_title("-x"), " x");
    assert_eq!(profile_title("élan"), "élan");
}

#[test]
fn profiles_and_highlights() {
    let entries = vec![Some("power-saver".to_string()), None, Some("balanced".to_string())];
    let ids = present_profiles(&entries);
    assert_eq!(ids, vec!["power-saver".to_string(), "balanced".to_string()]);
    assert_eq!(profile_highlights(&ids, "balanced"), vec![false, true]);
}

#[test]
fn power_menu() {
    let actions = power_actions();
    let labels: Vec<&str> = actions.iter().map(|a| a.label()).collect();
    assert_eq!(labels, vec!["Suspend", "Restart", "Power Off", "Log Out"]);
    assert_eq!(PowerAction::Restart.logind_call(), (LogindTarget::Manager, "Reboot"));
    assert_eq!(PowerAction::PowerOff.logind_call(), (LogindTarget::Manager, "PowerOff"));
    assert_eq!(PowerAction::Suspend.logind_call(), (LogindTarget::Manager, "Suspend"));
    assert_eq!(PowerAction::LogOut.logind_call(), (LogindTarget::Session, "Terminate"));
}
