use jbar::config::XkbGroupToggle;
use jbar::keyboard::{
    clamp_brightness, escape_kdl, find_kbd_backlight, join_layouts, layout_entry_text,
    layout_node_text, level_for, niri_config_parses, niri_layout_index, niri_layout_value,
    niri_write_decision, parse_sysfs_u32, toggle_events, toggle_keys, usable_max, Command,
    GroupCycler, LayoutSelection, Level, NiriWrite,
};

#[test]
fn toggle_key_codes() {
    assert_eq!(toggle_keys(XkbGroupToggle::AltShift), vec![56, 42]);
    assert_eq!(toggle_keys(XkbGroupToggle::SuperSpace), vec![125, 57]);
    assert_eq!(toggle_keys(XkbGroupToggle::CtrlShift), vec![29, 42]);
    assert_eq!(toggle_keys(XkbGroupToggle::CapsLock), vec![58]);
}

#[test]
fn toggle_presses_then_releases_in_reverse() {
    let events = toggle_events(&vec![56, 42]);
    assert_eq!(events, vec![(56, 1), (42, 1), (42, 0), (56, 0)]);
    assert!(toggle_events(&Vec::new()).is_empty());
}

#[test]
fn cycler_presses_reach_target() {
    let mut c = GroupCycler::new(3);
    assert_eq!(c.switch_to(2), Some(2));
    assert_eq!(c.switch_to(0), Some(1));
    assert_eq!(c.switch_to(0), Some(0));
    assert_eq!(c.switch_to(3), None);
    assert_eq!(c.switch_to(1), Some(1));
    for current in 0u32..4 {
        for target in 0u32..4 {
            let mut c = GroupCycler::new(4);
            c.switch_to(current);
            let presses = c.switch_to(target).unwrap();
            assert_eq!((current + presses) % 4, target);
        }
    }
}

#[test]
fn niri_takes_u8_indices() {
    assert_eq!(niri_layout_index(3), Some(3));
    assert_eq!(niri_layout_index(255), Some(255));
    assert_eq!(niri_layout_index(256), None);
}

#[test]
fn layout_buttons_send_commands() {
    let mut sel = LayoutSelection::new();
    assert_eq!(sel.select(0), None);
    assert_eq!(sel.select(2), Some(Command::SwitchToGroup(2)));
    assert_eq!(sel.select(2), None);
    assert_eq!(sel.select(0), Some(Command::SwitchToGroup(0)));
}

#[test]
fn layouts_joined_and_escaped() {
    let layouts = vec!["us".to_string(), "de(nodeadkeys)".to_string()];
    assert_eq!(join_layouts(&layouts), "us,de(nodeadkeys)");
    assert_eq!(join_layouts(&Vec::new()), "");
    let odd = vec!["a\"b".to_string(), "c\\d".to_string()];
    assert_eq!(niri_layout_value(&odd).unwrap(), "a\\\"b,c\\\\d");
    assert_eq!(niri_layout_value(&Vec::new()), None);
    let chars: Vec<char> = "x\"y".chars().collect();
    assert_eq!(escape_kdl(&chars).into_iter().collect::<String>(), "x\\\"y");
}

#[test]
fn kdl_texts() {
    assert_eq!(layout_entry_text("us,de"), "\"us,de\"");
    assert_eq!(layout_node_text("us"), "\n            layout \"us\"\n");
}

#[test]
fn kdl_parser_decides_writes() {
    assert!(niri_config_parses("input { keyboard { xkb { layout \"us\"; }; }; }"));
    assert!(!niri_config_parses("input {"));
    assert_eq!(niri_write_decision("a 1", "a 1"), NiriWrite::Unchanged);
    assert_eq!(niri_write_decision("a 1", "a {"), NiriWrite::Refused);
    assert_eq!(niri_write_decision("a 1", "a 2"), NiriWrite::Write);
}

#[test]
fn keyboard_backlight_found_by_name() {
    let names = vec!["input3::capslock".to_string(), "tpacpi::kbd_backlight".to_string(), "x::kbd_backlight".to_string()];
    assert_eq!(find_kbd_backlight(&names).as_deref(), Some("tpacpi::kbd_backlight"));
    assert_eq!(find_kbd_backlight(&vec!["led".to_string()]), None);
}

#[test]
fn sysfs_numbers() {
    assert_eq!(parse_sysfs_u32("  3\n"), Some(3));
    assert_eq!(parse_sysfs_u32("+7"), Some(7));
    assert_eq!(parse_sysfs_u32("4294967295"), Some(u32::MAX));
    assert_eq!(parse_sysfs_u32("4294967296"), None);
    assert_eq!(parse_sysfs_u32("-1"), None);
    assert_eq!(parse_sysfs_u32(""), None);
    assert_eq!(usable_max(0), None);
    assert_eq!(usable_max(3), Some(3));
    assert_eq!(clamp_brightness(5, 3), 3);
    assert_eq!(clamp_brightness(2, 3), 2);
}

#[test]
fn backlight_levels() {
    assert_eq!(Level::Low.value(3), 1);
    assert_eq!(Level::Low.value(10), 5);
    assert_eq!(Level::Low.value(1), 1);
    assert_eq!(Level::Low.value(0), 0);
    assert_eq!(Level::High.value(3), 3);
    assert_eq!(level_for(0, 3), None);
    assert_eq!(level_for(1, 3), Some(Level::Low));
    assert_eq!(level_for(2, 3), Some(Level::High));
    for max in 2u32..20 {
        assert_eq!(level_for(Level::Low.value(max), max), Some(Level::Low));
        assert_eq!(level_for(Level::High.value(max), max), Some(Level::High));
    }
    assert_eq!(level_for(Level::High.value(1), 1), Some(Level::Low));
}
