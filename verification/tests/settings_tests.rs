use jbar::config::{ClockFormat, ClockMode, PlacesDisplayMode, ThemePreference, XkbGroupToggle};
use jbar::settings::{
    add_layout, bar_heights, clock_format_from_index, clock_format_index, clock_mode_from_index,
    clock_mode_index, height_from_index, height_index, height_label, height_labels,
    is_settings_cmdline, layout_placeholder, layouts_full, monitor_index, monitor_options,
    places_from_index, places_index, prefer_dark, remove_layout, stops_process, theme_from_index,
    theme_index, toggle_from_index, toggle_index,
};

#[test]
fn dropdowns_round_trip() {
    for t in [ThemePreference::System, ThemePreference::Light, ThemePreference::Dark] {
        assert_eq!(theme_from_index(theme_index(t)), t);
    }
    for m in [ClockMode::Time, ClockMode::DateTime] {
        assert_eq!(clock_mode_from_index(clock_mode_index(m)), m);
    }
    for f in [ClockFormat::Hour24, ClockFormat::Hour12] {
        assert_eq!(clock_format_from_index(clock_format_index(f)), f);
    }
    for p in [PlacesDisplayMode::Icon, PlacesDisplayMode::Text, PlacesDisplayMode::IconAndText] {
        assert_eq!(places_from_index(places_index(p)), p);
    }
    for g in [XkbGroupToggle::AltShift, XkbGroupToggle::SuperSpace, XkbGroupToggle::CtrlShift, XkbGroupToggle::CapsLock] {
        assert_eq!(toggle_from_index(toggle_index(g)), g);
    }
}

#[test]
fn dropdown_fallbacks() {
    assert_eq!(theme_index(ThemePreference::Dark), 2);
    assert_eq!(theme_from_index(7), ThemePreference::System);
    assert_eq!(clock_mode_from_index(9), ClockMode::Time);
    assert_eq!(clock_format_index(ClockFormat::Hour12), 1);
    assert_eq!(clock_format_from_index(5), ClockFormat::Hour24);
    assert_eq!(places_from_index(9), PlacesDisplayMode::IconAndText);
    assert_eq!(toggle_index(XkbGroupToggle::CapsLock), 3);
    assert_eq!(toggle_from_index(4), XkbGroupToggle::AltShift);
}

#[test]
fn theme_preference_decides_dark() {
    assert!(!prefer_dark(ThemePreference::Light, true));
    assert!(prefer_dark(ThemePreference::Dark, false));
    assert!(prefer_dark(ThemePreference::System, true));
    assert!(!prefer_dark(ThemePreference::System, false));
}

#[test]
fn monitor_choices() {
    let connectors = vec!["eDP-1".to_string(), "HDMI-A-1".to_string()];
    let (labels, values) = monitor_options(&Some("DP-2".to_string()), &connectors);
    assert_eq!(labels, vec!["Automatic", "eDP-1", "HDMI-A-1", "DP-2 (disconnected)"]);
    assert_eq!(values, vec![None, Some("eDP-1".to_string()), Some("HDMI-A-1".to_string()), Some("DP-2".to_string())]);
    assert_eq!(monitor_index(&values, &Some("DP-2".to_string())), 3);
    let (labels, values) = monitor_options(&Some("eDP-1".to_string()), &connectors);
    assert_eq!(labels.len(), 3);
    assert_eq!(monitor_index(&values, &Some("eDP-1".to_string())), 1);
    assert_eq!(monitor_index(&values, &None), 0);
    assert_eq!(monitor_index(&values, &Some("nowhere".to_string())), 0);
}

#[test]
fn bar_height_choices() {
    assert_eq!(bar_heights(), vec![25, 33, 40, 50, 60]);
    assert_eq!(height_label(33, 33), "33px (default)");
    assert_eq!(height_label(40, 33), "40px");
    let labels = height_labels(33);
    assert_eq!(labels, vec!["25px", "33px (default)", "40px", "50px", "60px"]);
    assert_eq!(height_index(50), 3);
    assert_eq!(height_index(47), 0);
    assert_eq!(height_from_index(4, 33), 60);
    assert_eq!(height_from_index(5, 33), 33);
}

#[test]
fn layouts_list_editing() {
    let mut layouts: Vec<String> = Vec::new();
    assert!(!add_layout(&mut layouts, "   "));
    assert!(add_layout(&mut layouts, "  us(dvorak) "));
    assert_eq!(layouts, vec!["us(dvorak)".to_string()]);
    for code in ["de", "fr", "it", "es"] {
        assert!(add_layout(&mut layouts, code));
    }
    assert!(layouts_full(&layouts));
    assert!(!add_layout(&mut layouts, "pl"));
    assert_eq!(layouts.len(), 5);
    assert_eq!(layout_placeholder(true), "Maximum of 5 layouts reached");
    remove_layout(&mut layouts, 0);
    assert_eq!(layouts[0], "de");
    assert!(!layouts_full(&layouts));
    assert_eq!(layout_placeholder(false), "e.g. us, de, us(dvorak)");
}

#[test]
fn restart_spares_settings_windows() {
    assert!(is_settings_cmdline(&b"/usr/bin/jbar\0--config\0".to_vec()));
    assert!(is_settings_cmdline(&b"jbar\0--config".to_vec()));
    assert!(!is_settings_cmdline(&b"/usr/bin/jbar\0".to_vec()));
    assert!(!is_settings_cmdline(&b"jbar\0--configx\0".to_vec()));
    assert!(!is_settings_cmdline(&Vec::new()));
    assert_eq!(stops_process("123", 7, true, &b"jbar\0".to_vec()), Some(123));
    assert_eq!(stops_process("7", 7, true, &b"jbar\0".to_vec()), None);
    assert_eq!(stops_process("self", 7, true, &b"jbar\0".to_vec()), None);
    assert_eq!(stops_process("123", 7, false, &b"jbar\0".to_vec()), None);
    assert_eq!(stops_process("123", 7, true, &b"jbar\0--config\0".to_vec()), None);
}
