use jbar::config::{ClockFormat, ClockMode, Config, PanelItem, PlacesDisplayMode, ThemePreference, XkbGroupToggle};

#[test]
fn default_config_is_a_fresh_install() {
    let c = Config::default();
    assert_eq!(c.theme, ThemePreference::System);
    assert_eq!(c.monitor, None);
    assert_eq!(c.bar_height, 33);
    assert_eq!(c.left, vec![PanelItem::Workspaces, PanelItem::WindowTitle, PanelItem::Places]);
    assert_eq!(c.center, vec![PanelItem::Clock]);
    assert_eq!(
        c.right,
        vec![
            PanelItem::Sound,
            PanelItem::Wifi,
            PanelItem::Bluetooth,
            PanelItem::Battery,
            PanelItem::Screen,
            PanelItem::Keyboard,
            PanelItem::Notifications,
            PanelItem::Power,
        ]
    );
    assert!(c.layout_configured);
    assert_eq!(c.clock_mode, ClockMode::Time);
    assert_eq!(c.clock_format, ClockFormat::Hour24);
    assert!(!c.battery_show_percentage);
    assert_eq!(c.places_display_mode, PlacesDisplayMode::IconAndText);
    assert!(c.scroll_switches_workspace);
    assert!(c.xkb_layouts.is_empty());
    assert_eq!(c.xkb_group_toggle, XkbGroupToggle::AltShift);
}

fn old_style_config() -> Config {
    let mut c = Config::default();
    c.layout_configured = false;
    c.left = Vec::new();
    c.center = Vec::new();
    c.right = Vec::new();
    c.places_applet_enabled = false;
    c.wifi_applet_enabled = false;
    c.power_applet_enabled = false;
    c
}

#[test]
fn migrate_layout_builds_sections_from_flags() {
    let mut c = old_style_config();
    c.migrate_layout();
    assert!(c.layout_configured);
    assert_eq!(c.left, vec![PanelItem::Workspaces, PanelItem::WindowTitle]);
    assert_eq!(c.center, vec![PanelItem::Clock]);
    assert_eq!(
        c.right,
        vec![
            PanelItem::Sound,
            PanelItem::Bluetooth,
            PanelItem::Battery,
            PanelItem::Screen,
            PanelItem::Keyboard,
            PanelItem::Notifications,
        ]
    );
}

#[test]
fn migrate_layout_happens_once() {
    let mut c = old_style_config();
    c.migrate_layout();
    let (l, m, r) = (c.left.clone(), c.center.clone(), c.right.clone());
    c.wifi_applet_enabled = true;
    c.migrate_layout();
    assert_eq!(c.left, l);
    assert_eq!(c.center, m);
    assert_eq!(c.right, r);
}

#[test]
fn migrate_layout_keeps_configured_sections() {
    let mut c = Config::default();
    c.left = vec![PanelItem::Clock];
    c.center = Vec::new();
    c.right = vec![PanelItem::Power];
    c.migrate_layout();
    assert_eq!(c.left, vec![PanelItem::Clock]);
    assert!(c.center.is_empty());
    assert_eq!(c.right, vec![PanelItem::Power]);
}

#[test]
fn loaded_without_file_is_default() {
    let c = Config::loaded(None);
    assert_eq!(c.bar_height, 33);
    assert_eq!(c.center, vec![PanelItem::Clock]);
}

#[test]
fn loaded_file_is_migrated() {
    let mut parsed = old_style_config();
    parsed.bar_height = 50;
    let c = Config::loaded(Some(parsed));
    assert_eq!(c.bar_height, 50);
    assert!(c.layout_configured);
    assert_eq!(c.left, vec![PanelItem::Workspaces, PanelItem::WindowTitle]);
}

#[test]
fn xkb_options_of_toggles() {
    assert_eq!(XkbGroupToggle::AltShift.xkb_option(), "grp:alt_shift_toggle");
    assert_eq!(XkbGroupToggle::SuperSpace.xkb_option(), "grp:win_space_toggle");
    assert_eq!(XkbGroupToggle::CtrlShift.xkb_option(), "grp:ctrl_shift_toggle");
    assert_eq!(XkbGroupToggle::CapsLock.xkb_option(), "grp:caps_toggle");
}

#[test]
fn panel_item_labels_and_settings() {
    assert_eq!(PanelItem::Workspaces.label(), "Workspaces");
    assert_eq!(PanelItem::WindowTitle.label(), "Window title");
    assert_eq!(PanelItem::Notifications.label(), "Notifications");
    assert!(PanelItem::Clock.has_settings());
    assert!(PanelItem::Battery.has_settings());
    assert!(PanelItem::Places.has_settings());
    assert!(PanelItem::Keyboard.has_settings());
    assert!(!PanelItem::Wifi.has_settings());
    assert!(!PanelItem::Power.has_settings());
}

#[test]
fn all_items_lists_each_once() {
    let all = PanelItem::all();
    assert_eq!(all.len(), 12);
    for (i, a) in all.iter().enumerate() {
        for b in all.iter().skip(i + 1) {
            assert_ne!(a, b);
        }
    }
}
