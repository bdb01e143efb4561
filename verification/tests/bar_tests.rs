use jbar::bar::{
    clock_text, date_pattern, find_monitor, open_folder, places, places_show_icon,
    places_show_text, shown_places, time_pattern,
};
use jbar::config::{ClockFormat, ClockMode, PlacesDisplayMode};

#[test]
fn monitor_by_connector() {
    let c = vec![None, Some("eDP-1".to_string()), Some("DP-1".to_string()), Some("DP-1".to_string())];
    assert_eq!(find_monitor(&c, "DP-1"), Some(2));
    assert_eq!(find_monitor(&c, "HDMI"), None);
}

#[test]
fn clock_patterns_and_text() {
    assert_eq!(time_pattern(ClockFormat::Hour24), "%H:%M");
    assert_eq!(time_pattern(ClockFormat::Hour12), "%I:%M %p");
    assert_eq!(date_pattern(ClockMode::Time), None);
    assert_eq!(date_pattern(ClockMode::DateTime), Some("%-d. %b"));
    assert_eq!(clock_text(ClockMode::Time, "5. Mar", "09:41"), "09:41");
    assert_eq!(clock_text(ClockMode::DateTime, "5. Mar", "09:41"), "5. Mar, 09:41");
}

#[test]
fn places_menu() {
    assert_eq!(places(), vec!["Home", "Desktop", "Documents", "Downloads", "Music", "Pictures", "Videos", "Public"]);
    assert_eq!(shown_places(&vec![true, false, true, false, false, false, false, true]), vec![0, 2, 7]);
    assert!(places_show_icon(PlacesDisplayMode::Icon));
    assert!(!places_show_text(PlacesDisplayMode::Icon));
    assert!(!places_show_icon(PlacesDisplayMode::Text));
    assert!(places_show_text(PlacesDisplayMode::IconAndText));
    let o = open_folder("/home/u");
    assert_eq!(o.program, "xdg-open");
    assert_eq!(o.args, vec!["/home/u"]);
}
