use jbar::windows::{window_label, Toplevel, WindowTracker};

fn win(id: u64, app_id: &str, activated: bool) -> Toplevel {
    Toplevel { id, app_id: app_id.to_string(), activated }
}

#[test]
fn active_window_is_tracked() {
    let mut t = WindowTracker::new();
    assert_eq!(t.active_app_id(), None);
    t.updated(win(1, "foot", false));
    t.updated(win(2, "firefox", true));
    assert_eq!(t.active_app_id().as_deref(), Some("firefox"));
    t.updated(win(2, "firefox", false));
    t.updated(win(1, "foot", true));
    assert_eq!(t.active_app_id().as_deref(), Some("foot"));
    t.closed(1);
    assert_eq!(t.active_app_id(), None);
    t.closed(7);
    assert_eq!(t.active_app_id(), None);
}

#[test]
fn label_prefers_desktop_name() {
    assert_eq!(window_label(Some("org.gnome.Nautilus".to_string()), Some("Files".to_string())), "Files");
    assert_eq!(window_label(Some("foot".to_string()), None), "foot");
    assert_eq!(window_label(None, Some("Files".to_string())), "");
}
