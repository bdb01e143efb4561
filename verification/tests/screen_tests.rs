use jbar::screen::{caffeine_separator, duration_choices, screen_applet_shown, Caffeine};

#[test]
fn duration_buttons() {
    let d = duration_choices();
    assert_eq!(d, vec![("15 min", Some(900)), ("30 min", Some(1800)), ("1 h", Some(3600)), ("∞", None)]);
}

#[test]
fn applet_visibility() {
    assert!(!screen_applet_shown(false, false, false));
    assert!(screen_applet_shown(false, true, false));
    assert!(caffeine_separator(true, true, false));
    assert!(!caffeine_separator(true, false, true));
    assert!(!caffeine_separator(false, true, false));
}

#[test]
fn caffeine_on_then_timer_then_off() {
    let mut c = Caffeine::new();
    assert!(!c.is_on());
    let a = c.switched_on();
    assert!(a.take_lock && !a.cancel_timer && a.highlight == Some(None) && a.show_durations == Some(true));
    c.lock_result(true);
    let a = c.pick(Some(900));
    assert!(!a.take_lock && !a.cancel_timer);
    assert_eq!(a.start_timer, Some(900));
    assert_eq!(a.highlight, Some(Some(900)));
    let a = c.pick(Some(1800));
    assert!(a.cancel_timer);
    assert_eq!(a.start_timer, Some(1800));
    let a = c.timer_fired();
    assert_eq!(a.set_switch, Some(false));
    assert!(!a.cancel_timer && !a.release_lock);
    let a = c.switched_off();
    assert!(a.release_lock && !a.cancel_timer && a.clear_highlight && a.show_durations == Some(false));
    assert!(!c.is_on());
}

#[test]
fn caffeine_lock_refused_is_asked_again() {
    let mut c = Caffeine::new();
    c.switched_on();
    c.lock_result(false);
    let a = c.pick(None);
    assert!(a.take_lock);
    assert_eq!(a.start_timer, None);
    let a = c.switched_off();
    assert!(!a.release_lock);
}
