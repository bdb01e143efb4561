use jbar::clipboard::{copy_invocation, pin_button, preview, watch_invocation, ClipFramer, ClipHistory};

fn texts(h: &ClipHistory) -> Vec<(String, bool)> {
    h.entries.iter().map(|e| (e.text.clone(), e.pinned)).collect()
}

#[test]
fn record_puts_newest_first() {
    let mut h = ClipHistory::new();
    h.record("a".to_string());
    h.record("b".to_string());
    assert_eq!(texts(&h), vec![("b".to_string(), false), ("a".to_string(), false)]);
}

#[test]
fn record_moves_repeated_text_to_front() {
    let mut h = ClipHistory::new();
    h.record("a".to_string());
    h.record("b".to_string());
    h.toggle_pin(&"a".to_string());
    h.record("a".to_string());
    assert_eq!(texts(&h), vec![("a".to_string(), true), ("b".to_string(), false)]);
}

#[test]
fn record_keeps_at_most_hundred_unpinned() {
    let mut h = ClipHistory::new();
    h.record("pinned".to_string());
    h.toggle_pin(&"pinned".to_string());
    for i in 0..105 {
        h.record(format!("t{i}"));
    }
    let unpinned = h.entries.iter().filter(|e| !e.pinned).count();
    assert_eq!(unpinned, 100);
    assert!(h.entries.iter().any(|e| e.text == "pinned" && e.pinned));
    assert_eq!(h.entries[0].text, "t104");
    assert!(!h.entries.iter().any(|e| e.text == "t4"));
    assert!(h.entries.iter().any(|e| e.text == "t5"));
}

#[test]
fn private_mode_records_nothing() {
    let mut h = ClipHistory::new();
    h.on_copied("secret".to_string(), true);
    assert!(h.entries.is_empty());
    h.on_copied("public".to_string(), false);
    assert_eq!(texts(&h), vec![("public".to_string(), false)]);
}

#[test]
fn ordered_entries_put_pinned_first() {
    let mut h = ClipHistory::new();
    h.record("a".to_string());
    h.record("b".to_string());
    h.record("c".to_string());
    h.toggle_pin(&"a".to_string());
    assert_eq!(
        h.ordered_entries(),
        vec![("a".to_string(), true), ("c".to_string(), false), ("b".to_string(), false)]
    );
}

#[test]
fn delete_and_clear() {
    let mut h = ClipHistory::new();
    h.record("a".to_string());
    h.record("b".to_string());
    h.toggle_pin(&"a".to_string());
    assert!(h.has_unpinned());
    h.delete(&"b".to_string());
    assert!(!h.has_unpinned());
    h.record("c".to_string());
    h.clear();
    assert_eq!(texts(&h), vec![("a".to_string(), true)]);
}

#[test]
fn preview_of_short_single_line() {
    assert_eq!(preview("  hello  "), "hello");
    assert_eq!(preview(""), "");
}

#[test]
fn preview_marks_more_lines() {
    assert_eq!(preview("first\nsecond"), "first ...");
}

#[test]
fn preview_cuts_long_lines() {
    let text = "a".repeat(39) + " bcd";
    assert_eq!(preview(&text), format!("{} ...", "a".repeat(39)));
    let exact = "x".repeat(40);
    assert_eq!(preview(&exact), exact);
}

#[test]
fn framer_splits_records_at_nul() {
    let mut f = ClipFramer::new();
    let out = f.feed(b"hel");
    assert!(out.is_empty());
    let out = f.feed(b"lo\0\0wor");
    assert_eq!(out, vec!["hello".to_string()]);
    let out = f.feed(&[b'l', b'd', 0, 0xff, 0xfe, 0, b'!']);
    assert_eq!(out, vec!["world".to_string()]);
    assert_eq!(f.buffer, b"!".to_vec());
}

#[test]
fn clipboard_commands() {
    let w = watch_invocation();
    assert_eq!(w.program, "wl-paste");
    assert_eq!(w.args, vec!["--type", "text", "--watch", "sh", "-c", "cat; printf '\\0'"]);
    let c = copy_invocation();
    assert_eq!(c.program, "wl-copy");
    assert!(c.args.is_empty());
    assert_eq!(pin_button(true), ("starred-symbolic", "Unpin"));
    assert_eq!(pin_button(false), ("non-starred-symbolic", "Pin"));
}
