use jbar::audio::CommandOutput;
use jbar::json::Json;
use jbar::notifications::{
    dismiss, dismiss_all, dnd_active, dnd_config_update, has_dnd_section, hidden_ids_from_text,
    hidden_text, icon_name, list, list_invocation, mode_invocation, notifications_from_items,
    notifications_from_output, mako_items,
    prune_hidden, row_text, row_title, set_dnd, Dismissal, MakoItem, Notification,
};

fn note(id: u32, active: bool) -> Notification {
    Notification {
        id,
        app_name: "app".to_string(),
        summary: format!("s{id}"),
        body: String::new(),
        active,
    }
}

fn ids(v: &[Notification]) -> Vec<u32> {
    v.iter().map(|n| n.id).collect()
}

#[test]
fn items_without_id_are_skipped() {
    let items = vec![
        MakoItem { id: Some(7), app_name: Some("mail".to_string()), summary: None, body: Some("b".to_string()) },
        MakoItem { id: None, app_name: None, summary: None, body: None },
        MakoItem { id: Some((1u64 << 32) + 3), app_name: None, summary: Some("x".to_string()), body: None },
    ];
    let ns = notifications_from_items(&items, false);
    assert_eq!(ns.len(), 2);
    assert_eq!(ns[0].id, 7);
    assert_eq!(ns[0].app_name, "mail");
    assert_eq!(ns[0].summary, "");
    assert_eq!(ns[0].body, "b");
    assert!(!ns[0].active);
    assert_eq!(ns[1].id, 3);
}

#[test]
fn list_hides_and_prunes() {
    let r = list(vec![note(1, true)], vec![note(2, false), note(3, false)], &vec![3, 9]);
    assert_eq!(ids(&r.notifications), vec![1, 2]);
    assert_eq!(r.hidden, vec![3]);
    assert!(r.save_hidden);
    let r = list(vec![note(1, true)], vec![note(3, false)], &vec![3]);
    assert_eq!(ids(&r.notifications), vec![1]);
    assert!(!r.save_hidden);
}

#[test]
fn prune_hidden_keeps_visible_ids() {
    assert_eq!(prune_hidden(&vec![5, 1, 8], &vec![8, 5]), vec![5, 8]);
    assert!(prune_hidden(&vec![5], &Vec::new()).is_empty());
}

#[test]
fn dismissing_shown_notification_asks_daemon() {
    match dismiss(&note(42, true), &vec![1]) {
        Dismissal::Run(inv) => {
            assert_eq!(inv.program, "makoctl");
            assert_eq!(inv.args, vec!["dismiss", "-n", "42"]);
        }
        Dismissal::Hide(_) => panic!("expected a command"),
    }
}

#[test]
fn dismissed_history_entry_stays_hidden() {
    let hidden = match dismiss(&note(2, false), &vec![1]) {
        Dismissal::Hide(h) => h,
        Dismissal::Run(_) => panic!("expected hidden ids"),
    };
    assert_eq!(hidden, vec![1, 2]);
    let r = list(Vec::new(), vec![note(1, false), note(2, false), note(4, false)], &hidden);
    assert_eq!(ids(&r.notifications), vec![4]);
    match dismiss(&note(2, false), &hidden) {
        Dismissal::Hide(h) => assert_eq!(h, vec![1, 2]),
        Dismissal::Run(_) => panic!("expected hidden ids"),
    }
}

#[test]
fn clear_all_hides_every_history_entry() {
    let listed = vec![note(1, true), note(2, false), note(3, false)];
    let (inv, hidden) = dismiss_all(&listed, &vec![3]);
    assert_eq!(inv.program, "makoctl");
    assert_eq!(inv.args, vec!["dismiss", "-a"]);
    assert_eq!(hidden, vec![3, 2]);
    let r = list(Vec::new(), vec![note(2, false), note(3, false)], &hidden);
    assert!(r.notifications.is_empty());
}

#[test]
fn hidden_ids_file_round_trip() {
    let text = hidden_text(&vec![12, 7, 300]);
    assert_eq!(text, "12\n7\n300");
    let back = hidden_ids_from_text(&text);
    assert_eq!(back, vec![12, 7, 300]);
}

#[test]
fn hidden_ids_file_tolerates_junk() {
    let back = hidden_ids_from_text(" 5 \r\nabc\n5\n\n+6\n99999999999\n");
    assert_eq!(back, vec![5, 6]);
}

#[test]
fn dnd_from_mode_listing() {
    assert!(dnd_active("default\n  do-not-disturb \n"));
    assert!(!dnd_active("default\ndo-not-disturb-x\n"));
    assert!(!dnd_active(""));
}

#[test]
fn daemon_commands() {
    let on = set_dnd(true);
    assert_eq!(on.program, "makoctl");
    assert_eq!(on.args, vec!["mode", "-a", "do-not-disturb"]);
    assert_eq!(set_dnd(false).args, vec!["mode", "-r", "do-not-disturb"]);
    assert_eq!(mode_invocation().args, vec!["mode"]);
    assert_eq!(list_invocation(false).args, vec!["list", "-j"]);
    assert_eq!(list_invocation(true).args, vec!["history", "-j"]);
}

#[test]
fn rows_and_icon() {
    let mut n = note(1, true);
    n.app_name = String::new();
    assert_eq!(row_title(&n), "Notification");
    assert_eq!(row_text(&n), "s1");
    n.summary = String::new();
    n.body = "body".to_string();
    assert_eq!(row_text(&n), "body");
    assert_eq!(icon_name(true), "notifications-disabled-symbolic");
    assert_eq!(icon_name(false), "notification-symbolic");
}

#[test]
fn dnd_block_is_appended_once() {
    let raw = "font=sans";
    let updated = dnd_config_update(raw).expect("block added");
    assert_eq!(updated, "font=sans\n[mode=do-not-disturb]\ninvisible=1\n");
    assert!(has_dnd_section(&updated));
    assert_eq!(dnd_config_update(&updated), None);
    assert_eq!(dnd_config_update("").unwrap(), "[mode=do-not-disturb]\ninvisible=1\n");
    assert_eq!(dnd_config_update("a\n").unwrap(), "a\n[mode=do-not-disturb]\ninvisible=1\n");
    assert_eq!(dnd_config_update("x\n  [mode=do-not-disturb]  \n"), None);
}

#[test]
fn notifications_read_from_makoctl_json() {
    let json = br#"[
      {"id": 5, "app_name": "mail", "summary": "New mail", "body": "Hi", "urgency": 1},
      {"app_name": "no id"},
      {"id": 9, "summary": "Only summary", "body": null}
    ]"#;
    let out = Some(CommandOutput { success: true, stdout: json.to_vec() });
    let ns = notifications_from_output(&out, true);
    assert_eq!(ns.len(), 2);
    assert_eq!((ns[0].id, ns[0].app_name.as_str(), ns[0].summary.as_str(), ns[0].body.as_str()), (5, "mail", "New mail", "Hi"));
    assert!(ns[0].active);
    assert_eq!((ns[1].id, ns[1].app_name.as_str(), ns[1].summary.as_str(), ns[1].body.as_str()), (9, "", "Only summary", ""));
    let history = notifications_from_output(&out, false);
    assert!(!history[0].active);
}

#[test]
fn notifications_empty_when_listing_unusable() {
    let bad = Some(CommandOutput { success: true, stdout: b"[1, 2".to_vec() });
    assert!(notifications_from_output(&bad, true).is_empty());
    let failed = Some(CommandOutput { success: false, stdout: b"[{\"id\": 1}]".to_vec() });
    assert!(notifications_from_output(&failed, true).is_empty());
    assert!(notifications_from_output(&None, true).is_empty());
}

#[test]
fn mako_items_take_members_by_name() {
    let doc = Json::Array(vec![Json::Object(vec![
        ("id".to_string(), Json::Number(None)),
        ("summary".to_string(), Json::Text("s".to_string())),
    ])]);
    let items = mako_items(&doc);
    assert_eq!(items.len(), 1);
    assert_eq!(items[0].id, None);
    assert_eq!(items[0].summary.as_deref(), Some("s"));
    assert_eq!(items[0].body, None);
}
