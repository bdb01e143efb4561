use jbar::bar::{badge_text, scroll_target, ScrollDirection};
use jbar::workspaces::{Tracker, WorkspaceInfo};

fn info(id: u32, number: u32, active: bool) -> WorkspaceInfo {
    WorkspaceInfo { id, number, active }
}

#[test]
fn snapshot_orders_by_coordinates_and_numbers() {
    let mut t = Tracker::new();
    t.on_workspace(10);
    t.on_workspace(11);
    t.on_workspace(12);
    t.on_coordinates(10, vec![2]);
    t.on_coordinates(11, vec![0, 5]);
    t.on_coordinates(12, vec![0]);
    t.on_name(10, "7".to_string());
    t.on_name(11, "web".to_string());
    t.on_state(11, 1);
    t.on_state(12, 4);
    let s = t.snapshot();
    assert_eq!(s, vec![info(12, 1, false), info(11, 2, true), info(10, 7, false)]);
}

#[test]
fn workspaces_without_coordinates_go_first_in_announcement_order() {
    let mut t = Tracker::new();
    t.on_workspace(1);
    t.on_workspace(2);
    t.on_workspace(3);
    t.on_coordinates(1, vec![1]);
    let s = t.snapshot();
    let order: Vec<u32> = s.iter().map(|w| w.id).collect();
    assert_eq!(order, vec![2, 3, 1]);
    assert_eq!(s[2].number, 3);
}

#[test]
fn removed_workspace_disappears() {
    let mut t = Tracker::new();
    t.on_workspace(1);
    t.on_workspace(2);
    t.on_removed(1);
    let s = t.snapshot();
    assert_eq!(s, vec![info(2, 1, false)]);
    t.on_state(2, 3);
    assert!(t.snapshot()[0].active);
    t.on_state(2, 2);
    assert!(!t.snapshot()[0].active);
}

#[test]
fn events_for_unknown_workspace_are_kept_but_not_listed() {
    let mut t = Tracker::new();
    t.on_name(5, "5".to_string());
    assert!(t.snapshot().is_empty());
    t.on_workspace(6);
    assert_eq!(t.snapshot(), vec![info(6, 1, false)]);
}

#[test]
fn scrolling_moves_to_neighbours() {
    let list = vec![info(1, 1, false), info(2, 2, true), info(3, 3, false)];
    assert_eq!(scroll_target(&list, ScrollDirection::Down), Some(3));
    assert_eq!(scroll_target(&list, ScrollDirection::Up), Some(1));
    let first = vec![info(1, 1, true), info(2, 2, false)];
    assert_eq!(scroll_target(&first, ScrollDirection::Up), None);
    assert_eq!(scroll_target(&first, ScrollDirection::Down), Some(2));
    let none_active = vec![info(1, 1, false)];
    assert_eq!(scroll_target(&none_active, ScrollDirection::Down), None);
    assert_eq!(badge_text(&info(9, 12, false)), "12");
}
