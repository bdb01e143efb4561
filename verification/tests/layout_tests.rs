use jbar::config::PanelItem;
use jbar::layout::AppletLayout;

fn sample() -> AppletLayout {
    AppletLayout::from_sections(
        &vec![PanelItem::Workspaces, PanelItem::Clock, PanelItem::Workspaces],
        &vec![PanelItem::Clock, PanelItem::Sound],
        &vec![PanelItem::Power, PanelItem::Sound, PanelItem::Battery],
    )
}

#[test]
fn from_sections_keeps_first_occurrence() {
    let l = sample();
    assert_eq!(l.left, vec![PanelItem::Workspaces, PanelItem::Clock]);
    assert_eq!(l.center, vec![PanelItem::Sound]);
    assert_eq!(l.right, vec![PanelItem::Power, PanelItem::Battery]);
    assert_eq!(l.selected, None);
}

#[test]
fn pool_is_what_is_not_placed() {
    let l = sample();
    let pool = l.pool();
    for item in PanelItem::all() {
        assert_eq!(pool.contains(&item), !l.is_placed(item));
    }
    assert_eq!(pool[0], PanelItem::WindowTitle);
}

#[test]
fn controls_follow_selection() {
    let mut l = sample();
    let c = l.controls();
    assert!(!c.up && !c.down && !c.left && !c.right && !c.remove && c.add && !c.settings);
    l.select(0, 1);
    assert_eq!(l.selected_item(), Some(PanelItem::Clock));
    let c = l.controls();
    assert!(c.up && !c.down && !c.left && c.right && c.remove && c.settings);
}

#[test]
fn move_within_swaps_and_follows() {
    let mut l = sample();
    l.select(0, 1);
    l.move_within(-1);
    assert_eq!(l.left, vec![PanelItem::Clock, PanelItem::Workspaces]);
    assert_eq!(l.selected, Some((0, 0)));
    l.move_within(-1);
    assert_eq!(l.left, vec![PanelItem::Clock, PanelItem::Workspaces]);
    assert_eq!(l.selected, Some((0, 0)));
}

#[test]
fn move_section_appends_to_neighbour() {
    let mut l = sample();
    l.select(1, 0);
    l.move_section(1);
    assert!(l.center.is_empty());
    assert_eq!(l.right, vec![PanelItem::Power, PanelItem::Battery, PanelItem::Sound]);
    assert_eq!(l.selected, Some((2, 2)));
    l.move_section(1);
    assert_eq!(l.selected, Some((2, 2)));
}

#[test]
fn remove_selected_returns_item_to_pool() {
    let mut l = sample();
    l.select(2, 0);
    l.remove_selected();
    assert_eq!(l.right, vec![PanelItem::Battery]);
    assert_eq!(l.selected, None);
    assert!(l.pool().contains(&PanelItem::Power));
}

#[test]
fn add_item_goes_to_selected_section() {
    let mut l = sample();
    l.add_item(PanelItem::Wifi);
    assert_eq!(l.left, vec![PanelItem::Workspaces, PanelItem::Clock, PanelItem::Wifi]);
    assert_eq!(l.selected, Some((0, 2)));
    l.select(2, 1);
    l.add_item(PanelItem::Keyboard);
    assert_eq!(l.right, vec![PanelItem::Power, PanelItem::Battery, PanelItem::Keyboard]);
    assert_eq!(l.selected, Some((2, 2)));
    assert!(!l.pool().contains(&PanelItem::Keyboard));
}
