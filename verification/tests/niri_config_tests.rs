use jbar::niri_config::{set_niri_layouts, sync_niri_text, NiriUpdate};
use kdl::KdlDocument;

const WITH_LAYOUT: &str = "input {\n    keyboard {\n        xkb {\n            layout \"us\"\n        }\n    }\n}\nother 1\n";

fn layouts(names: &[&str]) -> Vec<String> {
    names.iter().map(|s| s.to_string()).collect()
}

fn xkb_layout_entries(doc: &KdlDocument) -> Option<Vec<String>> {
    let xkb = doc
        .get("input")?
        .children()?
        .get("keyboard")?
        .children()?
        .get("xkb")?
        .children()?;
    let layout = xkb.get("layout")?;
    Some(layout.entries().iter().map(|e| e.value().as_string().unwrap_or("").to_string()).collect())
}

#[test]
fn unparsable_config_left_alone() {
    assert!(matches!(sync_niri_text("input {", &layouts(&["us"])), NiriUpdate::NotKdl));
}

#[test]
fn existing_layout_replaced() {
    match sync_niri_text(WITH_LAYOUT, &layouts(&["de", "fr"])) {
        NiriUpdate::Write(t) => {
            assert!(t.contains("\"de,fr\""));
            assert!(!t.contains("\"us\""));
            assert!(t.contains("other 1"));
        }
        _ => panic!("expected a write"),
    }
}

#[test]
fn no_layouts_removes_layout_node() {
    match sync_niri_text(WITH_LAYOUT, &Vec::new()) {
        NiriUpdate::Write(t) => {
            assert!(!t.contains("layout"));
            assert!(t.contains("xkb"));
            assert!(t.contains("other 1"));
        }
        _ => panic!("expected a write"),
    }
}

#[test]
fn same_layouts_leave_text_unchanged_or_equal() {
    let r = sync_niri_text(WITH_LAYOUT, &layouts(&["us"]));
    match r {
        NiriUpdate::Unchanged => {}
        NiriUpdate::Write(t) => assert!(t.contains("\"us\"") && t != WITH_LAYOUT),
        _ => panic!("expected unchanged or a write"),
    }
}

#[test]
fn missing_path_is_made() {
    let mut doc = KdlDocument::parse_v1("other 1\n").unwrap();
    assert!(set_niri_layouts(&mut doc, &layouts(&["us", "a\"b"])));
    assert_eq!(xkb_layout_entries(&doc), Some(vec!["us,a\"b".to_string()]));
    assert_eq!(doc.nodes()[0].name().value(), "other");
    assert_eq!(doc.nodes()[1].name().value(), "input");
}

#[test]
fn layout_entries_set_in_place() {
    let mut doc = KdlDocument::parse_v1(WITH_LAYOUT).unwrap();
    assert!(set_niri_layouts(&mut doc, &layouts(&["de"])));
    assert_eq!(xkb_layout_entries(&doc), Some(vec!["de".to_string()]));
    assert_eq!(doc.nodes().len(), 2);
    assert!(set_niri_layouts(&mut doc, &Vec::new()));
    assert_eq!(xkb_layout_entries(&doc), None);
}
