use jbar::appearance::{
    dark_mode_available, fixed_scheme, get_scheme_invocation, palette, scheme_from_output,
    scheme_from_text, set_dark, shown_dark, ColorScheme,
};
use jbar::audio::CommandOutput;
use jbar::config::ThemePreference;

#[test]
fn gsettings_value_read() {
    assert_eq!(scheme_from_text("'prefer-dark'\n"), ColorScheme::Dark);
    assert_eq!(scheme_from_text("  ''prefer-dark''  "), ColorScheme::Dark);
    assert_eq!(scheme_from_text("'default'\n"), ColorScheme::Light);
    assert_eq!(scheme_from_text("'prefer-light'"), ColorScheme::Light);
    assert_eq!(scheme_from_text(""), ColorScheme::Light);
}

#[test]
fn gsettings_runs() {
    let ok = Some(CommandOutput { success: true, stdout: b"'prefer-dark'\n".to_vec() });
    let failed = Some(CommandOutput { success: false, stdout: b"'prefer-dark'\n".to_vec() });
    assert_eq!(scheme_from_output(&ok), ColorScheme::Dark);
    assert_eq!(scheme_from_output(&failed), ColorScheme::Light);
    assert_eq!(scheme_from_output(&None), ColorScheme::Light);
    assert!(dark_mode_available(&ok));
    assert!(!dark_mode_available(&failed));
    assert!(!dark_mode_available(&None));
}

#[test]
fn gsettings_commands() {
    let g = get_scheme_invocation();
    assert_eq!(g.program, "gsettings");
    assert_eq!(g.args, vec!["get", "org.gnome.desktop.interface", "color-scheme"]);
    assert_eq!(set_dark(true).args, vec!["set", "org.gnome.desktop.interface", "color-scheme", "prefer-dark"]);
    assert_eq!(set_dark(false).args, vec!["set", "org.gnome.desktop.interface", "color-scheme", "default"]);
}

#[test]
fn dark_switch_position() {
    assert!(shown_dark(Some(true), ColorScheme::Light));
    assert!(!shown_dark(Some(false), ColorScheme::Dark));
    assert!(shown_dark(None, ColorScheme::Dark));
    assert!(!shown_dark(None, ColorScheme::Light));
}

#[test]
fn palettes() {
    let light = palette(ColorScheme::Light);
    assert_eq!(light.bg_hex, "#E6E6E6");
    assert_eq!(light.fg, "#1a1a1a");
    assert_eq!(light.error, "#c0392b");
    let dark = palette(ColorScheme::Dark);
    assert_eq!(dark.bg_hex, "#1e1e1e");
    assert_eq!(dark.subtitle, "alpha(#f5f5f5, 0.65)");
    assert_eq!(fixed_scheme(ThemePreference::System), None);
    assert_eq!(fixed_scheme(ThemePreference::Dark), Some(ColorScheme::Dark));
    assert_eq!(fixed_scheme(ThemePreference::Light), Some(ColorScheme::Light));
}
