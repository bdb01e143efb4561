//! Light and dark: the system's colour scheme as `gsettings` reports it,
//! switching it, and the bar's palette for each scheme.
use vstd::prelude::*;
use crate::audio::CommandOutput;
use crate::command::Invocation;
use crate::text::{chars_of, lossy_text, lossy_utf8, slice_chars, trim, trim_chars};

verus! {

/// A colour scheme.
#[derive(Clone, Copy, Debug, PartialEq, Eq, Structural)]
pub enum ColorScheme {
    Light,
    Dark,
}

/// `s` without leading single quotes.
pub open spec fn strip_leading_quotes(s: Seq<char>) -> Seq<char>
    decreases s.len(),
{
    if s.len() > 0 && s[0] == '\'' {
        strip_leading_quotes(s.drop_first())
    } else {
        s
    }
}

/// `s` without trailing single quotes.
pub open spec fn strip_trailing_quotes(s: Seq<char>) -> Seq<char>
    decreases s.len(),
{
    if s.len() > 0 && s.last() == '\'' {
        strip_trailing_quotes(s.drop_last())
    } else {
        s
    }
}

/// `s` with the single quotes around it removed, as `trim_matches('\'')` does.
pub open spec fn strip_quotes(s: Seq<char>) -> Seq<char> {
    strip_trailing_quotes(strip_leading_quotes(s))
}

proof fn lemma_strip_leading(s: Seq<char>, i: int)
    requires
        0 <= i <= s.len(),
        forall|j: int| 0 <= j < i ==> s[j] == '\'',
        i == s.len() || s[i] != '\'',
    ensures
        strip_leading_quotes(s) == s.skip(i),
    decreases i,
{
    if i > 0 {
        assert(s.drop_first().skip(i - 1) =~= s.skip(i));
        lemma_strip_leading(s.drop_first(), i - 1);
    } else {
        assert(s.skip(0) =~= s);
    }
}

proof fn lemma_strip_trailing(s: Seq<char>, j: int)
    requires
        0 <= j <= s.len(),
        forall|k: int| j <= k < s.len() ==> s[k] == '\'',
        j == 0 || s[j - 1] != '\'',
    ensures
        strip_trailing_quotes(s) == s.take(j),
    decreases s.len() - j,
{
    if j < s.len() {
        assert(s.drop_last().take(j) =~= s.take(j));
        lemma_strip_trailing(s.drop_last(), j);
    } else {
        assert(s.take(j) =~= s);
    }
}

fn strip_quotes_chars(s: &Vec<char>) -> (r: Vec<char>)
    ensures
        r@ == strip_quotes(s@),
{
    let n: usize = s.len();
    let mut a: usize = 0;
    while a < n && s[a] == '\''
        invariant
            a <= n == s.len(),
            forall|j: int| 0 <= j < a ==> s@[j] == '\'',
        decreases n - a,
    {
        a = a + 1;
    }
    proof {
        lemma_strip_leading(s@, a as int);
    }
    let ghost t = s@.skip(a as int);
    let mut b: usize = n;
    while b > a && s[b - 1] == '\''
        invariant
            a <= b <= n == s.len(),
            forall|k: int| b <= k < n ==> s@[k] == '\'',
        decreases b,
    {
        b = b - 1;
    }
    proof {
        assert forall|k: int| b - a <= k < t.len() implies t[k] == '\'' by {
            assert(t[k] == s@[k + a]);
        }
        if b > a {
            assert(t[b - a - 1] == s@[b - 1]);
        }
        lemma_strip_trailing(t, b - a);
        assert(t.take(b - a) =~= s@.subrange(a as int, b as int));
    }
    slice_chars(s, a, b)
}

/// The scheme `gsettings get org.gnome.desktop.interface color-scheme`
/// printed: dark when the value, trimmed and unquoted, is `prefer-dark`.
pub open spec fn spec_scheme_of(out: Seq<char>) -> ColorScheme {
    if strip_quotes(trim(out)) == "prefer-dark"@ {
        ColorScheme::Dark
    } else {
        ColorScheme::Light
    }
}

/// Reads what `gsettings get` printed for the colour scheme.
pub fn scheme_from_text(out: &str) -> (r: ColorScheme)
    ensures
        r == spec_scheme_of(out@),
{
    let cs: Vec<char> = chars_of(out);
    let t: Vec<char> = trim_chars(&cs);
    let v: Vec<char> = strip_quotes_chars(&t);
    if crate::text::chars_eq_str(&v, "prefer-dark") {
        ColorScheme::Dark
    } else {
        ColorScheme::Light
    }
}

/// The system's colour scheme from the run of `gsettings get` (none when it
/// could not run): light unless it succeeded and said `prefer-dark`.
pub fn scheme_from_output(output: &Option<CommandOutput>) -> (r: ColorScheme)
    ensures
        r == match output {
            Some(o) => if o.success {
                spec_scheme_of(lossy_utf8(o.stdout@))
            } else {
                ColorScheme::Light
            },
            None => ColorScheme::Light,
        },
{
    match output {
        Some(o) => {
            if o.success {
                let text: String = lossy_text(&o.stdout);
                scheme_from_text(text.as_str())
            } else {
                ColorScheme::Light
            }
        },
        None => ColorScheme::Light,
    }
}

/// Whether the dark-mode switch can be offered: `gsettings get` ran and succeeded.
pub fn dark_mode_available(output: &Option<CommandOutput>) -> (r: bool)
    ensures
        r == (output matches Some(o) && o.success),
{
    match output {
        Some(o) => o.success,
        None => false,
    }
}

/// `gsettings get org.gnome.desktop.interface color-scheme`.
pub fn get_scheme_invocation() -> (r: Invocation)
    ensures
        r.spec_parts() == ("gsettings"@, seq![
            "get"@,
            "org.gnome.desktop.interface"@,
            "color-scheme"@,
        ]),
{
    Invocation::new("gsettings").arg("get").arg("org.gnome.desktop.interface").arg("color-scheme")
}

/// `gsettings set org.gnome.desktop.interface color-scheme prefer-dark|default`.
pub fn set_dark(dark: bool) -> (r: Invocation)
    ensures
        r.spec_parts() == ("gsettings"@, seq![
            "set"@,
            "org.gnome.desktop.interface"@,
            "color-scheme"@,
            if dark { "prefer-dark"@ } else { "default"@ },
        ]),
{
    Invocation::new("gsettings").arg("set").arg("org.gnome.desktop.interface").arg(
        "color-scheme",
    ).arg(if dark { "prefer-dark" } else { "default" })
}

/// The dark-mode switch's position: what the applet last set, else what the
/// system reports.
pub fn shown_dark(known: Option<bool>, system: ColorScheme) -> (r: bool)
    ensures
        r == match known {
            Some(k) => k,
            None => system == ColorScheme::Dark,
        },
{
    match known {
        Some(k) => k,
        None => system == ColorScheme::Dark,
    }
}

/// The bar's colours for a scheme, as CSS colour expressions.
#[derive(Clone, Copy, Debug)]
pub struct Palette {
    pub bg_hex: &'static str,
    pub fg: &'static str,
    pub popover_bg: &'static str,
    pub workspace_active: &'static str,
    pub applet_hover: &'static str,
    pub applet_press: &'static str,
    pub wifi_connected: &'static str,
    pub subtitle: &'static str,
    pub error: &'static str,
}

/// The palette of a scheme: light grey on near black for dark, the reverse
/// for light, translucent tints of the foreground for highlights.
pub fn palette(scheme: ColorScheme) -> (p: Palette)
    ensures
        scheme == ColorScheme::Light ==> {
            &&& p.bg_hex@ == "#E6E6E6"@
            &&& p.fg@ == "#1a1a1a"@
            &&& p.popover_bg@ == "alpha(#E6E6E6, 0.97)"@
            &&& p.workspace_active@ == "alpha(#1a1a1a, 0.22)"@
            &&& p.applet_hover@ == "alpha(#1a1a1a, 0.12)"@
            &&& p.applet_press@ == "alpha(#1a1a1a, 0.22)"@
            &&& p.wifi_connected@ == "alpha(#1a1a1a, 0.16)"@
            &&& p.subtitle@ == "alpha(#1a1a1a, 0.65)"@
            &&& p.error@ == "#c0392b"@
        },
        scheme == ColorScheme::Dark ==> {
            &&& p.bg_hex@ == "#1e1e1e"@
            &&& p.fg@ == "#f5f5f5"@
            &&& p.popover_bg@ == "alpha(#1e1e1e, 0.97)"@
            &&& p.workspace_active@ == "alpha(#f5f5f5, 0.22)"@
            &&& p.applet_hover@ == "alpha(#f5f5f5, 0.12)"@
            &&& p.applet_press@ == "alpha(#f5f5f5, 0.22)"@
            &&& p.wifi_connected@ == "alpha(#f5f5f5, 0.16)"@
            &&& p.subtitle@ == "alpha(#f5f5f5, 0.65)"@
            &&& p.error@ == "#ff6b6b"@
        },
{
    match scheme {
        ColorScheme::Light => Palette {
            bg_hex: "#E6E6E6",
            fg: "#1a1a1a",
            popover_bg: "alpha(#E6E6E6, 0.97)",
            workspace_active: "alpha(#1a1a1a, 0.22)",
            applet_hover: "alpha(#1a1a1a, 0.12)",
            applet_press: "alpha(#1a1a1a, 0.22)",
            wifi_connected: "alpha(#1a1a1a, 0.16)",
            subtitle: "alpha(#1a1a1a, 0.65)",
            error: "#c0392b",
        },
        ColorScheme::Dark => Palette {
            bg_hex: "#1e1e1e",
            fg: "#f5f5f5",
            popover_bg: "alpha(#1e1e1e, 0.97)",
            workspace_active: "alpha(#f5f5f5, 0.22)",
            applet_hover: "alpha(#f5f5f5, 0.12)",
            applet_press: "alpha(#f5f5f5, 0.22)",
            wifi_connected: "alpha(#f5f5f5, 0.16)",
            subtitle: "alpha(#f5f5f5, 0.65)",
            error: "#ff6b6b",
        },
    }
}

/// The scheme the bar is drawn in for a fixed preference; none when the
/// preference is to follow the system.
pub fn fixed_scheme(preference: crate::config::ThemePreference) -> (r: Option<ColorScheme>)
    ensures
        r == match preference {
            crate::config::ThemePreference::System => None,
            crate::config::ThemePreference::Light => Some(ColorScheme::Light),
            crate::config::ThemePreference::Dark => Some(ColorScheme::Dark),
        },
{
    match preference {
        crate::config::ThemePreference::System => None,
        crate::config::ThemePreference::Light => Some(ColorScheme::Light),
        crate::config::ThemePreference::Dark => Some(ColorScheme::Dark),
    }
}

} // verus!
