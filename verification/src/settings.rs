//! The settings window: what each drop-down's entries stand for, the
//! monitor and bar-height choices, the list of XKB layouts being edited,
//! and which running bars a saved configuration restarts.
use vstd::prelude::*;
use crate::config::{ClockFormat, ClockMode, PlacesDisplayMode, ThemePreference, XkbGroupToggle};
use crate::text::{chars_of, decimal, push_decimal, push_str, string_from_chars, string_views, text_eq, trim, trim_chars, parse_u32, parse_unsigned};

verus! {

/// The bar heights on offer, in pixels.
pub open spec fn bar_height_options() -> Seq<u32> {
    seq![25, 33, 40, 50, 60]
}

/// At most this many XKB layouts can be configured.
pub const MAX_XKB_LAYOUTS: usize = 5;

pub open spec fn spec_theme_index(t: ThemePreference) -> u32 {
    match t {
        ThemePreference::System => 0,
        ThemePreference::Light => 1,
        ThemePreference::Dark => 2,
    }
}

pub open spec fn spec_theme_from_index(i: u32) -> ThemePreference {
    if i == 1 {
        ThemePreference::Light
    } else if i == 2 {
        ThemePreference::Dark
    } else {
        ThemePreference::System
    }
}

/// The theme drop-down's entry for a preference (System, Light, Dark).
pub fn theme_index(t: ThemePreference) -> (r: u32)
    ensures
        r == spec_theme_index(t),
{
    match t {
        ThemePreference::System => 0,
        ThemePreference::Light => 1,
        ThemePreference::Dark => 2,
    }
}

/// The preference a theme drop-down entry stands for; System for any other.
pub fn theme_from_index(i: u32) -> (r: ThemePreference)
    ensures
        r == spec_theme_from_index(i),
{
    if i == 1 {
        ThemePreference::Light
    } else if i == 2 {
        ThemePreference::Dark
    } else {
        ThemePreference::System
    }
}

pub open spec fn spec_clock_mode_index(m: ClockMode) -> u32 {
    match m {
        ClockMode::Time => 0,
        ClockMode::DateTime => 1,
    }
}

pub open spec fn spec_clock_mode_from_index(i: u32) -> ClockMode {
    if i == 1 {
        ClockMode::DateTime
    } else {
        ClockMode::Time
    }
}

/// The clock drop-down's entry for a mode (Time, Date and time).
pub fn clock_mode_index(m: ClockMode) -> (r: u32)
    ensures
        r == spec_clock_mode_index(m),
{
    match m {
        ClockMode::Time => 0,
        ClockMode::DateTime => 1,
    }
}

/// The mode a clock drop-down entry stands for; Time for any other.
pub fn clock_mode_from_index(i: u32) -> (r: ClockMode)
    ensures
        r == spec_clock_mode_from_index(i),
{
    if i == 1 {
        ClockMode::DateTime
    } else {
        ClockMode::Time
    }
}

pub open spec fn spec_clock_format_index(f: ClockFormat) -> u32 {
    match f {
        ClockFormat::Hour24 => 0,
        ClockFormat::Hour12 => 1,
    }
}

pub open spec fn spec_clock_format_from_index(i: u32) -> ClockFormat {
    if i == 1 {
        ClockFormat::Hour12
    } else {
        ClockFormat::Hour24
    }
}

/// The time-format drop-down's entry for a format (24-hour, 12-hour).
pub fn clock_format_index(f: ClockFormat) -> (r: u32)
    ensures
        r == spec_clock_format_index(f),
{
    match f {
        ClockFormat::Hour24 => 0,
        ClockFormat::Hour12 => 1,
    }
}

/// The format a time-format drop-down entry stands for; 24-hour for any other.
pub fn clock_format_from_index(i: u32) -> (r: ClockFormat)
    ensures
        r == spec_clock_format_from_index(i),
{
    if i == 1 {
        ClockFormat::Hour12
    } else {
        ClockFormat::Hour24
    }
}

pub open spec fn spec_places_index(m: PlacesDisplayMode) -> u32 {
    match m {
        PlacesDisplayMode::Icon => 0,
        PlacesDisplayMode::Text => 1,
        PlacesDisplayMode::IconAndText => 2,
    }
}

pub open spec fn spec_places_from_index(i: u32) -> PlacesDisplayMode {
    if i == 0 {
        PlacesDisplayMode::Icon
    } else if i == 1 {
        PlacesDisplayMode::Text
    } else {
        PlacesDisplayMode::IconAndText
    }
}

/// The places drop-down's entry for a display mode (Icon, Text, Icon and text).
pub fn places_index(m: PlacesDisplayMode) -> (r: u32)
    ensures
        r == spec_places_index(m),
{
    match m {
        PlacesDisplayMode::Icon => 0,
        PlacesDisplayMode::Text => 1,
        PlacesDisplayMode::IconAndText => 2,
    }
}

/// The display mode a places drop-down entry stands for; Icon and text for
/// any other.
pub fn places_from_index(i: u32) -> (r: PlacesDisplayMode)
    ensures
        r == spec_places_from_index(i),
{
    if i == 0 {
        PlacesDisplayMode::Icon
    } else if i == 1 {
        PlacesDisplayMode::Text
    } else {
        PlacesDisplayMode::IconAndText
    }
}

pub open spec fn spec_toggle_index(t: XkbGroupToggle) -> u32 {
    match t {
        XkbGroupToggle::AltShift => 0,
        XkbGroupToggle::SuperSpace => 1,
        XkbGroupToggle::CtrlShift => 2,
        XkbGroupToggle::CapsLock => 3,
    }
}

pub open spec fn spec_toggle_from_index(i: u32) -> XkbGroupToggle {
    if i == 1 {
        XkbGroupToggle::SuperSpace
    } else if i == 2 {
        XkbGroupToggle::CtrlShift
    } else if i == 3 {
        XkbGroupToggle::CapsLock
    } else {
        XkbGroupToggle::AltShift
    }
}

/// The switch-key drop-down's entry for a toggle (Alt+Shift, Super+Space,
/// Ctrl+Shift, Caps Lock).
pub fn toggle_index(t: XkbGroupToggle) -> (r: u32)
    ensures
        r == spec_toggle_index(t),
{
    match t {
        XkbGroupToggle::AltShift => 0,
        XkbGroupToggle::SuperSpace => 1,
        XkbGroupToggle::CtrlShift => 2,
        XkbGroupToggle::CapsLock => 3,
    }
}

/// The toggle a switch-key drop-down entry stands for; Alt+Shift for any other.
pub fn toggle_from_index(i: u32) -> (r: XkbGroupToggle)
    ensures
        r == spec_toggle_from_index(i),
{
    if i == 1 {
        XkbGroupToggle::SuperSpace
    } else if i == 2 {
        XkbGroupToggle::CtrlShift
    } else if i == 3 {
        XkbGroupToggle::CapsLock
    } else {
        XkbGroupToggle::AltShift
    }
}

/// Every drop-down shows the saved setting: reading back the entry a
/// setting is shown at gives the setting.
pub proof fn law_dropdowns_round_trip(
    t: ThemePreference,
    m: ClockMode,
    f: ClockFormat,
    p: PlacesDisplayMode,
    g: XkbGroupToggle,
)
    ensures
        spec_theme_from_index(spec_theme_index(t)) == t,
        spec_clock_mode_from_index(spec_clock_mode_index(m)) == m,
        spec_clock_format_from_index(spec_clock_format_index(f)) == f,
        spec_places_from_index(spec_places_index(p)) == p,
        spec_toggle_from_index(spec_toggle_index(g)) == g,
{
}

/// Whether GTK should prefer its dark theme: as the preference says, or as
/// the system's scheme says when the preference is to follow it.
pub fn prefer_dark(preference: ThemePreference, system_is_dark: bool) -> (r: bool)
    ensures
        r == match preference {
            ThemePreference::Light => false,
            ThemePreference::Dark => true,
            ThemePreference::System => system_is_dark,
        },
{
    match preference {
        ThemePreference::Light => false,
        ThemePreference::Dark => true,
        ThemePreference::System => system_is_dark,
    }
}

pub open spec fn opt_text(t: Option<String>) -> Option<Seq<char>> {
    match t {
        Some(s) => Some(s@),
        None => None,
    }
}

pub open spec fn opt_texts(v: Seq<Option<String>>) -> Seq<Option<Seq<char>>> {
    v.map_values(|t: Option<String>| opt_text(t))
}

/// The monitor drop-down: `Automatic`, each connected monitor's connector,
/// and the configured monitor marked as disconnected when it is not among them.
pub open spec fn spec_monitor_options(
    selected: Option<Seq<char>>,
    connectors: Seq<Seq<char>>,
) -> (Seq<Seq<char>>, Seq<Option<Seq<char>>>) {
    let labels = seq!["Automatic"@] + connectors;
    let values = seq![None] + connectors.map_values(|c: Seq<char>| Some(c));
    match selected {
        Some(name) => if values.contains(Some(name)) {
            (labels, values)
        } else {
            (labels.push(name + " (disconnected)"@), values.push(Some(name)))
        },
        None => (labels, values),
    }
}

/// The monitor drop-down's labels and the setting each stands for.
pub fn monitor_options(selected: &Option<String>, connectors: &Vec<String>) -> (r: (
    Vec<String>,
    Vec<Option<String>>,
))
    ensures
        (string_views(r.0@), opt_texts(r.1@)) == spec_monitor_options(
            opt_text(*selected),
            string_views(connectors@),
        ),
{
    let mut labels: Vec<String> = Vec::new();
    let mut values: Vec<Option<String>> = Vec::new();
    labels.push(crate::text::owned("Automatic"));
    values.push(None);
    let ghost cs = string_views(connectors@);
    let mut k: usize = 0;
    let mut found: bool = false;
    while k < connectors.len()
        invariant
            k <= connectors.len(),
            cs == string_views(connectors@),
            string_views(labels@) == seq!["Automatic"@] + cs.take(k as int),
            opt_texts(values@) == seq![None] + cs.take(k as int).map_values(
                |c: Seq<char>| Some(c),
            ),
            found == (opt_text(*selected) matches Some(name) && cs.take(k as int).contains(name)),
        decreases connectors.len() - k,
    {
        let name: String = connectors[k].clone();
        let ghost lb = string_views(labels@);
        let ghost vb = opt_texts(values@);
        match selected {
            Some(sel) => {
                if text_eq(sel.as_str(), name.as_str()) {
                    found = true;
                }
            },
            None => {},
        }
        labels.push(name.clone());
        values.push(Some(name));
        proof {
            assert(cs.take(k + 1) =~= cs.take(k as int).push(cs[k as int]));
            assert(string_views(labels@) =~= lb.push(cs[k as int]));
            assert(opt_texts(values@) =~= vb.push(Some(cs[k as int])));
            assert(cs.take(k + 1).map_values(|c: Seq<char>| Some(c)) =~= cs.take(
                k as int,
            ).map_values(|c: Seq<char>| Some(c)).push(Some(cs[k as int])));
            if let Some(sel) = opt_text(*selected) {
                if cs.take(k + 1).contains(sel) && !cs.take(k as int).contains(sel) {
                    let j = choose|j: int| 0 <= j < k + 1 && #[trigger] cs.take(k + 1)[j] == sel;
                    if j < k {
                        assert(cs.take(k as int)[j] == sel);
                    }
                }
                if cs.take(k as int).contains(sel) {
                    let j = choose|j: int| 0 <= j < k && #[trigger] cs.take(k as int)[j] == sel;
                    assert(cs.take(k + 1)[j] == sel);
                }
                if sel == cs[k as int] {
                    assert(cs.take(k + 1)[k as int] == sel);
                }
            }
        }
        k = k + 1;
    }
    proof {
        assert(cs.take(k as int) =~= cs);
    }
    let ghost values_view = seq![None] + cs.map_values(|c: Seq<char>| Some(c));
    proof {
        if let Some(sel) = opt_text(*selected) {
            if values_view.contains(Some(sel)) {
                let j = choose|j: int| 0 <= j < values_view.len() && #[trigger] values_view[j] == Some(sel);
                assert(j >= 1);
                assert(cs[j - 1] == sel);
            }
            if cs.contains(sel) {
                let j = choose|j: int| 0 <= j < cs.len() && #[trigger] cs[j] == sel;
                assert(values_view[j + 1] == Some(sel));
            }
        }
    }
    match selected {
        Some(sel) => {
            if !found {
                let ghost lb = string_views(labels@);
                let ghost vb = opt_texts(values@);
                let mut t: Vec<char> = chars_of(sel.as_str());
                push_str(&mut t, " (disconnected)");
                labels.push(string_from_chars(&t));
                values.push(Some(sel.clone()));
                proof {
                    assert(string_views(labels@) =~= lb.push(sel@ + " (disconnected)"@));
                    assert(opt_texts(values@) =~= vb.push(Some(sel@)));
                }
            }
        },
        None => {},
    }
    (labels, values)
}

/// The first entry whose value is the configured monitor; 0 when there is none.
pub fn monitor_index(values: &Vec<Option<String>>, selected: &Option<String>) -> (r: usize)
    ensures
        forall|j: int| 0 <= j < r ==> opt_text(values@[j]) != opt_text(*selected),
        (exists|j: int| 0 <= j < values@.len() && opt_text(values@[j]) == opt_text(*selected))
            ==> r < values@.len() && opt_text(values@[r as int]) == opt_text(*selected),
        (forall|j: int| 0 <= j < values@.len() ==> opt_text(values@[j]) != opt_text(*selected))
            ==> r == 0,
{
    let mut k: usize = 0;
    while k < values.len()
        invariant
            k <= values.len(),
            forall|j: int| 0 <= j < k ==> opt_text(values@[j]) != opt_text(*selected),
        decreases values.len() - k,
    {
        let same: bool = match (&values[k], selected) {
            (Some(a), Some(b)) => text_eq(a.as_str(), b.as_str()),
            (None, None) => true,
            _ => false,
        };
        if same {
            return k;
        }
        k = k + 1;
    }
    0
}

/// The label of a bar height: `"<h>px"`, with ` (default)` for the default.
pub fn height_label(height: u32, default_height: u32) -> (r: String)
    ensures
        r@ == decimal(height as nat) + if height == default_height {
            "px (default)"@
        } else {
            "px"@
        },
{
    let mut out: Vec<char> = Vec::new();
    push_decimal(&mut out, height as u64);
    if height == default_height {
        push_str(&mut out, "px (default)");
    } else {
        push_str(&mut out, "px");
    }
    string_from_chars(&out)
}

/// The heights on offer.
pub fn bar_heights() -> (r: Vec<u32>)
    ensures
        r@ == bar_height_options(),
{
    vec![25, 33, 40, 50, 60]
}

/// The bar-height drop-down's labels.
pub fn height_labels(default_height: u32) -> (r: Vec<String>)
    ensures
        r@.len() == bar_height_options().len(),
        forall|i: int|
            0 <= i < r@.len() ==> r@[i]@ == decimal(bar_height_options()[i] as nat) + if
                bar_height_options()[i] == default_height {
                "px (default)"@
            } else {
                "px"@
            },
{
    let hs: Vec<u32> = bar_heights();
    let mut r: Vec<String> = Vec::new();
    let mut k: usize = 0;
    while k < hs.len()
        invariant
            k <= hs.len(),
            hs@ == bar_height_options(),
            r@.len() == k,
            forall|i: int|
                0 <= i < k ==> r@[i]@ == decimal(bar_height_options()[i] as nat) + if
                    bar_height_options()[i] == default_height {
                    "px (default)"@
                } else {
                    "px"@
                },
        decreases hs.len() - k,
    {
        r.push(height_label(hs[k], default_height));
        k = k + 1;
    }
    r
}

/// The entry that shows the configured height: the first with that height,
/// else the first.
pub fn height_index(bar_height: u32) -> (r: usize)
    ensures
        r < bar_height_options().len(),
        bar_height_options().contains(bar_height) ==> bar_height_options()[r as int] == bar_height,
        !bar_height_options().contains(bar_height) ==> r == 0,
{
    let hs: Vec<u32> = bar_heights();
    let mut k: usize = 0;
    while k < hs.len()
        invariant
            k <= hs.len(),
            hs@ == bar_height_options(),
            forall|j: int| 0 <= j < k ==> hs@[j] != bar_height,
        decreases hs.len() - k,
    {
        if hs[k] == bar_height {
            return k;
        }
        k = k + 1;
    }
    0
}

/// The height a drop-down entry stands for; the default for any other.
pub fn height_from_index(i: u32, default_height: u32) -> (r: u32)
    ensures
        r == if i < bar_height_options().len() { bar_height_options()[i as int] } else { default_height },
{
    let hs: Vec<u32> = bar_heights();
    if (i as usize) < hs.len() {
        hs[i as usize]
    } else {
        default_height
    }
}

/// A layout code can be added while there are fewer than five, and when,
/// trimmed, it is not empty.
pub open spec fn spec_add_layout(layouts: Seq<Seq<char>>, entry: Seq<char>) -> Seq<Seq<char>> {
    if layouts.len() < 5 && trim(entry).len() > 0 {
        layouts.push(trim(entry))
    } else {
        layouts
    }
}

/// Adds the code typed in the entry to the layouts; says whether it did.
pub fn add_layout(layouts: &mut Vec<String>, entry: &str) -> (added: bool)
    ensures
        string_views(final(layouts)@) == spec_add_layout(string_views(old(layouts)@), entry@),
        added == (old(layouts)@.len() < 5 && trim(entry@).len() > 0),
{
    if layouts.len() >= MAX_XKB_LAYOUTS {
        return false;
    }
    let cs: Vec<char> = chars_of(entry);
    let t: Vec<char> = trim_chars(&cs);
    if t.len() == 0 {
        return false;
    }
    let ghost before = string_views(layouts@);
    layouts.push(string_from_chars(&t));
    proof {
        assert(string_views(layouts@) =~= before.push(trim(entry@)));
    }
    true
}

/// Removes the layout at `index`.
pub fn remove_layout(layouts: &mut Vec<String>, index: usize)
    requires
        index < old(layouts)@.len(),
    ensures
        final(layouts)@ == old(layouts)@.remove(index as int),
{
    layouts.remove(index);
}

/// The layout list never holds more than five layouts.
pub proof fn law_layouts_bounded(layouts: Seq<Seq<char>>, entry: Seq<char>)
    requires
        layouts.len() <= 5,
    ensures
        spec_add_layout(layouts, entry).len() <= 5,
{
}

/// Whether the layout list is full.
pub fn layouts_full(layouts: &Vec<String>) -> (r: bool)
    ensures
        r == (layouts@.len() >= 5),
{
    layouts.len() >= MAX_XKB_LAYOUTS
}

/// The hint the layout entry shows.
pub fn layout_placeholder(full: bool) -> (r: &'static str)
    ensures
        r@ == if full { "Maximum of 5 layouts reached"@ } else { "e.g. us, de, us(dvorak)"@ },
{
    if full {
        "Maximum of 5 layouts reached"
    } else {
        "e.g. us, de, us(dvorak)"
    }
}

/// The NUL-separated arguments of a process's command line.
pub open spec fn nul_args(cmdline: Seq<u8>) -> Seq<Seq<u8>>
    decreases cmdline.len(),
{
    if cmdline.len() == 0 {
        seq![seq![]]
    } else {
        let rest = nul_args(cmdline.drop_last());
        if cmdline.last() == 0 {
            rest.push(seq![])
        } else {
            rest.update(rest.len() - 1, rest.last().push(cmdline.last()))
        }
    }
}

pub proof fn lemma_nul_args_nonempty(cmdline: Seq<u8>)
    ensures
        nul_args(cmdline).len() >= 1,
    decreases cmdline.len(),
{
    if cmdline.len() > 0 {
        lemma_nul_args_nonempty(cmdline.drop_last());
    }
}

pub open spec fn config_flag() -> Seq<u8> {
    seq![45u8, 45u8, 99u8, 111u8, 110u8, 102u8, 105u8, 103u8]
}

/// Whether a command line is a settings window's: one of its arguments is `--config`.
pub open spec fn spec_is_settings_cmdline(cmdline: Seq<u8>) -> bool {
    nul_args(cmdline).contains(config_flag())
}

/// Whether a process's command line (its `/proc/<pid>/cmdline` bytes) is a
/// settings window's: one NUL-separated argument is `--config`.
pub fn is_settings_cmdline(cmdline: &Vec<u8>) -> (r: bool)
    ensures
        r == spec_is_settings_cmdline(cmdline@),
{
    let flag: Vec<u8> = vec![45u8, 45u8, 99u8, 111u8, 110u8, 102u8, 105u8, 103u8];
    let mut cur: Vec<u8> = Vec::new();
    let mut found: bool = false;
    let mut k: usize = 0;
    proof {
        assert(cmdline@.take(0) =~= Seq::<u8>::empty());
    }
    while k < cmdline.len()
        invariant
            k <= cmdline.len(),
            flag@ == config_flag(),
            nul_args(cmdline@.take(k as int)).len() >= 1,
            cur@ == nul_args(cmdline@.take(k as int)).last(),
            found == nul_args(cmdline@.take(k as int)).drop_last().contains(config_flag()),
        decreases cmdline.len() - k,
    {
        let ghost prev = nul_args(cmdline@.take(k as int));
        proof {
            assert(cmdline@.take(k + 1).drop_last() =~= cmdline@.take(k as int));
            assert(cmdline@.take(k + 1).last() == cmdline@[k as int]);
        }
        let b: u8 = cmdline[k];
        if b == 0 {
            let same: bool = bytes_eq(&cur, &flag);
            found = found || same;
            cur = Vec::new();
            proof {
                let next = prev.push(seq![]);
                assert(next.drop_last() =~= prev);
                assert(prev =~= prev.drop_last().push(prev.last()));
                assert(prev.contains(config_flag()) == (prev.drop_last().contains(config_flag())
                    || prev.last() == config_flag())) by {
                    if prev.contains(config_flag()) {
                        let j = choose|j: int| 0 <= j < prev.len() && #[trigger] prev[j] == config_flag();
                        if j < prev.len() - 1 {
                            assert(prev.drop_last()[j] == config_flag());
                        }
                    }
                    if prev.drop_last().contains(config_flag()) {
                        let j = choose|j: int|
                            0 <= j < prev.drop_last().len() && #[trigger] prev.drop_last()[j]
                                == config_flag();
                        assert(prev[j] == config_flag());
                    }
                    if prev.last() == config_flag() {
                        assert(prev[prev.len() - 1] == config_flag());
                    }
                }
            }
        } else {
            cur.push(b);
            proof {
                let next = prev.update(prev.len() - 1, prev.last().push(b));
                assert(next.drop_last() =~= prev.drop_last());
            }
        }
        k = k + 1;
    }
    proof {
        assert(cmdline@.take(k as int) =~= cmdline@);
        let all = nul_args(cmdline@);
        assert(all =~= all.drop_last().push(all.last()));
        if all.contains(config_flag()) {
            let j = choose|j: int| 0 <= j < all.len() && #[trigger] all[j] == config_flag();
            if j < all.len() - 1 {
                assert(all.drop_last()[j] == config_flag());
            }
        }
        if all.drop_last().contains(config_flag()) {
            let j = choose|j: int|
                0 <= j < all.drop_last().len() && #[trigger] all.drop_last()[j] == config_flag();
            assert(all[j] == config_flag());
        }
        if cur@ == config_flag() {
            assert(all[all.len() - 1] == config_flag());
        }
    }
    found || bytes_eq(&cur, &flag)
}

fn bytes_eq(a: &Vec<u8>, b: &Vec<u8>) -> (r: bool)
    ensures
        r == (a@ == b@),
{
    if a.len() != b.len() {
        return false;
    }
    let mut i: usize = 0;
    while i < a.len()
        invariant
            a.len() == b.len(),
            i <= a.len(),
            forall|k: int| 0 <= k < i ==> a@[k] == b@[k],
        decreases a.len() - i,
    {
        if a[i] != b[i] {
            return false;
        }
        i = i + 1;
    }
    assert(a@ =~= b@);
    true
}

/// Whether saving the settings stops a process: it is a running bar of the
/// same program (its directory name is a process id other than ours, its
/// executable is ours), not another settings window.
pub fn stops_process(
    entry_name: &str,
    my_pid: u32,
    same_executable: bool,
    cmdline: &Vec<u8>,
) -> (r: Option<u32>)
    ensures
        r matches Some(pid) ==> parse_unsigned(entry_name@, u32::MAX as nat) == Some(pid as nat)
            && pid != my_pid && same_executable && !spec_is_settings_cmdline(cmdline@),
        r is None ==> (parse_unsigned(entry_name@, u32::MAX as nat) is None || parse_unsigned(
            entry_name@,
            u32::MAX as nat,
        ) == Some(my_pid as nat) || !same_executable || spec_is_settings_cmdline(cmdline@)),
{
    let cs: Vec<char> = chars_of(entry_name);
    let pid: u32 = match parse_u32(&cs) {
        Some(p) => p,
        None => {
            return None;
        },
    };
    if pid == my_pid || !same_executable {
        return None;
    }
    if is_settings_cmdline(cmdline) {
        return None;
    }
    Some(pid)
}

} // verus!
