//! The keyboard applet: switching XKB layouts (through niri, or by pressing
//! the group toggle on a virtual keyboard), keeping niri's layout list in
//! step, and the keyboard backlight's two levels.
use vstd::prelude::*;
use crate::config::XkbGroupToggle;
use crate::niri_config::{kdl_parse_v1, kdl_v1_accepts};
use crate::text::{chars_of, contains_text, join, join_strings, parse_u32, parse_unsigned, push_str, string_from_chars, string_views, text_contains, trim, trim_chars};

verus! {

/// Linux evdev key codes, as the virtual keyboard sends them.
pub const KEY_LEFTCTRL: u32 = 29;

pub const KEY_LEFTSHIFT: u32 = 42;

pub const KEY_CAPSLOCK: u32 = 58;

pub const KEY_LEFTALT: u32 = 56;

pub const KEY_SPACE: u32 = 57;

pub const KEY_LEFTMETA: u32 = 125;

pub const KEY_STATE_PRESSED: u32 = 1;

pub const KEY_STATE_RELEASED: u32 = 0;

/// What the keyboard applet asks of the layout switcher.
#[derive(Clone, Copy, Debug, PartialEq, Eq, Structural)]
pub enum Command {
    SwitchToGroup(u32),
}

pub open spec fn spec_toggle_keys(toggle: XkbGroupToggle) -> Seq<u32> {
    match toggle {
        XkbGroupToggle::AltShift => seq![KEY_LEFTALT, KEY_LEFTSHIFT],
        XkbGroupToggle::SuperSpace => seq![KEY_LEFTMETA, KEY_SPACE],
        XkbGroupToggle::CtrlShift => seq![KEY_LEFTCTRL, KEY_LEFTSHIFT],
        XkbGroupToggle::CapsLock => seq![KEY_CAPSLOCK],
    }
}

/// The keys that make up a group toggle, in the order they are pressed.
pub fn toggle_keys(toggle: XkbGroupToggle) -> (r: Vec<u32>)
    ensures
        r@ == spec_toggle_keys(toggle),
{
    match toggle {
        XkbGroupToggle::AltShift => vec![KEY_LEFTALT, KEY_LEFTSHIFT],
        XkbGroupToggle::SuperSpace => vec![KEY_LEFTMETA, KEY_SPACE],
        XkbGroupToggle::CtrlShift => vec![KEY_LEFTCTRL, KEY_LEFTSHIFT],
        XkbGroupToggle::CapsLock => vec![KEY_CAPSLOCK],
    }
}

/// The key events of one toggle: each key pressed in order, then each
/// released in the reverse order.
pub fn toggle_events(keys: &Vec<u32>) -> (r: Vec<(u32, u32)>)
    ensures
        r@.len() == 2 * keys@.len(),
        forall|i: int| 0 <= i < keys@.len() ==> r@[i] == (keys@[i], KEY_STATE_PRESSED),
        forall|i: int|
            keys@.len() <= i < 2 * keys@.len() ==> r@[i] == (
                keys@[2 * keys@.len() - 1 - i],
                KEY_STATE_RELEASED,
            ),
{
    let mut r: Vec<(u32, u32)> = Vec::new();
    let n: usize = keys.len();
    let mut i: usize = 0;
    while i < n
        invariant
            n == keys@.len(),
            i <= n,
            r@.len() == i,
            forall|j: int| 0 <= j < i ==> r@[j] == (keys@[j], KEY_STATE_PRESSED),
        decreases n - i,
    {
        r.push((keys[i], KEY_STATE_PRESSED));
        i = i + 1;
    }
    let mut j: usize = 0;
    while j < n
        invariant
            n == keys@.len(),
            j <= n,
            r@.len() == n + j,
            forall|m: int| 0 <= m < n ==> r@[m] == (keys@[m], KEY_STATE_PRESSED),
            forall|m: int| n <= m < n + j ==> r@[m] == (keys@[2 * n - 1 - m], KEY_STATE_RELEASED),
        decreases n - j,
    {
        r.push((keys[n - 1 - j], KEY_STATE_RELEASED));
        j = j + 1;
    }
    r
}

/// The layout index niri is asked for: niri takes it as a `u8`.
pub fn niri_layout_index(target: u32) -> (r: Option<u8>)
    ensures
        r matches Some(i) ==> i == target,
        r is None <==> target > u8::MAX,
{
    if target <= 255 {
        Some(target as u8)
    } else {
        None
    }
}

/// The virtual keyboard's idea of the active XKB group. Switching presses
/// the group toggle until the wanted group comes round.
pub struct GroupCycler {
    layout_count: u32,
    current_group: u32,
}

impl GroupCycler {
    pub closed spec fn layout_count(&self) -> nat {
        self.layout_count as nat
    }

    pub closed spec fn current_group(&self) -> nat {
        self.current_group as nat
    }

    /// The group is always one of the layouts.
    pub closed spec fn wf(&self) -> bool {
        self.layout_count > 0 && self.current_group < self.layout_count
    }

    /// A keyboard with `layout_count` layouts, on the first.
    pub fn new(layout_count: u32) -> (r: Self)
        requires
            layout_count > 0,
        ensures
            r.wf(),
            r.layout_count() == layout_count,
            r.current_group() == 0,
    {
        GroupCycler { layout_count, current_group: 0 }
    }

    /// How many toggles take the keyboard to group `target`: none and no
    /// change when there is no such group.
    pub fn switch_to(&mut self, target: u32) -> (presses: Option<u32>)
        requires
            old(self).wf(),
        ensures
            final(self).wf(),
            final(self).layout_count() == old(self).layout_count(),
            target < old(self).layout_count() ==> presses == Some(
                ((target + old(self).layout_count() - old(self).current_group()) % (old(
                    self,
                ).layout_count() as int)) as u32,
            ) && final(self).current_group() == target,
            target >= old(self).layout_count() ==> presses is None && final(self).current_group()
                == old(self).current_group(),
    {
        if target >= self.layout_count {
            return None;
        }
        let count: u64 = self.layout_count as u64;
        let steps: u64 = (target as u64 + count - self.current_group as u64) % count;
        assert(steps < count);
        self.current_group = target;
        Some(steps as u32)
    }
}

/// Toggling as often as `switch_to` says lands on the wanted group.
pub proof fn law_presses_reach_target(count: nat, current: nat, target: nat)
    requires
        0 < count,
        current < count,
        target < count,
    ensures
        (current + (target + count - current) % (count as int)) % (count as int) == target,
{
    let d = (target + count - current) as int;
    let c = count as int;
    assert(0 < d < 2 * c);
    if d < c {
        assert(d % c == d) by (nonlinear_arith)
            requires
                0 <= d < c,
        ;
        assert((current + d) % c == target) by (nonlinear_arith)
            requires
                current + d == target + c,
                0 <= target < c,
        ;
    } else {
        assert(d % c == d - c) by (nonlinear_arith)
            requires
                c <= d < 2 * c,
        ;
        assert((current + (d - c)) % c == target) by (nonlinear_arith)
            requires
                current + (d - c) == target,
                0 <= target < c,
        ;
    }
}

/// The layout buttons' selection: a click on another layout asks for it.
pub struct LayoutSelection {
    current: usize,
}

impl LayoutSelection {
    pub closed spec fn current(&self) -> nat {
        self.current as nat
    }

    /// The first layout is selected at start.
    pub fn new() -> (r: Self)
        ensures
            r.current() == 0,
    {
        LayoutSelection { current: 0 }
    }

    /// A click on layout `index`: nothing when it is the current one, else
    /// it becomes current and the switcher is asked for it.
    pub fn select(&mut self, index: usize) -> (r: Option<Command>)
        ensures
            index == old(self).current() ==> r is None && final(self).current() == old(self).current(),
            index != old(self).current() ==> r == Some(Command::SwitchToGroup(index as u32))
                && final(self).current() == index,
    {
        if index == self.current {
            return None;
        }
        self.current = index;
        Some(Command::SwitchToGroup(index as u32))
    }
}

/// `s` with each backslash and double quote escaped by a backslash, as a
/// KDL string wants it.
pub open spec fn kdl_escape(s: Seq<char>) -> Seq<char>
    decreases s.len(),
{
    if s.len() == 0 {
        seq![]
    } else {
        let rest = kdl_escape(s.drop_last());
        let c = s.last();
        if c == '\\' {
            rest + seq!['\\', '\\']
        } else if c == '"' {
            rest + seq!['\\', '"']
        } else {
            rest.push(c)
        }
    }
}

/// The layouts as one comma-separated list, as XKB takes them.
pub fn join_layouts(layouts: &Vec<String>) -> (r: String)
    ensures
        r@ == join(string_views(layouts@), ","@),
{
    join_strings(layouts, ",")
}

/// The text of `s` escaped for a KDL string.
pub fn escape_kdl(s: &Vec<char>) -> (r: Vec<char>)
    ensures
        r@ == kdl_escape(s@),
{
    let mut r: Vec<char> = Vec::new();
    let mut k: usize = 0;
    while k < s.len()
        invariant
            k <= s.len(),
            r@ == kdl_escape(s@.take(k as int)),
        decreases s.len() - k,
    {
        proof {
            assert(s@.take(k + 1).drop_last() =~= s@.take(k as int));
            assert(s@.take(k + 1).last() == s@[k as int]);
        }
        let c: char = s[k];
        let ghost before = r@;
        if c == '\\' {
            r.push('\\');
            r.push('\\');
            assert(r@ =~= before + seq!['\\', '\\']);
        } else if c == '"' {
            r.push('\\');
            r.push('"');
            assert(r@ =~= before + seq!['\\', '"']);
        } else {
            r.push(c);
        }
        k = k + 1;
    }
    proof {
        assert(s@.take(k as int) =~= s@);
    }
    r
}

/// The value niri's `layout` setting gets: the layouts joined by commas and
/// escaped; none when there is no layout, and the setting is then removed.
pub fn niri_layout_value(layouts: &Vec<String>) -> (r: Option<String>)
    ensures
        layouts@.len() == 0 ==> r is None,
        layouts@.len() > 0 ==> (r matches Some(v) && v@ == kdl_escape(
            join(string_views(layouts@), ","@),
        )),
{
    if layouts.len() == 0 {
        return None;
    }
    let joined: String = join_layouts(layouts);
    let cs: Vec<char> = chars_of(joined.as_str());
    let escaped: Vec<char> = escape_kdl(&cs);
    Some(string_from_chars(&escaped))
}

/// The KDL entry that holds the escaped value: the value in double quotes.
pub fn layout_entry_text(escaped: &str) -> (r: String)
    ensures
        r@ == seq!['"'] + escaped@ + seq!['"'],
{
    let mut out: Vec<char> = Vec::new();
    out.push('"');
    push_str(&mut out, escaped);
    out.push('"');
    proof {
        assert(out@ =~= seq!['"'] + escaped@ + seq!['"']);
    }
    string_from_chars(&out)
}

/// The KDL node added when niri's config has no `layout` setting yet.
pub fn layout_node_text(escaped: &str) -> (r: String)
    ensures
        r@ == "\n            layout "@ + seq!['"'] + escaped@ + seq!['"', '\n'],
{
    let mut out: Vec<char> = Vec::new();
    push_str(&mut out, "\n            layout ");
    out.push('"');
    push_str(&mut out, escaped);
    out.push('"');
    out.push('\n');
    proof {
        assert(out@ =~= "\n            layout "@ + seq!['"'] + escaped@ + seq!['"', '\n']);
    }
    string_from_chars(&out)
}

/// The first LED whose name marks it as a keyboard backlight.
pub open spec fn first_kbd_backlight(names: Seq<String>) -> Option<String>
    decreases names.len(),
{
    if names.len() == 0 {
        None
    } else if contains_text(names[0]@, "kbd_backlight"@) {
        Some(names[0])
    } else {
        first_kbd_backlight(names.drop_first())
    }
}

/// The keyboard backlight among the LEDs `names` (in the order the system
/// lists them): the first whose name contains `kbd_backlight`.
pub fn find_kbd_backlight(names: &Vec<String>) -> (r: Option<String>)
    ensures
        r == first_kbd_backlight(names@),
{
    let mut k: usize = 0;
    proof {
        assert(names@.skip(0) =~= names@);
    }
    while k < names.len()
        invariant
            k <= names.len(),
            first_kbd_backlight(names@) == first_kbd_backlight(names@.skip(k as int)),
        decreases names.len() - k,
    {
        proof {
            assert(names@.skip(k as int)[0] == names@[k as int]);
            assert(names@.skip(k as int).drop_first() =~= names@.skip(k + 1));
        }
        if text_contains(names[k].as_str(), "kbd_backlight") {
            return Some(names[k].clone());
        }
        k = k + 1;
    }
    proof {
        assert(names@.skip(k as int) =~= Seq::<String>::empty());
    }
    None
}

/// A number read from a sysfs file: the text trimmed, then read as a `u32`.
pub fn parse_sysfs_u32(text: &str) -> (r: Option<u32>)
    ensures
        r matches Some(v) ==> parse_unsigned(trim(text@), u32::MAX as nat) == Some(v as nat),
        r is None ==> parse_unsigned(trim(text@), u32::MAX as nat) is None,
{
    let cs: Vec<char> = chars_of(text);
    let t: Vec<char> = trim_chars(&cs);
    parse_u32(&t)
}

/// The backlight's largest value, when the backlight can be used: a
/// backlight whose largest value is 0 cannot.
pub fn usable_max(max: u32) -> (r: Option<u32>)
    ensures
        r == if max == 0 { None } else { Some(max) },
{
    if max == 0 {
        None
    } else {
        Some(max)
    }
}

/// A value for the backlight, no larger than its largest.
pub fn clamp_brightness(value: u32, max: u32) -> (r: u32)
    ensures
        r == if value <= max { value } else { max },
{
    if value <= max {
        value
    } else {
        max
    }
}

/// The backlight's two levels.
#[derive(Clone, Copy, Debug, PartialEq, Eq, Structural)]
pub enum Level {
    Low,
    High,
}

pub open spec fn low_value(max: u32) -> u32 {
    let half: u32 = (max / 2) as u32;
    let at_least_one: u32 = if half >= 1 { half } else { 1 };
    if at_least_one <= max { at_least_one } else { max }
}

pub open spec fn spec_level_value(level: Level, max: u32) -> u32 {
    match level {
        Level::Low => low_value(max),
        Level::High => max,
    }
}

impl Level {
    /// The backlight value of a level: half the largest value (at least 1,
    /// at most the largest) for low, the largest for high.
    pub fn value(self, max: u32) -> (r: u32)
        ensures
            r == spec_level_value(self, max),
    {
        match self {
            Level::Low => {
                let half: u32 = max / 2;
                let at_least_one: u32 = if half >= 1 { half } else { 1 };
                if at_least_one <= max { at_least_one } else { max }
            },
            Level::High => max,
        }
    }
}

pub open spec fn spec_level_for(current: u32, max: u32) -> Option<Level> {
    if current == 0 {
        None
    } else if current <= low_value(max) {
        Some(Level::Low)
    } else {
        Some(Level::High)
    }
}

/// The level the applet highlights for the backlight's value: none when it
/// is off, low up to the low value, high above it.
pub fn level_for(current: u32, max: u32) -> (r: Option<Level>)
    ensures
        r == spec_level_for(current, max),
{
    if current == 0 {
        None
    } else if current <= Level::Low.value(max) {
        Some(Level::Low)
    } else {
        Some(Level::High)
    }
}

/// Setting a level and reading the backlight back highlights that level.
pub proof fn law_level_round_trip(level: Level, max: u32)
    requires
        max >= 2,
    ensures
        spec_level_for(spec_level_value(level, max), max) == Some(level),
{
}

/// Whether niri's configuration can be edited: it parses as KDL v1.
pub fn niri_config_parses(raw: &str) -> (r: bool)
    ensures
        r == kdl_v1_accepts(raw@),
{
    kdl_parse_v1(raw).is_some()
}

/// What becomes of niri's configuration after its layouts were set.
#[derive(Clone, Copy, Debug, PartialEq, Eq, Structural)]
pub enum NiriWrite {
    /// The text did not change: nothing is written.
    Unchanged,
    /// The new text does not parse again: nothing is written.
    Refused,
    /// The new text replaces the file (after a backup).
    Write,
}

pub open spec fn spec_niri_write(raw: Seq<char>, new_text: Seq<char>) -> NiriWrite {
    if new_text == raw {
        NiriWrite::Unchanged
    } else if !kdl_v1_accepts(new_text) {
        NiriWrite::Refused
    } else {
        NiriWrite::Write
    }
}

/// Whether the rewritten configuration is written: only when it changed,
/// and only when it parses again.
pub fn niri_write_decision(raw: &str, new_text: &str) -> (r: NiriWrite)
    ensures
        r == spec_niri_write(raw@, new_text@),
{
    if crate::text::text_eq(new_text, raw) {
        NiriWrite::Unchanged
    } else if kdl_parse_v1(new_text).is_none() {
        NiriWrite::Refused
    } else {
        NiriWrite::Write
    }
}

/// niri's configuration is only ever replaced by a different text that
/// parses.
pub proof fn law_written_config_parses(raw: Seq<char>, new_text: Seq<char>)
    ensures
        spec_niri_write(raw, new_text) == NiriWrite::Write ==> new_text != raw && kdl_v1_accepts(
            new_text,
        ),
{
}

} // verus!
