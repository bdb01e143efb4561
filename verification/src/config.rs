//! The bar's settings: the choices a user can make, the applets that can be
//! placed on the panel, and the defaults and layout migration of a settings file.
use vstd::prelude::*;

verus! {

/// Light or dark colours, or whatever the desktop prefers.
#[derive(Clone, Copy, Debug, PartialEq, Eq, Structural)]
pub enum ThemePreference {
    System,
    Light,
    Dark,
}

/// What the clock shows.
#[derive(Clone, Copy, Debug, PartialEq, Eq, Structural)]
pub enum ClockMode {
    Time,
    DateTime,
}

/// How the clock writes the hour.
#[derive(Clone, Copy, Debug, PartialEq, Eq, Structural)]
pub enum ClockFormat {
    Hour12,
    Hour24,
}

/// What the places button shows.
#[derive(Clone, Copy, Debug, PartialEq, Eq, Structural)]
pub enum PlacesDisplayMode {
    Icon,
    Text,
    IconAndText,
}

/// The key combination that switches between XKB layout groups.
#[derive(Clone, Copy, Debug, PartialEq, Eq, Structural)]
pub enum XkbGroupToggle {
    AltShift,
    SuperSpace,
    CtrlShift,
    CapsLock,
}

pub open spec fn spec_xkb_option(t: XkbGroupToggle) -> Seq<char> {
    match t {
        XkbGroupToggle::AltShift => "grp:alt_shift_toggle"@,
        XkbGroupToggle::SuperSpace => "grp:win_space_toggle"@,
        XkbGroupToggle::CtrlShift => "grp:ctrl_shift_toggle"@,
        XkbGroupToggle::CapsLock => "grp:caps_toggle"@,
    }
}

impl XkbGroupToggle {
    /// The XKB option that makes this combination switch groups.
    pub fn xkb_option(self) -> (r: &'static str)
        ensures
            r@ == spec_xkb_option(self),
    {
        match self {
            XkbGroupToggle::AltShift => "grp:alt_shift_toggle",
            XkbGroupToggle::SuperSpace => "grp:win_space_toggle",
            XkbGroupToggle::CtrlShift => "grp:ctrl_shift_toggle",
            XkbGroupToggle::CapsLock => "grp:caps_toggle",
        }
    }
}

/// An applet or widget that can be placed in a section of the panel.
#[derive(Clone, Copy, Debug, PartialEq, Eq, Hash, Structural)]
pub enum PanelItem {
    Workspaces,
    WindowTitle,
    Clock,
    Places,
    Sound,
    Wifi,
    Bluetooth,
    Battery,
    Screen,
    Keyboard,
    Notifications,
    Power,
}

/// Every panel item, in the order the settings offer them.
pub open spec fn all_items() -> Seq<PanelItem> {
    seq![
        PanelItem::Workspaces,
        PanelItem::WindowTitle,
        PanelItem::Clock,
        PanelItem::Places,
        PanelItem::Sound,
        PanelItem::Wifi,
        PanelItem::Bluetooth,
        PanelItem::Battery,
        PanelItem::Screen,
        PanelItem::Keyboard,
        PanelItem::Notifications,
        PanelItem::Power,
    ]
}

pub open spec fn spec_label(item: PanelItem) -> Seq<char> {
    match item {
        PanelItem::Workspaces => "Workspaces"@,
        PanelItem::WindowTitle => "Window title"@,
        PanelItem::Clock => "Clock"@,
        PanelItem::Places => "Places"@,
        PanelItem::Sound => "Sound"@,
        PanelItem::Wifi => "WiFi"@,
        PanelItem::Bluetooth => "Bluetooth"@,
        PanelItem::Battery => "Battery"@,
        PanelItem::Screen => "Screen"@,
        PanelItem::Keyboard => "Keyboard"@,
        PanelItem::Notifications => "Notifications"@,
        PanelItem::Power => "Power"@,
    }
}

pub open spec fn spec_has_settings(item: PanelItem) -> bool {
    item == PanelItem::Clock || item == PanelItem::Battery || item == PanelItem::Places || item
        == PanelItem::Keyboard
}

impl PanelItem {
    /// Every panel item, in the order the settings offer them.
    pub fn all() -> (r: Vec<PanelItem>)
        ensures
            r@ == all_items(),
    {
        let r: Vec<PanelItem> = vec![
            PanelItem::Workspaces,
            PanelItem::WindowTitle,
            PanelItem::Clock,
            PanelItem::Places,
            PanelItem::Sound,
            PanelItem::Wifi,
            PanelItem::Bluetooth,
            PanelItem::Battery,
            PanelItem::Screen,
            PanelItem::Keyboard,
            PanelItem::Notifications,
            PanelItem::Power,
        ];
        assert(r@ =~= all_items());
        r
    }

    /// The name the settings window shows for this item.
    pub fn label(self) -> (r: &'static str)
        ensures
            r@ == spec_label(self),
    {
        match self {
            PanelItem::Workspaces => "Workspaces",
            PanelItem::WindowTitle => "Window title",
            PanelItem::Clock => "Clock",
            PanelItem::Places => "Places",
            PanelItem::Sound => "Sound",
            PanelItem::Wifi => "WiFi",
            PanelItem::Bluetooth => "Bluetooth",
            PanelItem::Battery => "Battery",
            PanelItem::Screen => "Screen",
            PanelItem::Keyboard => "Keyboard",
            PanelItem::Notifications => "Notifications",
            PanelItem::Power => "Power",
        }
    }

    /// Whether the item has its own settings popover.
    pub fn has_settings(self) -> (r: bool)
        ensures
            r == spec_has_settings(self),
    {
        match self {
            PanelItem::Clock | PanelItem::Battery | PanelItem::Places | PanelItem::Keyboard => true,
            _ => false,
        }
    }
}

/// Every panel item occurs exactly once in the list of all items.
pub proof fn lemma_all_items_complete(item: PanelItem)
    ensures
        all_items().contains(item),
        all_items().no_duplicates(),
{
    let a = all_items();
    match item {
        PanelItem::Workspaces => assert(a[0] == item),
        PanelItem::WindowTitle => assert(a[1] == item),
        PanelItem::Clock => assert(a[2] == item),
        PanelItem::Places => assert(a[3] == item),
        PanelItem::Sound => assert(a[4] == item),
        PanelItem::Wifi => assert(a[5] == item),
        PanelItem::Bluetooth => assert(a[6] == item),
        PanelItem::Battery => assert(a[7] == item),
        PanelItem::Screen => assert(a[8] == item),
        PanelItem::Keyboard => assert(a[9] == item),
        PanelItem::Notifications => assert(a[10] == item),
        PanelItem::Power => assert(a[11] == item),
    }
}

/// The bar's settings as its settings file holds them (the bar's opacity,
/// a fraction, is kept beside them by the program that reads the file).
#[derive(Clone, Debug)]
pub struct Config {
    pub theme: ThemePreference,
    pub monitor: Option<String>,
    pub bar_height: u32,
    pub left: Vec<PanelItem>,
    pub center: Vec<PanelItem>,
    pub right: Vec<PanelItem>,
    pub layout_configured: bool,
    pub clock_mode: ClockMode,
    pub clock_format: ClockFormat,
    pub battery_show_percentage: bool,
    pub places_display_mode: PlacesDisplayMode,
    pub scroll_switches_workspace: bool,
    pub xkb_layouts: Vec<String>,
    pub xkb_group_toggle: XkbGroupToggle,
    pub wifi_applet_enabled: bool,
    pub bluetooth_applet_enabled: bool,
    pub sound_applet_enabled: bool,
    pub battery_applet_enabled: bool,
    pub screen_applet_enabled: bool,
    pub power_applet_enabled: bool,
    pub places_applet_enabled: bool,
    pub keyboard_applet_enabled: bool,
    pub notification_applet_enabled: bool,
}

/// The default left section.
pub open spec fn default_left() -> Seq<PanelItem> {
    seq![PanelItem::Workspaces, PanelItem::WindowTitle, PanelItem::Places]
}

/// The default right section.
pub open spec fn default_right() -> Seq<PanelItem> {
    seq![
        PanelItem::Sound,
        PanelItem::Wifi,
        PanelItem::Bluetooth,
        PanelItem::Battery,
        PanelItem::Screen,
        PanelItem::Keyboard,
        PanelItem::Notifications,
        PanelItem::Power,
    ]
}

/// `seq![item]` when `on`, else nothing.
pub open spec fn when(on: bool, item: PanelItem) -> Seq<PanelItem> {
    if on {
        seq![item]
    } else {
        seq![]
    }
}

/// The left section that a settings file from before sections existed gets.
pub open spec fn migrated_left(c: Config) -> Seq<PanelItem> {
    seq![PanelItem::Workspaces, PanelItem::WindowTitle] + when(
        c.places_applet_enabled,
        PanelItem::Places,
    )
}

/// The right section that a settings file from before sections existed gets:
/// each enabled applet, in a fixed order.
pub open spec fn migrated_right(c: Config) -> Seq<PanelItem> {
    when(c.sound_applet_enabled, PanelItem::Sound) + when(c.wifi_applet_enabled, PanelItem::Wifi)
        + when(c.bluetooth_applet_enabled, PanelItem::Bluetooth) + when(
        c.battery_applet_enabled,
        PanelItem::Battery,
    ) + when(c.screen_applet_enabled, PanelItem::Screen) + when(
        c.keyboard_applet_enabled,
        PanelItem::Keyboard,
    ) + when(c.notification_applet_enabled, PanelItem::Notifications) + when(
        c.power_applet_enabled,
        PanelItem::Power,
    )
}

/// All fields but the three sections and `layout_configured` agree.
pub open spec fn same_settings(a: Config, b: Config) -> bool {
    &&& a.theme == b.theme
    &&& a.monitor == b.monitor
    &&& a.bar_height == b.bar_height
    &&& a.clock_mode == b.clock_mode
    &&& a.clock_format == b.clock_format
    &&& a.battery_show_percentage == b.battery_show_percentage
    &&& a.places_display_mode == b.places_display_mode
    &&& a.scroll_switches_workspace == b.scroll_switches_workspace
    &&& a.xkb_layouts@ == b.xkb_layouts@
    &&& a.xkb_group_toggle == b.xkb_group_toggle
    &&& a.wifi_applet_enabled == b.wifi_applet_enabled
    &&& a.bluetooth_applet_enabled == b.bluetooth_applet_enabled
    &&& a.sound_applet_enabled == b.sound_applet_enabled
    &&& a.battery_applet_enabled == b.battery_applet_enabled
    &&& a.screen_applet_enabled == b.screen_applet_enabled
    &&& a.power_applet_enabled == b.power_applet_enabled
    &&& a.places_applet_enabled == b.places_applet_enabled
    &&& a.keyboard_applet_enabled == b.keyboard_applet_enabled
    &&& a.notification_applet_enabled == b.notification_applet_enabled
}

/// The settings of a fresh install.
pub open spec fn is_default(c: Config) -> bool {
    &&& c.theme == ThemePreference::System
    &&& c.monitor is None
    &&& c.bar_height == 33
    &&& c.left@ == default_left()
    &&& c.center@ == seq![PanelItem::Clock]
    &&& c.right@ == default_right()
    &&& c.layout_configured
    &&& c.clock_mode == ClockMode::Time
    &&& c.clock_format == ClockFormat::Hour24
    &&& !c.battery_show_percentage
    &&& c.places_display_mode == PlacesDisplayMode::IconAndText
    &&& c.scroll_switches_workspace
    &&& c.xkb_layouts@.len() == 0
    &&& c.xkb_group_toggle == XkbGroupToggle::AltShift
    &&& c.wifi_applet_enabled
    &&& c.bluetooth_applet_enabled
    &&& c.sound_applet_enabled
    &&& c.battery_applet_enabled
    &&& c.screen_applet_enabled
    &&& c.power_applet_enabled
    &&& c.places_applet_enabled
    &&& c.keyboard_applet_enabled
    &&& c.notification_applet_enabled
}

/// The panel's sections once a configuration is migrated: as they are when
/// it has sections, else built from its applet flags.
pub open spec fn migrated_sections(c: Config) -> (Seq<PanelItem>, Seq<PanelItem>, Seq<PanelItem>) {
    if c.layout_configured {
        (c.left@, c.center@, c.right@)
    } else {
        (migrated_left(c), seq![PanelItem::Clock], migrated_right(c))
    }
}

/// Appends `item` when `on`.
fn push_if(v: &mut Vec<PanelItem>, on: bool, item: PanelItem)
    ensures
        final(v)@ == old(v)@ + when(on, item),
{
    if on {
        v.push(item);
    }
    assert(v@ =~= old(v)@ + when(on, item));
}

impl Config {
    /// The settings of a fresh install.
    pub fn default() -> (c: Config)
        ensures
            is_default(c),
    {
        let left: Vec<PanelItem> = vec![PanelItem::Workspaces, PanelItem::WindowTitle, PanelItem::Places];
        let center: Vec<PanelItem> = vec![PanelItem::Clock];
        let right: Vec<PanelItem> = vec![
            PanelItem::Sound,
            PanelItem::Wifi,
            PanelItem::Bluetooth,
            PanelItem::Battery,
            PanelItem::Screen,
            PanelItem::Keyboard,
            PanelItem::Notifications,
            PanelItem::Power,
        ];
        assert(left@ =~= default_left());
        assert(center@ =~= seq![PanelItem::Clock]);
        assert(right@ =~= default_right());
        Config {
            theme: ThemePreference::System,
            monitor: None,
            bar_height: 33,
            left,
            center,
            right,
            layout_configured: true,
            clock_mode: ClockMode::Time,
            clock_format: ClockFormat::Hour24,
            battery_show_percentage: false,
            places_display_mode: PlacesDisplayMode::IconAndText,
            scroll_switches_workspace: true,
            xkb_layouts: Vec::new(),
            xkb_group_toggle: XkbGroupToggle::AltShift,
            wifi_applet_enabled: true,
            bluetooth_applet_enabled: true,
            sound_applet_enabled: true,
            battery_applet_enabled: true,
            screen_applet_enabled: true,
            power_applet_enabled: true,
            places_applet_enabled: true,
            keyboard_applet_enabled: true,
            notification_applet_enabled: true,
        }
    }

    /// A settings file written before the panel had sections only says which
    /// applets are enabled; this builds the sections from those flags, once.
    pub fn migrate_layout(&mut self)
        ensures
            same_settings(*old(self), *final(self)),
            final(self).layout_configured,
            (final(self).left@, final(self).center@, final(self).right@) == migrated_sections(
                *old(self),
            ),
    {
        if self.layout_configured {
            return ;
        }
        let ghost c = *self;
        let mut left: Vec<PanelItem> = vec![PanelItem::Workspaces, PanelItem::WindowTitle];
        if self.places_applet_enabled {
            left.push(PanelItem::Places);
        }
        assert(left@ =~= migrated_left(c));
        let center: Vec<PanelItem> = vec![PanelItem::Clock];
        let mut right: Vec<PanelItem> = Vec::new();
        push_if(&mut right, self.sound_applet_enabled, PanelItem::Sound);
        assert(right@ =~= when(c.sound_applet_enabled, PanelItem::Sound));
        push_if(&mut right, self.wifi_applet_enabled, PanelItem::Wifi);
        push_if(&mut right, self.bluetooth_applet_enabled, PanelItem::Bluetooth);
        push_if(&mut right, self.battery_applet_enabled, PanelItem::Battery);
        push_if(&mut right, self.screen_applet_enabled, PanelItem::Screen);
        push_if(&mut right, self.keyboard_applet_enabled, PanelItem::Keyboard);
        push_if(&mut right, self.notification_applet_enabled, PanelItem::Notifications);
        push_if(&mut right, self.power_applet_enabled, PanelItem::Power);
        assert(right@ =~= migrated_right(c));
        self.left = left;
        self.center = center;
        self.right = right;
        self.layout_configured = true;
    }
}

impl Config {
    /// The configuration the bar runs with, from the settings file as read:
    /// the fresh-install settings when there is none or it does not parse,
    /// else the file's settings, migrated.
    pub fn loaded(parsed: Option<Config>) -> (c: Config)
        ensures
            parsed is None ==> is_default(c),
            parsed matches Some(p) ==> same_settings(p, c) && c.layout_configured && (
                c.left@,
                c.center@,
                c.right@,
            ) == migrated_sections(p),
    {
        match parsed {
            Some(p) => {
                let mut c = p;
                c.migrate_layout();
                c
            },
            None => Config::default(),
        }
    }
}

/// Migrating a settings file from before sections existed places every
/// applet whose flag is set, and none whose flag is clear: Places on the
/// left, the others on the right, with the workspaces and window title on
/// the left and the clock in the centre.
pub proof fn law_migration_places_enabled_applets(c: Config)
    requires
        !c.layout_configured,
    ensures
        ({
            let (l, m, r) = migrated_sections(c);
            &&& l.contains(PanelItem::Workspaces) && l.contains(PanelItem::WindowTitle)
            &&& m.contains(PanelItem::Clock)
            &&& l.contains(PanelItem::Places) == c.places_applet_enabled
            &&& r.contains(PanelItem::Sound) == c.sound_applet_enabled
            &&& r.contains(PanelItem::Wifi) == c.wifi_applet_enabled
            &&& r.contains(PanelItem::Bluetooth) == c.bluetooth_applet_enabled
            &&& r.contains(PanelItem::Battery) == c.battery_applet_enabled
            &&& r.contains(PanelItem::Screen) == c.screen_applet_enabled
            &&& r.contains(PanelItem::Keyboard) == c.keyboard_applet_enabled
            &&& r.contains(PanelItem::Notifications) == c.notification_applet_enabled
            &&& r.contains(PanelItem::Power) == c.power_applet_enabled
            &&& !l.contains(PanelItem::Sound) && !r.contains(PanelItem::Places)
        }),
{
    let (l, m, r) = migrated_sections(c);
    assert(l[0] == PanelItem::Workspaces);
    assert(l[1] == PanelItem::WindowTitle);
    assert(m[0] == PanelItem::Clock);
    let w0 = when(c.sound_applet_enabled, PanelItem::Sound);
    let w1 = when(c.wifi_applet_enabled, PanelItem::Wifi);
    let w2 = when(c.bluetooth_applet_enabled, PanelItem::Bluetooth);
    let w3 = when(c.battery_applet_enabled, PanelItem::Battery);
    let w4 = when(c.screen_applet_enabled, PanelItem::Screen);
    let w5 = when(c.keyboard_applet_enabled, PanelItem::Keyboard);
    let w6 = when(c.notification_applet_enabled, PanelItem::Notifications);
    let w7 = when(c.power_applet_enabled, PanelItem::Power);
    lemma_when_contains(c.places_applet_enabled, PanelItem::Places);
    lemma_when_contains(c.sound_applet_enabled, PanelItem::Sound);
    lemma_when_contains(c.wifi_applet_enabled, PanelItem::Wifi);
    lemma_when_contains(c.bluetooth_applet_enabled, PanelItem::Bluetooth);
    lemma_when_contains(c.battery_applet_enabled, PanelItem::Battery);
    lemma_when_contains(c.screen_applet_enabled, PanelItem::Screen);
    lemma_when_contains(c.keyboard_applet_enabled, PanelItem::Keyboard);
    lemma_when_contains(c.notification_applet_enabled, PanelItem::Notifications);
    lemma_when_contains(c.power_applet_enabled, PanelItem::Power);
    lemma_add_contains(seq![PanelItem::Workspaces, PanelItem::WindowTitle], when(c.places_applet_enabled, PanelItem::Places));
    assert(!seq![PanelItem::Workspaces, PanelItem::WindowTitle].contains(PanelItem::Places));
    assert(!seq![PanelItem::Workspaces, PanelItem::WindowTitle].contains(PanelItem::Sound));
    lemma_add_contains(w0, w1);
    lemma_add_contains(w0 + w1, w2);
    lemma_add_contains(w0 + w1 + w2, w3);
    lemma_add_contains(w0 + w1 + w2 + w3, w4);
    lemma_add_contains(w0 + w1 + w2 + w3 + w4, w5);
    lemma_add_contains(w0 + w1 + w2 + w3 + w4 + w5, w6);
    lemma_add_contains(w0 + w1 + w2 + w3 + w4 + w5 + w6, w7);
    assert(r == w0 + w1 + w2 + w3 + w4 + w5 + w6 + w7);
}

proof fn lemma_when_contains(on: bool, item: PanelItem)
    ensures
        forall|x: PanelItem| #[trigger] when(on, item).contains(x) <==> (on && x == item),
{
    if on {
        assert(when(on, item)[0] == item);
    }
}

proof fn lemma_add_contains(a: Seq<PanelItem>, b: Seq<PanelItem>)
    ensures
        forall|x: PanelItem| #[trigger] (a + b).contains(x) <==> (a.contains(x) || b.contains(x)),
{
    assert forall|x: PanelItem| #[trigger] (a + b).contains(x) <==> (a.contains(x) || b.contains(x)) by {
        if (a + b).contains(x) {
            let i = choose|i: int| 0 <= i < (a + b).len() && (a + b)[i] == x;
            if i >= a.len() {
                assert(b[i - a.len()] == x);
            } else {
                assert(a[i] == x);
            }
        }
        if a.contains(x) {
            let i = choose|i: int| 0 <= i < a.len() && a[i] == x;
            assert((a + b)[i] == x);
        }
        if b.contains(x) {
            let i = choose|i: int| 0 <= i < b.len() && b[i] == x;
            assert((a + b)[a.len() + i] == x);
        }
    }
}

/// Migration happens once: a migrated configuration migrates to itself.
pub proof fn law_migration_once(c: Config, d: Config)
    requires
        same_settings(c, d),
        d.layout_configured,
        (d.left@, d.center@, d.right@) == migrated_sections(c),
    ensures
        migrated_sections(d) == migrated_sections(c),
{
}

} // verus!
