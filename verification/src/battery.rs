//! The battery applet: reading the battery's state from its sysfs files,
//! the icon and texts it shows, the power profiles it offers, and the
//! power menu's actions.
use vstd::prelude::*;
use crate::text::{chars_of, decimal, parse_bounded, parse_unsigned, push_decimal, push_str, string_from_chars, text_eq, trim, trim_chars};

verus! {

/// What the battery is doing.
#[derive(Clone, Copy, Debug, PartialEq, Eq, Structural)]
pub enum ChargeState {
    Charging,
    Discharging,
    Full,
    Other,
}

/// The battery's charge in percent and what it is doing.
#[derive(Clone, Copy, Debug, PartialEq, Eq, Structural)]
pub struct BatteryStatus {
    pub percentage: u8,
    pub state: ChargeState,
}

/// The first power supply whose `type` file reads `Battery` (trimmed).
pub open spec fn first_battery(types: Seq<String>) -> Option<nat>
    decreases types.len(),
{
    if types.len() == 0 {
        None
    } else if trim(types.last()@) == "Battery"@ && first_battery(types.drop_last()) is None {
        Some((types.len() - 1) as nat)
    } else {
        first_battery(types.drop_last())
    }
}

/// Which of the power supplies (in the order the system lists them, each
/// with the text of its `type` file, empty when it could not be read) is
/// the battery: the first whose type is `Battery`.
pub fn find_battery(types: &Vec<String>) -> (r: Option<usize>)
    ensures
        match r {
            Some(i) => first_battery(types@) == Some(i as nat),
            None => first_battery(types@) is None,
        },
{
    let mut k: usize = 0;
    while k < types.len()
        invariant
            k <= types.len(),
            first_battery(types@.take(k as int)) is None,
        decreases types.len() - k,
    {
        proof {
            assert(types@.take(k + 1).drop_last() =~= types@.take(k as int));
            assert(types@.take(k + 1).last() == types@[k as int]);
        }
        let cs: Vec<char> = chars_of(types[k].as_str());
        let t: Vec<char> = trim_chars(&cs);
        let s: String = string_from_chars(&t);
        if text_eq(s.as_str(), "Battery") {
            proof {
                lemma_first_battery_prefix(types@, k as int);
            }
            return Some(k);
        }
        k = k + 1;
    }
    proof {
        assert(types@.take(k as int) =~= types@);
    }
    None
}

/// A battery found in a prefix is the one found in the whole list.
proof fn lemma_first_battery_prefix(types: Seq<String>, k: int)
    requires
        0 <= k < types.len(),
        first_battery(types.take(k)) is None,
        trim(types[k]@) == "Battery"@,
    ensures
        first_battery(types) == Some(k as nat),
    decreases types.len(),
{
    if k < types.len() - 1 {
        assert(types.drop_last().take(k) =~= types.take(k));
        assert(types.drop_last()[k] == types[k]);
        lemma_first_battery_prefix(types.drop_last(), k);
    } else {
        assert(types.drop_last() =~= types.take(k));
    }
}

pub open spec fn spec_charge_state(status: Seq<char>) -> ChargeState {
    if status == "Charging"@ {
        ChargeState::Charging
    } else if status == "Discharging"@ {
        ChargeState::Discharging
    } else if status == "Full"@ {
        ChargeState::Full
    } else {
        ChargeState::Other
    }
}

/// What the text of the battery's `status` file says, trimmed.
pub fn charge_state(status: &str) -> (r: ChargeState)
    ensures
        r == spec_charge_state(trim(status@)),
{
    let cs: Vec<char> = chars_of(status);
    let t: Vec<char> = trim_chars(&cs);
    let s: String = string_from_chars(&t);
    if text_eq(s.as_str(), "Charging") {
        ChargeState::Charging
    } else if text_eq(s.as_str(), "Discharging") {
        ChargeState::Discharging
    } else if text_eq(s.as_str(), "Full") {
        ChargeState::Full
    } else {
        ChargeState::Other
    }
}

/// The battery's status from the text of its `capacity` file and of its
/// `status` file (empty when that could not be read): none when the
/// capacity is not a `u8`; a capacity above 100 counts as 100.
pub fn parse_status(capacity: &str, status: &str) -> (r: Option<BatteryStatus>)
    ensures
        parse_unsigned(trim(capacity@), 255) is None ==> r is None,
        parse_unsigned(trim(capacity@), 255) matches Some(c) ==> r == Some(
            BatteryStatus {
                percentage: if c <= 100 { c as u8 } else { 100u8 },
                state: spec_charge_state(trim(status@)),
            },
        ),
{
    let cs: Vec<char> = chars_of(capacity);
    let t: Vec<char> = trim_chars(&cs);
    match parse_bounded(&t, 255) {
        Some(c) => {
            let percentage: u8 = if c <= 100 { c as u8 } else { 100u8 };
            Some(BatteryStatus { percentage, state: charge_state(status) })
        },
        None => None,
    }
}

pub open spec fn spec_battery_level(percentage: u8) -> Seq<char> {
    if percentage <= 19 {
        "caution"@
    } else if percentage <= 39 {
        "low"@
    } else if percentage <= 79 {
        "good"@
    } else {
        "full"@
    }
}

pub open spec fn spec_battery_icon(status: BatteryStatus) -> Seq<char> {
    "battery-"@ + spec_battery_level(status.percentage) + if status.state == ChargeState::Charging {
        "-charging-symbolic"@
    } else {
        "-symbolic"@
    }
}

/// The battery icon: its level by charge (caution below 20%, low below
/// 40%, good below 80%, else full), marked when charging.
pub fn icon_name_for(status: BatteryStatus) -> (r: String)
    ensures
        r@ == spec_battery_icon(status),
{
    let level: &str = if status.percentage <= 19 {
        "caution"
    } else if status.percentage <= 39 {
        "low"
    } else if status.percentage <= 79 {
        "good"
    } else {
        "full"
    };
    let mut out: Vec<char> = Vec::new();
    push_str(&mut out, "battery-");
    push_str(&mut out, level);
    if status.state == ChargeState::Charging {
        push_str(&mut out, "-charging-symbolic");
    } else {
        push_str(&mut out, "-symbolic");
    }
    string_from_chars(&out)
}

pub open spec fn spec_state_word(state: ChargeState) -> Seq<char> {
    match state {
        ChargeState::Charging => "Charging"@,
        ChargeState::Discharging => "Discharging"@,
        ChargeState::Full => "Full"@,
        ChargeState::Other => "Not charging"@,
    }
}

/// The status line of the popover: `"<percent>% - <state>"`.
pub open spec fn spec_status_line(status: BatteryStatus) -> Seq<char> {
    decimal(status.percentage as nat) + "% - "@ + spec_state_word(status.state)
}

/// The status line of the popover: `"<percent>% - <state>"`.
pub fn status_text(status: BatteryStatus) -> (r: String)
    ensures
        r@ == spec_status_line(status),
{
    let word: &str = match status.state {
        ChargeState::Charging => "Charging",
        ChargeState::Discharging => "Discharging",
        ChargeState::Full => "Full",
        ChargeState::Other => "Not charging",
    };
    let mut out: Vec<char> = Vec::new();
    push_decimal(&mut out, status.percentage as u64);
    push_str(&mut out, "% - ");
    push_str(&mut out, word);
    string_from_chars(&out)
}

/// The status line names the state as the battery's `status` file does:
/// after the percentage and `"% - "`, reading the rest back as a `status`
/// file gives the state the line was made from.
pub proof fn law_status_line_names_state(status: BatteryStatus)
    ensures
        ({
            let n = decimal(status.percentage as nat).len() + 4int;
            &&& spec_status_line(status).subrange(0, n) == decimal(status.percentage as nat) + "% - "@
            &&& spec_charge_state(spec_status_line(status).subrange(n, spec_status_line(status).len() as int))
                == status.state
        }),
{
    reveal_strlit("% - ");
    reveal_strlit("Charging");
    reveal_strlit("Discharging");
    reveal_strlit("Full");
    reveal_strlit("Not charging");
    let d = decimal(status.percentage as nat);
    let line = spec_status_line(status);
    let n = d.len() + 4int;
    assert(line.subrange(0, n) =~= d + "% - "@);
    assert(line.subrange(n, line.len() as int) =~= spec_state_word(status.state));
}

/// The percentage shown next to the icon: `"<percent>%"`.
pub fn percentage_text(status: BatteryStatus) -> (r: String)
    ensures
        r@ == decimal(status.percentage as nat) + "%"@,
{
    let mut out: Vec<char> = Vec::new();
    push_decimal(&mut out, status.percentage as u64);
    push_str(&mut out, "%");
    string_from_chars(&out)
}

/// A power profile's id as a title: dashes become spaces and a lowercase
/// ASCII first letter is capitalised.
pub open spec fn spec_profile_title(id: Seq<char>) -> Seq<char> {
    let spaced = id.map_values(|c: char| if c == '-' { ' ' } else { c });
    if spaced.len() > 0 && 'a' <= spaced[0] && spaced[0] <= 'z' {
        spaced.update(0, ((spaced[0] as u32) - 32) as char)
    } else {
        spaced
    }
}

fn ascii_upper(c: char) -> (r: char)
    requires
        'a' <= c <= 'z',
    ensures
        r == ((c as u32) - 32) as char,
{
    let code: u32 = c as u32;
    char_from_ascii(code - 32)
}

fn char_from_ascii(code: u32) -> (r: char)
    requires
        code < 128,
    ensures
        r == code as char,
{
    let b: u8 = code as u8;
    b as char
}

/// A power profile's title, as the battery applet labels its button.
pub fn profile_title(id: &str) -> (r: String)
    ensures
        r@ == spec_profile_title(id@),
{
    let cs: Vec<char> = chars_of(id);
    let mut out: Vec<char> = Vec::new();
    let mut k: usize = 0;
    while k < cs.len()
        invariant
            k <= cs.len(),
            cs@ == id@,
            out@ == id@.take(k as int).map_values(|c: char| if c == '-' { ' ' } else { c }),
        decreases cs.len() - k,
    {
        let c: char = cs[k];
        out.push(if c == '-' { ' ' } else { c });
        proof {
            assert(id@.take(k + 1).map_values(|c: char| if c == '-' { ' ' } else { c })
                =~= id@.take(k as int).map_values(|c: char| if c == '-' { ' ' } else { c }).push(
                if c == '-' { ' ' } else { c },
            ));
        }
        k = k + 1;
    }
    proof {
        assert(id@.take(k as int) =~= id@);
    }
    if out.len() > 0 && 'a' <= out[0] && out[0] <= 'z' {
        let upper: char = ascii_upper(out[0]);
        out.set(0, upper);
    }
    string_from_chars(&out)
}

/// The profiles a power-profiles daemon offers: the entries that name one.
pub fn present_profiles(entries: &Vec<Option<String>>) -> (r: Vec<String>)
    ensures
        r@ == entries@.filter(|e: Option<String>| e is Some).map_values(|e: Option<String>| e->0),
{
    let mut r: Vec<String> = Vec::new();
    let mut k: usize = 0;
    proof {
        reveal(Seq::filter);
        assert(entries@.take(0) =~= Seq::<Option<String>>::empty());
    }
    while k < entries.len()
        invariant
            k <= entries.len(),
            r@ == entries@.take(k as int).filter(|e: Option<String>| e is Some).map_values(
                |e: Option<String>| e->0,
            ),
        decreases entries.len() - k,
    {
        proof {
            reveal(Seq::filter);
            assert(entries@.take(k + 1).drop_last() =~= entries@.take(k as int));
            assert(entries@.take(k + 1).last() == entries@[k as int]);
        }
        let ghost before = r@;
        match &entries[k] {
            Some(p) => {
                r.push(p.clone());
                proof {
                    let f = entries@.take(k as int).filter(|e: Option<String>| e is Some);
                    assert(entries@.take(k + 1).filter(|e: Option<String>| e is Some) == f.push(
                        entries@[k as int],
                    ));
                    assert(f.push(entries@[k as int]).map_values(|e: Option<String>| e->0)
                        =~= f.map_values(|e: Option<String>| e->0).push(*p));
                }
            },
            None => {},
        }
        k = k + 1;
    }
    proof {
        assert(entries@.take(k as int) =~= entries@);
    }
    r
}

/// Which profile buttons are highlighted: the one for the active profile.
pub fn profile_highlights(ids: &Vec<String>, active: &str) -> (r: Vec<bool>)
    ensures
        r@.len() == ids@.len(),
        forall|i: int| 0 <= i < ids@.len() ==> r@[i] == (ids@[i]@ == active@),
{
    let mut r: Vec<bool> = Vec::new();
    let mut k: usize = 0;
    while k < ids.len()
        invariant
            k <= ids.len(),
            r@.len() == k,
            forall|i: int| 0 <= i < k ==> r@[i] == (ids@[i]@ == active@),
        decreases ids.len() - k,
    {
        r.push(text_eq(ids[k].as_str(), active));
        k = k + 1;
    }
    r
}

/// The entries of the power menu.
#[derive(Clone, Copy, Debug, PartialEq, Eq, Structural)]
pub enum PowerAction {
    Suspend,
    Restart,
    PowerOff,
    LogOut,
}

pub open spec fn all_power_actions() -> Seq<PowerAction> {
    seq![PowerAction::Suspend, PowerAction::Restart, PowerAction::PowerOff, PowerAction::LogOut]
}

/// The power menu's entries, top to bottom.
pub fn power_actions() -> (r: Vec<PowerAction>)
    ensures
        r@ == all_power_actions(),
{
    vec![PowerAction::Suspend, PowerAction::Restart, PowerAction::PowerOff, PowerAction::LogOut]
}

/// Where logind takes a power action: the manager, with the method to call
/// (and `interactive` set), or the session itself.
#[derive(Clone, Copy, Debug, PartialEq, Eq, Structural)]
pub enum LogindTarget {
    Manager,
    Session,
}

impl PowerAction {
    /// The entry's label.
    pub fn label(self) -> (r: &'static str)
        ensures
            r@ == match self {
                PowerAction::Suspend => "Suspend"@,
                PowerAction::Restart => "Restart"@,
                PowerAction::PowerOff => "Power Off"@,
                PowerAction::LogOut => "Log Out"@,
            },
    {
        match self {
            PowerAction::Suspend => "Suspend",
            PowerAction::Restart => "Restart",
            PowerAction::PowerOff => "Power Off",
            PowerAction::LogOut => "Log Out",
        }
    }

    /// The logind object and method that carry the action out.
    pub fn logind_call(self) -> (r: (LogindTarget, &'static str))
        ensures
            r.0 == if self == PowerAction::LogOut { LogindTarget::Session } else { LogindTarget::Manager },
            r.1@ == match self {
                PowerAction::Suspend => "Suspend"@,
                PowerAction::Restart => "Reboot"@,
                PowerAction::PowerOff => "PowerOff"@,
                PowerAction::LogOut => "Terminate"@,
            },
    {
        match self {
            PowerAction::Suspend => (LogindTarget::Manager, "Suspend"),
            PowerAction::Restart => (LogindTarget::Manager, "Reboot"),
            PowerAction::PowerOff => (LogindTarget::Manager, "PowerOff"),
            PowerAction::LogOut => (LogindTarget::Session, "Terminate"),
        }
    }
}

} // verus!
