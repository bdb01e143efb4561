//! The bar itself: which monitor it goes on, scrolling through workspaces,
//! the workspace badges, the clock's text and the places menu.
use vstd::prelude::*;
use crate::command::Invocation;
use crate::config::{ClockFormat, ClockMode, PlacesDisplayMode};
use crate::text::{decimal, decimal_string, push_str, string_from_chars, text_eq};
use crate::workspaces::WorkspaceInfo;

verus! {

pub open spec fn opt_text(t: Option<String>) -> Option<Seq<char>> {
    match t {
        Some(s) => Some(s@),
        None => None,
    }
}

/// The first monitor whose connector is `name`.
pub open spec fn first_monitor(connectors: Seq<Option<String>>, name: Seq<char>) -> Option<nat>
    decreases connectors.len(),
{
    if connectors.len() == 0 {
        None
    } else if opt_text(connectors[0]) == Some(name) {
        Some(0)
    } else {
        match first_monitor(connectors.drop_first(), name) {
            Some(i) => Some(i + 1),
            None => None,
        }
    }
}

/// The monitor the bar goes on, among the display's monitors (each with its
/// connector name, when it has one): the first whose connector is `name`.
pub fn find_monitor(connectors: &Vec<Option<String>>, name: &str) -> (r: Option<usize>)
    ensures
        match r {
            Some(i) => first_monitor(connectors@, name@) == Some(i as nat),
            None => first_monitor(connectors@, name@) is None,
        },
{
    let mut k: usize = connectors.len();
    let mut found: Option<usize> = None;
    proof {
        assert(connectors@.skip(k as int) =~= Seq::<Option<String>>::empty());
    }
    while k > 0
        invariant
            k <= connectors.len(),
            match found {
                Some(i) => k <= i && first_monitor(connectors@.skip(k as int), name@) == Some(
                    (i - k) as nat,
                ),
                None => first_monitor(connectors@.skip(k as int), name@) is None,
            },
        decreases k,
    {
        let j: usize = k - 1;
        proof {
            assert(connectors@.skip(j as int)[0] == connectors@[j as int]);
            assert(connectors@.skip(j as int).drop_first() =~= connectors@.skip(k as int));
        }
        let hit: bool = match &connectors[j] {
            Some(c) => text_eq(c.as_str(), name),
            None => false,
        };
        if hit {
            found = Some(j);
        }
        k = j;
    }
    proof {
        assert(connectors@.skip(0) =~= connectors@);
    }
    found
}

/// Which way the bar was scrolled.
#[derive(Clone, Copy, Debug, PartialEq, Eq, Structural)]
pub enum ScrollDirection {
    Down,
    Up,
}

/// The first active workspace's place.
pub open spec fn active_position(list: Seq<WorkspaceInfo>) -> Option<nat>
    decreases list.len(),
{
    if list.len() == 0 {
        None
    } else if list[0].active {
        Some(0)
    } else {
        match active_position(list.drop_first()) {
            Some(i) => Some(i + 1),
            None => None,
        }
    }
}

/// The workspace a scroll asks for: the one after the active one when
/// scrolling down, the one before when scrolling up; none past either end
/// or without an active workspace.
pub open spec fn spec_scroll_target(list: Seq<WorkspaceInfo>, direction: ScrollDirection) -> Option<u32> {
    match active_position(list) {
        Some(p) => match direction {
            ScrollDirection::Down => if p + 1 < list.len() {
                Some(list[(p + 1) as int].id)
            } else {
                None
            },
            ScrollDirection::Up => if p >= 1 {
                Some(list[p - 1].id)
            } else {
                None
            },
        },
        None => None,
    }
}

proof fn lemma_active_position(list: Seq<WorkspaceInfo>, k: int)
    requires
        0 <= k < list.len(),
        list[k].active,
        forall|j: int| 0 <= j < k ==> !list[j].active,
    ensures
        active_position(list) == Some(k as nat),
    decreases k,
{
    if k > 0 {
        lemma_active_position(list.drop_first(), k - 1);
    }
}

proof fn lemma_no_active(list: Seq<WorkspaceInfo>)
    requires
        forall|j: int| 0 <= j < list.len() ==> !list[j].active,
    ensures
        active_position(list) is None,
    decreases list.len(),
{
    if list.len() > 0 {
        lemma_no_active(list.drop_first());
    }
}

/// The id of the workspace a scroll switches to, if any.
pub fn scroll_target(list: &Vec<WorkspaceInfo>, direction: ScrollDirection) -> (r: Option<u32>)
    ensures
        r == spec_scroll_target(list@, direction),
{
    let mut k: usize = 0;
    while k < list.len()
        invariant
            k <= list.len(),
            forall|j: int| 0 <= j < k ==> !list@[j].active,
        decreases list.len() - k,
    {
        if list[k].active {
            proof {
                lemma_active_position(list@, k as int);
            }
            return match direction {
                ScrollDirection::Down => if k + 1 < list.len() {
                    Some(list[k + 1].id)
                } else {
                    None
                },
                ScrollDirection::Up => if k >= 1 {
                    Some(list[k - 1].id)
                } else {
                    None
                },
            };
        }
        k = k + 1;
    }
    proof {
        lemma_no_active(list@);
    }
    None
}

/// The text of a workspace's badge: its number.
pub fn badge_text(w: &WorkspaceInfo) -> (r: String)
    ensures
        r@ == decimal(w.number as nat),
{
    decimal_string(w.number as u64)
}

/// The strftime pattern of the time: `%H:%M`, or `%I:%M %p` for 12 hours.
pub fn time_pattern(format: ClockFormat) -> (r: &'static str)
    ensures
        r@ == match format {
            ClockFormat::Hour24 => "%H:%M"@,
            ClockFormat::Hour12 => "%I:%M %p"@,
        },
{
    match format {
        ClockFormat::Hour24 => "%H:%M",
        ClockFormat::Hour12 => "%I:%M %p",
    }
}

/// The strftime pattern of the date, when the clock shows one: day and
/// abbreviated month, as in `5. Mar`.
pub fn date_pattern(mode: ClockMode) -> (r: Option<&'static str>)
    ensures
        match mode {
            ClockMode::Time => r is None,
            ClockMode::DateTime => r matches Some(p) && p@ == "%-d. %b"@,
        },
{
    match mode {
        ClockMode::Time => None,
        ClockMode::DateTime => Some("%-d. %b"),
    }
}

/// The clock's text from the formatted date and time: the time alone, or
/// `"<date>, <time>"`.
pub fn clock_text(mode: ClockMode, date: &str, time: &str) -> (r: String)
    ensures
        r@ == match mode {
            ClockMode::Time => time@,
            ClockMode::DateTime => date@ + ", "@ + time@,
        },
{
    let mut out: Vec<char> = Vec::new();
    match mode {
        ClockMode::Time => {},
        ClockMode::DateTime => {
            push_str(&mut out, date);
            push_str(&mut out, ", ");
        },
    }
    push_str(&mut out, time);
    proof {
        if mode == ClockMode::Time {
            assert(out@ =~= time@);
        }
    }
    string_from_chars(&out)
}

/// The places the menu can offer, in order.
pub open spec fn place_labels() -> Seq<Seq<char>> {
    seq![
        "Home"@,
        "Desktop"@,
        "Documents"@,
        "Downloads"@,
        "Music"@,
        "Pictures"@,
        "Videos"@,
        "Public"@,
    ]
}

/// The labels of the places, in the menu's order.
pub fn places() -> (r: Vec<&'static str>)
    ensures
        r@.len() == 8,
        forall|i: int| 0 <= i < 8 ==> r@[i]@ == place_labels()[i],
{
    let r = vec!["Home", "Desktop", "Documents", "Downloads", "Music", "Pictures", "Videos", "Public"];
    proof {
        reveal_strlit("Home");
    }
    r
}

/// The places the menu shows: those whose folder is known and exists, in order.
pub open spec fn spec_shown_places(exists_dir: Seq<bool>) -> Seq<nat>
    decreases exists_dir.len(),
{
    if exists_dir.len() == 0 {
        seq![]
    } else {
        let rest = spec_shown_places(exists_dir.drop_last());
        if exists_dir.last() {
            rest.push((exists_dir.len() - 1) as nat)
        } else {
            rest
        }
    }
}

pub open spec fn nats(v: Seq<usize>) -> Seq<nat> {
    v.map_values(|x: usize| x as nat)
}

/// Which places the menu shows, given for each whether its folder is known
/// and is a directory.
pub fn shown_places(exists_dir: &Vec<bool>) -> (r: Vec<usize>)
    ensures
        nats(r@) == spec_shown_places(exists_dir@),
{
    let mut r: Vec<usize> = Vec::new();
    let mut k: usize = 0;
    while k < exists_dir.len()
        invariant
            k <= exists_dir.len(),
            nats(r@) == spec_shown_places(exists_dir@.take(k as int)),
        decreases exists_dir.len() - k,
    {
        proof {
            assert(exists_dir@.take(k + 1).drop_last() =~= exists_dir@.take(k as int));
            assert(exists_dir@.take(k + 1).last() == exists_dir@[k as int]);
        }
        let ghost before = r@;
        if exists_dir[k] {
            r.push(k);
            proof {
                assert(nats(r@) =~= nats(before).push(k as nat));
            }
        }
        k = k + 1;
    }
    proof {
        assert(exists_dir@.take(k as int) =~= exists_dir@);
    }
    r
}

/// Whether the places button shows its folder icon.
pub fn places_show_icon(mode: PlacesDisplayMode) -> (r: bool)
    ensures
        r == (mode == PlacesDisplayMode::Icon || mode == PlacesDisplayMode::IconAndText),
{
    match mode {
        PlacesDisplayMode::Icon => true,
        PlacesDisplayMode::Text => false,
        PlacesDisplayMode::IconAndText => true,
    }
}

/// Whether the places button shows the word "Places".
pub fn places_show_text(mode: PlacesDisplayMode) -> (r: bool)
    ensures
        r == (mode == PlacesDisplayMode::Text || mode == PlacesDisplayMode::IconAndText),
{
    match mode {
        PlacesDisplayMode::Icon => false,
        PlacesDisplayMode::Text => true,
        PlacesDisplayMode::IconAndText => true,
    }
}

/// `xdg-open <path>`, which opens a folder.
pub fn open_folder(path: &str) -> (r: Invocation)
    ensures
        r.spec_parts() == ("xdg-open"@, seq![path@]),
{
    Invocation::new("xdg-open").arg(path)
}

} // verus!
