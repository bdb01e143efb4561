//! The screen applet: whether it is shown, and "caffeine", which keeps the
//! machine awake by holding a logind inhibitor lock for a chosen time or
//! until switched off.
use vstd::prelude::*;

verus! {

/// The durations on offer, in seconds; none stands for no limit.
pub open spec fn durations() -> Seq<Option<u64>> {
    seq![Some(900u64), Some(1800u64), Some(3600u64), None]
}

/// The durations with their button labels.
pub fn duration_choices() -> (r: Vec<(&'static str, Option<u64>)>)
    ensures
        r@.len() == 4,
        r@[0].0@ == "15 min"@ && r@[0].1 == durations()[0],
        r@[1].0@ == "30 min"@ && r@[1].1 == durations()[1],
        r@[2].0@ == "1 h"@ && r@[2].1 == durations()[2],
        r@[3].0@ == "∞"@ && r@[3].1 == durations()[3],
{
    vec![("15 min", Some(900u64)), ("30 min", Some(1800u64)), ("1 h", Some(3600u64)), ("∞", None)]
}

/// The applet is shown when there is a backlight, an inhibitor service or
/// a dark-mode setting.
pub fn screen_applet_shown(brightness: bool, caffeine: bool, dark_mode: bool) -> (r: bool)
    ensures
        r == (brightness || caffeine || dark_mode),
{
    brightness || caffeine || dark_mode
}

/// A separator goes above the caffeine row when something is shown above it.
pub fn caffeine_separator(brightness: bool, caffeine: bool, dark_mode: bool) -> (r: bool)
    ensures
        r == (caffeine && (brightness || dark_mode)),
{
    caffeine && (brightness || dark_mode)
}

/// What the applet does after a caffeine event, in this order: take the
/// inhibitor lock (when it holds none), stop the running timer, release
/// the lock, mark a duration button (or none), start a timer, show or hide
/// the duration buttons, and move the switch.
#[derive(Clone, Copy, Debug, PartialEq, Eq, Structural)]
pub struct CaffeineActions {
    pub take_lock: bool,
    pub cancel_timer: bool,
    pub release_lock: bool,
    pub highlight: Option<Option<u64>>,
    pub clear_highlight: bool,
    pub start_timer: Option<u64>,
    pub show_durations: Option<bool>,
    pub set_switch: Option<bool>,
}

/// Caffeine's state: the switch, the lock, the running timer and the
/// marked duration.
pub struct Caffeine {
    on: bool,
    lock: bool,
    timer: Option<u64>,
    marked: Option<Option<u64>>,
}

impl Caffeine {
    pub closed spec fn on(&self) -> bool {
        self.on
    }

    pub closed spec fn holds_lock(&self) -> bool {
        self.lock
    }

    pub closed spec fn timer(&self) -> Option<u64> {
        self.timer
    }

    pub closed spec fn marked(&self) -> Option<Option<u64>> {
        self.marked
    }

    /// Off, no lock and no timer unless the switch is on; a running timer is
    /// the marked duration.
    pub closed spec fn wf(&self) -> bool {
        &&& !self.on ==> !self.lock && self.timer is None && self.marked is None
        &&& self.timer matches Some(t) ==> self.on && self.marked == Some(Some(t))
        &&& self.on ==> self.marked is Some
    }

    /// Caffeine off.
    pub fn new() -> (r: Self)
        ensures
            r.wf(),
            !r.on(),
            !r.holds_lock(),
    {
        Caffeine { on: false, lock: false, timer: None, marked: None }
    }

    /// The switch was turned on: keep awake with no time limit.
    pub fn switched_on(&mut self) -> (a: CaffeineActions)
        requires
            old(self).wf(),
        ensures
            final(self).wf(),
            final(self).on(),
            final(self).holds_lock() == old(self).holds_lock(),
            final(self).timer() is None,
            final(self).marked() == Some(None::<u64>),
            a == (CaffeineActions {
                take_lock: !old(self).holds_lock(),
                cancel_timer: old(self).timer() is Some,
                release_lock: false,
                highlight: Some(None),
                clear_highlight: false,
                start_timer: None,
                show_durations: Some(true),
                set_switch: None,
            }),
    {
        let a = CaffeineActions {
            take_lock: !self.lock,
            cancel_timer: self.timer.is_some(),
            release_lock: false,
            highlight: Some(None),
            clear_highlight: false,
            start_timer: None,
            show_durations: Some(true),
            set_switch: None,
        };
        self.on = true;
        self.timer = None;
        self.marked = Some(None);
        a
    }

    /// The switch was turned off: stop the timer, unmark, release the lock.
    pub fn switched_off(&mut self) -> (a: CaffeineActions)
        requires
            old(self).wf(),
        ensures
            final(self).wf(),
            !final(self).on(),
            !final(self).holds_lock(),
            a == (CaffeineActions {
                take_lock: false,
                cancel_timer: old(self).timer() is Some,
                release_lock: old(self).holds_lock(),
                highlight: None,
                clear_highlight: true,
                start_timer: None,
                show_durations: Some(false),
                set_switch: None,
            }),
    {
        let a = CaffeineActions {
            take_lock: false,
            cancel_timer: self.timer.is_some(),
            release_lock: self.lock,
            highlight: None,
            clear_highlight: true,
            start_timer: None,
            show_durations: Some(false),
            set_switch: None,
        };
        self.on = false;
        self.lock = false;
        self.timer = None;
        self.marked = None;
        a
    }

    /// The inhibitor lock was asked for: whether logind granted it.
    pub fn lock_result(&mut self, granted: bool)
        requires
            old(self).wf(),
            old(self).on(),
        ensures
            final(self).wf(),
            final(self).on(),
            final(self).holds_lock() == (old(self).holds_lock() || granted),
            final(self).timer() == old(self).timer(),
            final(self).marked() == old(self).marked(),
    {
        self.lock = self.lock || granted;
    }

    /// A duration was picked (after the switch was put on, when it was
    /// off): the machine is kept awake for that long (no limit for none).
    pub fn pick(&mut self, seconds: Option<u64>) -> (a: CaffeineActions)
        requires
            old(self).wf(),
        ensures
            final(self).wf(),
            final(self).on(),
            final(self).holds_lock() == old(self).holds_lock(),
            final(self).timer() == seconds,
            final(self).marked() == Some(seconds),
            a == (CaffeineActions {
                take_lock: !old(self).holds_lock(),
                cancel_timer: old(self).timer() is Some,
                release_lock: false,
                highlight: Some(seconds),
                clear_highlight: false,
                start_timer: seconds,
                show_durations: Some(true),
                set_switch: None,
            }),
    {
        let a = CaffeineActions {
            take_lock: !self.lock,
            cancel_timer: self.timer.is_some(),
            release_lock: false,
            highlight: Some(seconds),
            clear_highlight: false,
            start_timer: seconds,
            show_durations: Some(true),
            set_switch: None,
        };
        self.on = true;
        self.timer = seconds;
        self.marked = Some(seconds);
        a
    }

    /// The chosen time ran out: the timer is gone and the switch is put
    /// off, which then switches caffeine off.
    pub fn timer_fired(&mut self) -> (a: CaffeineActions)
        requires
            old(self).wf(),
        ensures
            final(self).wf(),
            final(self).on() == old(self).on(),
            final(self).holds_lock() == old(self).holds_lock(),
            final(self).timer() is None,
            final(self).marked() == old(self).marked(),
            a == (CaffeineActions {
                take_lock: false,
                cancel_timer: false,
                release_lock: false,
                highlight: None,
                clear_highlight: false,
                start_timer: None,
                show_durations: None,
                set_switch: Some(false),
            }),
    {
        self.timer = None;
        CaffeineActions {
            take_lock: false,
            cancel_timer: false,
            release_lock: false,
            highlight: None,
            clear_highlight: false,
            start_timer: None,
            show_durations: None,
            set_switch: Some(false),
        }
    }

    /// Whether the switch is on.
    pub fn is_on(&self) -> (r: bool)
        ensures
            r == self.on(),
    {
        self.on
    }
}

/// While caffeine is off the machine can sleep: no lock is held and no
/// timer runs.
pub proof fn law_off_holds_nothing(c: Caffeine)
    requires
        c.wf(),
        !c.on(),
    ensures
        !c.holds_lock(),
        c.timer() is None,
{
}

} // verus!
