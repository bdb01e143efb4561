//! The bar's window-title label: the windows the compositor reports
//! (toplevel updates and closes), the active one among them, and the text
//! the label shows for it.
use vstd::prelude::*;

verus! {

/// A window as the compositor reports it.
#[derive(Clone, Debug)]
pub struct Toplevel {
    pub id: u64,
    pub app_id: String,
    pub activated: bool,
}

/// A window as id, app id and whether it is active.
pub type ToplevelView = (u64, Seq<char>, bool);

pub open spec fn toplevel_view(t: Toplevel) -> ToplevelView {
    (t.id, t.app_id@, t.activated)
}

/// The open windows, in the order they were first reported, each id once.
pub struct WindowTracker {
    windows: Vec<Toplevel>,
}

impl View for WindowTracker {
    type V = Seq<ToplevelView>;

    closed spec fn view(&self) -> Seq<ToplevelView> {
        self.windows@.map_values(|t: Toplevel| toplevel_view(t))
    }
}

/// Some window has this id.
pub open spec fn has_id(ws: Seq<ToplevelView>, id: u64) -> bool {
    exists|i: int| 0 <= i < ws.len() && #[trigger] ws[i].0 == id
}

/// The index of the window with this id.
pub open spec fn id_index(ws: Seq<ToplevelView>, id: u64) -> int {
    choose|i: int| 0 <= i < ws.len() && #[trigger] ws[i].0 == id
}

/// No two windows share an id.
pub open spec fn distinct_ids(ws: Seq<ToplevelView>) -> bool {
    forall|i: int, j: int| 0 <= i < j < ws.len() ==> #[trigger] ws[i].0 != #[trigger] ws[j].0
}

/// The windows after an update: the window with that id is replaced, or the
/// new one is added at the end.
pub open spec fn spec_updated(ws: Seq<ToplevelView>, w: ToplevelView) -> Seq<ToplevelView> {
    if has_id(ws, w.0) {
        ws.update(id_index(ws, w.0), w)
    } else {
        ws.push(w)
    }
}

/// The windows after one was closed.
pub open spec fn spec_closed(ws: Seq<ToplevelView>, id: u64) -> Seq<ToplevelView> {
    if has_id(ws, id) {
        ws.remove(id_index(ws, id))
    } else {
        ws
    }
}

/// The app id of the first active window.
pub open spec fn first_active(ws: Seq<ToplevelView>) -> Option<Seq<char>>
    decreases ws.len(),
{
    if ws.len() == 0 {
        None
    } else if ws[0].2 {
        Some(ws[0].1)
    } else {
        first_active(ws.drop_first())
    }
}

/// The text of the window-title label: the active window's application
/// name where its desktop entry gives one, else its app id; nothing where
/// no window is active.
pub open spec fn spec_window_label(app_id: Option<Seq<char>>, desktop_name: Option<Seq<char>>) -> Seq<
    char,
> {
    match app_id {
        None => seq![],
        Some(a) => match desktop_name {
            Some(n) => n,
            None => a,
        },
    }
}

pub open spec fn opt_chars(v: Option<String>) -> Option<Seq<char>> {
    match v {
        Some(s) => Some(s@),
        None => None,
    }
}

proof fn lemma_id_index(ws: Seq<ToplevelView>, id: u64, i: int)
    requires
        distinct_ids(ws),
        0 <= i < ws.len(),
        ws[i].0 == id,
    ensures
        has_id(ws, id),
        id_index(ws, id) == i,
{
    assert(ws[i].0 == id);
    let k = id_index(ws, id);
    if k != i {
        if k < i {
            assert(ws[k].0 != ws[i].0);
        } else {
            assert(ws[i].0 != ws[k].0);
        }
    }
}

impl WindowTracker {
    /// Well-formed: no two windows share an id.
    pub open spec fn wf(&self) -> bool {
        distinct_ids(self@)
    }

    /// No window yet.
    pub fn new() -> (t: WindowTracker)
        ensures
            t.wf(),
            t@ == Seq::<ToplevelView>::empty(),
    {
        let t = WindowTracker { windows: Vec::new() };
        assert(t@ =~= Seq::<ToplevelView>::empty());
        t
    }

    fn find(&self, id: u64) -> (r: Option<usize>)
        requires
            self.wf(),
        ensures
            match r {
                Some(i) => i < self@.len() && self@[i as int].0 == id && id_index(self@, id) == i
                    && has_id(self@, id),
                None => !has_id(self@, id),
            },
    {
        let mut i: usize = 0;
        while i < self.windows.len()
            invariant
                i <= self.windows.len(),
                self.wf(),
                forall|j: int| 0 <= j < i ==> #[trigger] self@[j].0 != id,
            decreases self.windows.len() - i,
        {
            if self.windows[i].id == id {
                proof {
                    lemma_id_index(self@, id, i as int);
                }
                return Some(i);
            }
            i = i + 1;
        }
        None
    }

    /// A window was reported, new or changed.
    pub fn updated(&mut self, w: Toplevel)
        requires
            old(self).wf(),
        ensures
            final(self).wf(),
            final(self)@ == spec_updated(old(self)@, toplevel_view(w)),
    {
        let ghost before = self@;
        match self.find(w.id) {
            Some(i) => {
                self.windows.set(i, w);
                proof {
                    assert(self@ =~= before.update(i as int, toplevel_view(w)));
                    assert forall|a: int, b: int| 0 <= a < b < self@.len() implies #[trigger] self@[a].0
                        != #[trigger] self@[b].0 by {
                        assert(before[a].0 != before[b].0);
                    }
                }
            },
            None => {
                let ghost view = toplevel_view(w);
                self.windows.push(w);
                proof {
                    assert(self@ =~= before.push(view));
                    assert forall|a: int, b: int| 0 <= a < b < self@.len() implies #[trigger] self@[a].0
                        != #[trigger] self@[b].0 by {
                        if b < before.len() {
                            assert(before[a].0 != before[b].0);
                        } else {
                            assert(self@[a] == before[a]);
                        }
                    }
                }
            },
        }
    }

    /// A window was closed.
    pub fn closed(&mut self, id: u64)
        requires
            old(self).wf(),
        ensures
            final(self).wf(),
            final(self)@ == spec_closed(old(self)@, id),
    {
        let ghost before = self@;
        match self.find(id) {
            Some(i) => {
                self.windows.remove(i);
                proof {
                    assert(self@ =~= before.remove(i as int));
                    assert forall|a: int, b: int| 0 <= a < b < self@.len() implies #[trigger] self@[a].0
                        != #[trigger] self@[b].0 by {
                        let a0 = if a < i { a } else { a + 1 };
                        let b0 = if b < i { b } else { b + 1 };
                        assert(self@[a] == before[a0]);
                        assert(self@[b] == before[b0]);
                        assert(before[a0].0 != before[b0].0);
                    }
                }
            },
            None => {},
        }
    }

    /// The app id of the active window (the first one reported, should
    /// several claim to be active).
    pub fn active_app_id(&self) -> (r: Option<String>)
        ensures
            opt_chars(r) == first_active(self@),
    {
        let ghost ws = self@;
        let mut i: usize = 0;
        assert(ws.skip(0) =~= ws);
        while i < self.windows.len()
            invariant
                i <= self.windows.len(),
                ws == self@,
                first_active(ws) == first_active(ws.skip(i as int)),
            decreases self.windows.len() - i,
        {
            assert(ws.skip(i as int)[0] == ws[i as int]);
            if self.windows[i].activated {
                return Some(self.windows[i].app_id.clone());
            }
            assert(ws.skip(i as int).drop_first() =~= ws.skip(i + 1));
            i = i + 1;
        }
        None
    }
}

/// The text of the window-title label, given the active window's app id
/// and the name its desktop entry gives (where one was found).
pub fn window_label(app_id: Option<String>, desktop_name: Option<String>) -> (r: String)
    ensures
        r@ == spec_window_label(opt_chars(app_id), opt_chars(desktop_name)),
{
    match app_id {
        None => String::new(),
        Some(a) => match desktop_name {
            Some(n) => n,
            None => a,
        },
    }
}

/// The windows keep their ids distinct through any update or close, and a
/// closed window is gone.
pub proof fn law_tracker_ids_distinct(ws: Seq<ToplevelView>, w: ToplevelView, id: u64)
    requires
        distinct_ids(ws),
    ensures
        distinct_ids(spec_updated(ws, w)),
        distinct_ids(spec_closed(ws, id)),
        !has_id(spec_closed(ws, id), id),
        has_id(spec_updated(ws, w), w.0),
{
    let u = spec_updated(ws, w);
    if has_id(ws, w.0) {
        let k = choose|i: int| 0 <= i < ws.len() && #[trigger] ws[i].0 == w.0;
        lemma_id_index(ws, w.0, k);
        assert(u[k].0 == w.0);
        assert forall|a: int, b: int| 0 <= a < b < u.len() implies #[trigger] u[a].0 != #[trigger] u[b].0 by {
            assert(ws[a].0 != ws[b].0);
        }
    } else {
        assert(u[ws.len() as int].0 == w.0);
        assert forall|a: int, b: int| 0 <= a < b < u.len() implies #[trigger] u[a].0 != #[trigger] u[b].0 by {
            if b < ws.len() {
                assert(ws[a].0 != ws[b].0);
            } else {
                assert(u[a] == ws[a]);
            }
        }
    }
    let c = spec_closed(ws, id);
    if has_id(ws, id) {
        let k = choose|i: int| 0 <= i < ws.len() && #[trigger] ws[i].0 == id;
        lemma_id_index(ws, id, k);
        assert forall|a: int, b: int| 0 <= a < b < c.len() implies #[trigger] c[a].0 != #[trigger] c[b].0 by {
            let a0 = if a < k { a } else { a + 1 };
            let b0 = if b < k { b } else { b + 1 };
            assert(c[a] == ws[a0]);
            assert(c[b] == ws[b0]);
            assert(ws[a0].0 != ws[b0].0);
        }
        if has_id(c, id) {
            let j = choose|i: int| 0 <= i < c.len() && #[trigger] c[i].0 == id;
            let j0 = if j < k { j } else { j + 1 };
            assert(c[j] == ws[j0]);
            if j0 < k {
                assert(ws[j0].0 != ws[k].0);
            } else {
                assert(ws[k].0 != ws[j0].0);
            }
        }
    }
}

} // verus!
