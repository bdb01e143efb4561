//! The panel layout as the settings window edits it: three sections of
//! applets, a selected applet, and the moves the toolbar offers.
use vstd::prelude::*;
use crate::config::{all_items, lemma_all_items_complete, spec_has_settings, PanelItem};

verus! {

broadcast use vstd::seq_lib::group_seq_properties;

/// No applet occurs twice in a section, nor in two sections.
pub open spec fn distinct_sections(l: Seq<PanelItem>, c: Seq<PanelItem>, r: Seq<PanelItem>) -> bool {
    &&& l.no_duplicates()
    &&& c.no_duplicates()
    &&& r.no_duplicates()
    &&& forall|x: PanelItem| l.contains(x) ==> !c.contains(x) && !r.contains(x)
    &&& forall|x: PanelItem| c.contains(x) ==> !r.contains(x)
}

/// `s` without the items of `seen` and without repeats, in order of first occurrence.
pub open spec fn dedup_after(seen: Seq<PanelItem>, s: Seq<PanelItem>) -> Seq<PanelItem>
    decreases s.len(),
{
    if s.len() == 0 {
        seq![]
    } else if seen.contains(s[0]) {
        dedup_after(seen, s.drop_first())
    } else {
        seq![s[0]] + dedup_after(seen.push(s[0]), s.drop_first())
    }
}

/// What the toolbar buttons of the settings window allow.
#[derive(Clone, Copy, Debug, PartialEq, Eq, Structural)]
pub struct Controls {
    pub up: bool,
    pub down: bool,
    pub left: bool,
    pub right: bool,
    pub remove: bool,
    pub add: bool,
    pub settings: bool,
}

/// The three sections of the panel and the applet selected in them.
#[derive(Clone, Debug)]
pub struct AppletLayout {
    pub left: Vec<PanelItem>,
    pub center: Vec<PanelItem>,
    pub right: Vec<PanelItem>,
    /// Section (0, 1 or 2) and position of the selected applet.
    pub selected: Option<(usize, usize)>,
}

impl AppletLayout {
    /// The section numbered `c` (0 left, 1 center, 2 right).
    pub open spec fn section(self, c: int) -> Seq<PanelItem> {
        if c == 0 {
            self.left@
        } else if c == 1 {
            self.center@
        } else {
            self.right@
        }
    }

    /// Whether `item` is on the panel.
    pub open spec fn placed(self, item: PanelItem) -> bool {
        self.left@.contains(item) || self.center@.contains(item) || self.right@.contains(item)
    }

    /// The selection names an applet that exists.
    pub open spec fn selection_valid(self) -> bool {
        self.selected matches Some((c, i)) ==> c < 3 && i < self.section(c as int).len()
    }

    /// No applet is placed twice and the selection names an applet.
    pub open spec fn wf(self) -> bool {
        &&& distinct_sections(self.left@, self.center@, self.right@)
        &&& self.selection_valid()
    }

    /// The applets that are not on the panel, in the order of `all_items`.
    pub open spec fn spec_pool(self) -> Seq<PanelItem> {
        all_items().filter(|x: PanelItem| !self.placed(x))
    }

    pub open spec fn spec_selected_item(self) -> Option<PanelItem> {
        match self.selected {
            Some((c, i)) => if c < 3 && i < self.section(c as int).len() {
                Some(self.section(c as int)[i as int])
            } else {
                None
            },
            None => None,
        }
    }

    pub open spec fn spec_controls(self) -> Controls {
        let has = self.selected is Some;
        let (c, i) = match self.selected {
            Some(p) => p,
            None => (0usize, 0usize),
        };
        let len = if c < 3 {
            self.section(c as int).len()
        } else {
            0
        };
        Controls {
            up: has && i > 0,
            down: has && i + 1 < len,
            left: has && c > 0,
            right: has && c < 2,
            remove: has,
            add: self.spec_pool().len() > 0,
            settings: match self.spec_selected_item() {
                Some(it) => spec_has_settings(it),
                None => false,
            },
        }
    }

    /// The layout the settings window starts from: the sections of the
    /// settings file, each applet kept only where it first occurs.
    pub fn from_sections(left: &Vec<PanelItem>, center: &Vec<PanelItem>, right: &Vec<PanelItem>) -> (r: AppletLayout)
        ensures
            r.left@ == dedup_after(seq![], left@),
            r.center@ == dedup_after(r.left@, center@),
            r.right@ == dedup_after(r.left@ + r.center@, right@),
            r.selected is None,
            r.wf(),
    {
        let mut seen: Vec<PanelItem> = Vec::new();
        let l: Vec<PanelItem> = dedup_into(&mut seen, left);
        let ghost s1 = seen@;
        let c: Vec<PanelItem> = dedup_into(&mut seen, center);
        let r: Vec<PanelItem> = dedup_into(&mut seen, right);
        proof {
            assert(Seq::<PanelItem>::empty() + l@ =~= l@);
            assert(s1 == l@);
            lemma_dedup_distinct(seq![], left@);
            lemma_dedup_distinct(l@, center@);
            lemma_dedup_distinct(l@ + c@, right@);
            assert forall|x: PanelItem| l@.contains(x) implies !c@.contains(x) && !r@.contains(
                x,
            ) by {
                assert((l@ + c@).contains(x)) by {
                    let k = choose|k: int| 0 <= k < l@.len() && l@[k] == x;
                    assert((l@ + c@)[k] == x);
                }
            }
            assert forall|x: PanelItem| c@.contains(x) implies !r@.contains(x) by {
                assert((l@ + c@).contains(x)) by {
                    let k = choose|k: int| 0 <= k < c@.len() && c@[k] == x;
                    assert((l@ + c@)[l@.len() + k] == x);
                }
            }
        }
        AppletLayout { left: l, center: c, right: r, selected: None }
    }

    /// The section numbered `c`.
    pub fn section_items(&self, c: usize) -> (r: &Vec<PanelItem>)
        ensures
            r@ == self.section(c as int),
    {
        if c == 0 {
            &self.left
        } else if c == 1 {
            &self.center
        } else {
            &self.right
        }
    }

    /// Whether `item` is on the panel.
    pub fn is_placed(&self, item: PanelItem) -> (r: bool)
        ensures
            r == self.placed(item),
    {
        contains_item(&self.left, item) || contains_item(&self.center, item) || contains_item(
            &self.right,
            item,
        )
    }

    /// The applets that can still be added, in the order of `all_items`.
    pub fn pool(&self) -> (r: Vec<PanelItem>)
        ensures
            r@ == self.spec_pool(),
    {
        let all: Vec<PanelItem> = PanelItem::all();
        let mut r: Vec<PanelItem> = Vec::new();
        let mut k: usize = 0;
        while k < all.len()
            invariant
                all@ == all_items(),
                k <= all.len(),
                r@ == all_items().take(k as int).filter(|x: PanelItem| !self.placed(x)),
            decreases all.len() - k,
        {
            let item: PanelItem = all[k];
            if !self.is_placed(item) {
                r.push(item);
            }
            proof {
                assert(all_items().take(k + 1).drop_last() =~= all_items().take(k as int));
                reveal_with_fuel(Seq::filter, 1);
            }
            k = k + 1;
        }
        proof {
            assert(all_items().take(12) =~= all_items());
        }
        r
    }

    /// The selected applet.
    pub fn selected_item(&self) -> (r: Option<PanelItem>)
        ensures
            r == self.spec_selected_item(),
    {
        match self.selected {
            Some((c, i)) => {
                if c < 3 {
                    let s: &Vec<PanelItem> = self.section_items(c);
                    if i < s.len() {
                        Some(s[i])
                    } else {
                        None
                    }
                } else {
                    None
                }
            },
            None => None,
        }
    }

    /// Which toolbar buttons are enabled.
    pub fn controls(&self) -> (r: Controls)
        ensures
            r == self.spec_controls(),
    {
        let has: bool = self.selected.is_some();
        let (c, i): (usize, usize) = match self.selected {
            Some(p) => p,
            None => (0, 0),
        };
        let len: usize = if c < 3 {
            self.section_items(c).len()
        } else {
            0
        };
        let pool: Vec<PanelItem> = self.pool();
        let settings: bool = match self.selected_item() {
            Some(it) => it.has_settings(),
            None => false,
        };
        Controls {
            up: has && i > 0,
            down: has && i < len && i + 1 < len,
            left: has && c > 0,
            right: has && c < 2,
            remove: has,
            add: pool.len() > 0,
            settings,
        }
    }

    /// Selects the applet at position `index` of section `column`.
    pub fn select(&mut self, column: usize, index: usize)
        requires
            old(self).wf(),
            column < 3,
            index < old(self).section(column as int).len(),
        ensures
            final(self).wf(),
            final(self).left == old(self).left,
            final(self).center == old(self).center,
            final(self).right == old(self).right,
            final(self).selected == Some((column, index)),
    {
        self.selected = Some((column, index));
    }

    /// Moves the selected applet `delta` places within its section; a move
    /// past either end changes nothing.
    pub fn move_within(&mut self, delta: isize)
        requires
            old(self).wf(),
        ensures
            final(self).wf(),
            forall|x: PanelItem| final(self).placed(x) == old(self).placed(x),
            match old(self).selected {
                None => *final(self) == *old(self),
                Some((c, i)) => {
                    let t = i + delta;
                    if t < 0 || t >= old(self).section(c as int).len() {
                        *final(self) == *old(self)
                    } else {
                        &&& final(self).selected == Some((c, t as usize))
                        &&& final(self).section(c as int) == old(self).section(c as int).update(
                            i as int,
                            old(self).section(c as int)[t],
                        ).update(t, old(self).section(c as int)[i as int])
                        &&& forall|d: int|
                            0 <= d < 3 && d != c ==> final(self).section(d) == old(self).section(d)
                    }
                },
            },
    {
        match self.selected {
            None => {},
            Some((c, i)) => {
                let len: usize = self.section_items(c).len();
                let t: i128 = (i as i128) + (delta as i128);
                if t < 0 || t >= len as i128 {
                    return ;
                }
                let tu: usize = t as usize;
                proof {
                    lemma_swap_same_items(self.section(c as int), i as int, tu as int);
                }
                if c == 0 {
                    swap_items(&mut self.left, i, tu);
                } else if c == 1 {
                    swap_items(&mut self.center, i, tu);
                } else {
                    swap_items(&mut self.right, i, tu);
                }
                self.selected = Some((c, tu));
            },
        }
    }

    /// Moves the selected applet `delta` sections over, to the end of that
    /// section; a move past the outer sections changes nothing.
    pub fn move_section(&mut self, delta: isize)
        requires
            old(self).wf(),
        ensures
            final(self).wf(),
            forall|x: PanelItem| final(self).placed(x) == old(self).placed(x),
            match old(self).selected {
                None => *final(self) == *old(self),
                Some((c, i)) => {
                    let t = c + delta;
                    if t < 0 || t > 2 {
                        *final(self) == *old(self)
                    } else {
                        let item = old(self).section(c as int)[i as int];
                        let removed = old(self).section(c as int).remove(i as int);
                        &&& final(self).section(t) == (if t == c {
                            removed
                        } else {
                            old(self).section(t)
                        }).push(item)
                        &&& t != c ==> final(self).section(c as int) == removed
                        &&& forall|d: int|
                            0 <= d < 3 && d != c && d != t ==> final(self).section(d) == old(
                                self,
                            ).section(d)
                        &&& final(self).selected == Some(
                            (t as usize, (final(self).section(t).len() - 1) as usize),
                        )
                    }
                },
            },
    {
        match self.selected {
            None => {},
            Some((c, i)) => {
                let t: i128 = (c as i128) + (delta as i128);
                if t < 0 || t > 2 {
                    return ;
                }
                let tu: usize = t as usize;
                let ghost before = *self;
                let item: PanelItem = if c == 0 {
                    remove_at(&mut self.left, i)
                } else if c == 1 {
                    remove_at(&mut self.center, i)
                } else {
                    remove_at(&mut self.right, i)
                };
                proof {
                    lemma_not_in_after_remove(before.section(c as int), i as int);
                }
                if tu == 0 {
                    self.left.push(item);
                } else if tu == 1 {
                    self.center.push(item);
                } else {
                    self.right.push(item);
                }
                let n: usize = self.section_items(tu).len();
                self.selected = Some((tu, n - 1));
                proof {
                    lemma_move_keeps_distinct(before, *self, c as int, i as int, t as int);
                }
            },
        }
    }

    /// Takes the selected applet off the panel and clears the selection.
    pub fn remove_selected(&mut self)
        requires
            old(self).wf(),
        ensures
            final(self).wf(),
            final(self).selected is None,
            match old(self).selected {
                None => final(self).left == old(self).left && final(self).center == old(
                    self,
                ).center && final(self).right == old(self).right,
                Some((c, i)) => {
                    &&& final(self).section(c as int) == old(self).section(c as int).remove(
                        i as int,
                    )
                    &&& forall|d: int|
                        0 <= d < 3 && d != c ==> final(self).section(d) == old(self).section(d)
                    &&& !final(self).placed(old(self).section(c as int)[i as int])
                    &&& forall|x: PanelItem|
                        x != old(self).section(c as int)[i as int] ==> final(self).placed(x)
                            == old(self).placed(x)
                },
            },
    {
        match self.selected {
            None => {},
            Some((c, i)) => {
                let ghost before = *self;
                if c == 0 {
                    remove_at(&mut self.left, i);
                } else if c == 1 {
                    remove_at(&mut self.center, i);
                } else {
                    remove_at(&mut self.right, i);
                }
                proof {
                    lemma_not_in_after_remove(before.section(c as int), i as int);
                    let item = before.section(c as int)[i as int];
                    assert(before.section(c as int).contains(item));
                }
            },
        }
        self.selected = None;
    }

    /// Adds `item` at the end of the selected applet's section (the left
    /// section when nothing is selected) and selects it.
    pub fn add_item(&mut self, item: PanelItem)
        requires
            old(self).wf(),
            !old(self).placed(item),
        ensures
            final(self).wf(),
            final(self).placed(item),
            forall|x: PanelItem| x != item ==> final(self).placed(x) == old(self).placed(x),
            ({
                let t: int = match old(self).selected {
                    Some((c, _)) => c as int,
                    None => 0,
                };
                &&& final(self).section(t) == old(self).section(t).push(item)
                &&& forall|d: int| 0 <= d < 3 && d != t ==> final(self).section(d) == old(self).section(d)
                &&& final(self).selected == Some((t as usize, old(self).section(t).len() as usize))
            }),
    {
        let t: usize = match self.selected {
            Some((c, _)) => c,
            None => 0,
        };
        if t == 0 {
            self.left.push(item);
        } else if t == 1 {
            self.center.push(item);
        } else {
            self.right.push(item);
        }
        let n: usize = self.section_items(t).len();
        self.selected = Some((t, n - 1));
        proof {
            assert(self.section(t as int).contains(item)) by {
                assert(self.section(t as int)[n - 1] == item);
            }
        }
    }
}

/// The applets that are not placed are exactly those in the pool, and the
/// pool lists each of them once.
pub proof fn law_pool_complements_panel(layout: AppletLayout, item: PanelItem)
    ensures
        layout.spec_pool().contains(item) <==> !layout.placed(item),
        layout.spec_pool().no_duplicates(),
{
    lemma_all_items_complete(item);
    let p = |x: PanelItem| !layout.placed(x);
    if !layout.placed(item) {
        let k = choose|k: int| 0 <= k < all_items().len() && all_items()[k] == item;
        all_items().lemma_filter_contains(p, k);
    }
    if layout.spec_pool().contains(item) {
        let k = choose|k: int| 0 <= k < layout.spec_pool().len() && layout.spec_pool()[k] == item;
        all_items().lemma_filter_pred(p, k);
    }
    crate::seqs::lemma_filter_no_duplicates(all_items(), p);
}

/// Whether `v` holds `item`.
pub fn contains_item(v: &Vec<PanelItem>, item: PanelItem) -> (r: bool)
    ensures
        r == v@.contains(item),
{
    let mut k: usize = 0;
    while k < v.len()
        invariant
            k <= v.len(),
            forall|j: int| 0 <= j < k ==> v@[j] != item,
        decreases v.len() - k,
    {
        if v[k] == item {
            return true;
        }
        k = k + 1;
    }
    false
}

/// The items of `s` that are not yet in `seen`, once each, in order of
/// first occurrence; `seen` grows by them.
fn dedup_into(seen: &mut Vec<PanelItem>, s: &Vec<PanelItem>) -> (r: Vec<PanelItem>)
    ensures
        r@ == dedup_after(old(seen)@, s@),
        final(seen)@ == old(seen)@ + r@,
{
    let mut r: Vec<PanelItem> = Vec::new();
    let mut k: usize = 0;
    proof {
        assert(s@.skip(0) =~= s@);
        assert(old(seen)@ + Seq::<PanelItem>::empty() =~= old(seen)@);
    }
    while k < s.len()
        invariant
            k <= s.len(),
            seen@ == old(seen)@ + r@,
            dedup_after(old(seen)@, s@) == r@ + dedup_after(seen@, s@.skip(k as int)),
        decreases s.len() - k,
    {
        let item: PanelItem = s[k];
        let ghost rest = s@.skip(k as int);
        proof {
            assert(rest[0] == item);
            assert(rest.drop_first() =~= s@.skip(k + 1));
        }
        if !contains_item(seen, item) {
            let ghost before = r@;
            r.push(item);
            seen.push(item);
            proof {
                assert(before + (seq![item] + dedup_after(seen@, s@.skip(k + 1))) =~= r@
                    + dedup_after(seen@, s@.skip(k + 1)));
            }
        }
        k = k + 1;
    }
    proof {
        assert(s@.skip(s.len() as int) =~= Seq::<PanelItem>::empty());
        assert(r@ + Seq::<PanelItem>::empty() =~= r@);
    }
    r
}

/// What `dedup_after` gives is free of repeats and of the items already seen,
/// and holds every item of `s` that was not seen.
pub proof fn lemma_dedup_distinct(seen: Seq<PanelItem>, s: Seq<PanelItem>)
    ensures
        dedup_after(seen, s).no_duplicates(),
        forall|x: PanelItem| dedup_after(seen, s).contains(x) ==> !seen.contains(x) && s.contains(x),
        forall|x: PanelItem| s.contains(x) && !seen.contains(x) ==> dedup_after(seen, s).contains(x),
    decreases s.len(),
{
    if s.len() > 0 {
        let t = s.drop_first();
        let x0 = s[0];
        assert forall|x: PanelItem| t.contains(x) implies s.contains(x) by {
            let k = choose|k: int| 0 <= k < t.len() && t[k] == x;
            assert(s[k + 1] == x);
        }
        assert forall|x: PanelItem| s.contains(x) && x != x0 implies t.contains(x) by {
            let k = choose|k: int| 0 <= k < s.len() && s[k] == x;
            assert(k > 0);
            assert(t[k - 1] == x);
        }
        if seen.contains(x0) {
            lemma_dedup_distinct(seen, t);
        } else {
            let sp = seen.push(x0);
            lemma_dedup_distinct(sp, t);
            let rest = dedup_after(sp, t);
            let d = seq![x0] + rest;
            assert(d == dedup_after(seen, s));
            assert forall|x: PanelItem| seen.contains(x) implies sp.contains(x) by {
                let k = choose|k: int| 0 <= k < seen.len() && seen[k] == x;
                assert(sp[k] == x);
            }
            assert(sp.contains(x0)) by {
                assert(sp[seen.len() as int] == x0);
            }
            assert forall|x: PanelItem| d.contains(x) implies !seen.contains(x) && s.contains(x) by {
                let k = choose|k: int| 0 <= k < d.len() && d[k] == x;
                if k > 0 {
                    assert(rest[k - 1] == x);
                    assert(rest.contains(x));
                } else {
                    assert(s[0] == x);
                }
            }
            assert forall|x: PanelItem| s.contains(x) && !seen.contains(x) implies d.contains(x) by {
                if x == x0 {
                    assert(d[0] == x);
                } else {
                    assert(!sp.contains(x)) by {
                        if sp.contains(x) {
                            let k = choose|k: int| 0 <= k < sp.len() && sp[k] == x;
                            if k < seen.len() {
                                assert(seen[k] == x);
                            }
                        }
                    }
                    assert(rest.contains(x));
                    let k = choose|k: int| 0 <= k < rest.len() && rest[k] == x;
                    assert(d[k + 1] == x);
                }
            }
            assert forall|a: int, b: int| 0 <= a < d.len() && 0 <= b < d.len() && a != b implies d[a]
                != d[b] by {
                if a == 0 && b > 0 {
                    assert(rest.contains(d[b])) by {
                        assert(rest[b - 1] == d[b]);
                    }
                } else if b == 0 && a > 0 {
                    assert(rest.contains(d[a])) by {
                        assert(rest[a - 1] == d[a]);
                    }
                } else if a > 0 && b > 0 {
                    assert(d[a] == rest[a - 1] && d[b] == rest[b - 1]);
                }
            }
        }
    }
}

/// Exchanges the items at positions `i` and `j`.
fn swap_items(v: &mut Vec<PanelItem>, i: usize, j: usize)
    requires
        i < old(v).len(),
        j < old(v).len(),
    ensures
        final(v)@ == old(v)@.update(i as int, old(v)@[j as int]).update(j as int, old(v)@[i as int]),
{
    let a: PanelItem = v[i];
    let b: PanelItem = v[j];
    v.set(i, b);
    v.set(j, a);
}

/// Exchanging two items keeps the set of items and their distinctness.
pub proof fn lemma_swap_same_items(s: Seq<PanelItem>, i: int, j: int)
    requires
        0 <= i < s.len(),
        0 <= j < s.len(),
    ensures
        forall|x: PanelItem| #[trigger] s.update(i, s[j]).update(j, s[i]).contains(x) <==> s.contains(x),
        s.no_duplicates() ==> s.update(i, s[j]).update(j, s[i]).no_duplicates(),
{
    let r = s.update(i, s[j]).update(j, s[i]);
    let perm = |k: int| if k == i { j } else if k == j { i } else { k };
    assert forall|k: int| 0 <= k < r.len() implies r[k] == s[perm(k)] by {}
    assert forall|x: PanelItem| r.contains(x) <==> s.contains(x) by {
        if r.contains(x) {
            let k = choose|k: int| 0 <= k < r.len() && r[k] == x;
            assert(s[perm(k)] == x);
        }
        if s.contains(x) {
            let k = choose|k: int| 0 <= k < s.len() && s[k] == x;
            assert(r[perm(k)] == x);
        }
    }
    if s.no_duplicates() {
        assert forall|a: int, b: int| 0 <= a < r.len() && 0 <= b < r.len() && a != b implies r[a] != r[b] by {
            assert(r[a] == s[perm(a)] && r[b] == s[perm(b)]);
        }
    }
}

/// Removes and returns the item at position `i`.
fn remove_at(v: &mut Vec<PanelItem>, i: usize) -> (item: PanelItem)
    requires
        i < old(v).len(),
    ensures
        item == old(v)@[i as int],
        final(v)@ == old(v)@.remove(i as int),
{
    v.remove(i)
}

/// In a sequence without repeats, the removed item is gone and the others stay.
pub proof fn lemma_not_in_after_remove(s: Seq<PanelItem>, i: int)
    requires
        s.no_duplicates(),
        0 <= i < s.len(),
    ensures
        !s.remove(i).contains(s[i]),
        s.remove(i).no_duplicates(),
        forall|x: PanelItem| x != s[i] ==> (s.remove(i).contains(x) <==> s.contains(x)),
        forall|x: PanelItem| s.remove(i).contains(x) ==> s.contains(x),
{
    let r = s.remove(i);
    assert forall|k: int| 0 <= k < r.len() implies r[k] == (if k < i { s[k] } else { s[k + 1] }) by {}
    assert(!r.contains(s[i])) by {
        if r.contains(s[i]) {
            let k = choose|k: int| 0 <= k < r.len() && r[k] == s[i];
            if k < i {
                assert(s[k] == s[i]);
            } else {
                assert(s[k + 1] == s[i]);
            }
        }
    }
    assert forall|x: PanelItem| x != s[i] && s.contains(x) implies r.contains(x) by {
        let k = choose|k: int| 0 <= k < s.len() && s[k] == x;
        if k < i {
            assert(r[k] == x);
        } else {
            assert(k > i);
            assert(r[k - 1] == x);
        }
    }
    assert forall|x: PanelItem| r.contains(x) implies s.contains(x) by {
        let k = choose|k: int| 0 <= k < r.len() && r[k] == x;
        if k < i {
            assert(s[k] == x);
        } else {
            assert(s[k + 1] == x);
        }
    }
    assert forall|a: int, b: int| 0 <= a < r.len() && 0 <= b < r.len() && a != b implies r[a] != r[b] by {
        let sa = if a < i { a } else { a + 1 };
        let sb = if b < i { b } else { b + 1 };
        assert(r[a] == s[sa] && r[b] == s[sb]);
    }
}

/// Moving an item from one section to the end of a section keeps the panel
/// free of repeats and the set of placed items unchanged.
pub proof fn lemma_move_keeps_distinct(before: AppletLayout, after: AppletLayout, c: int, i: int, t: int)
    requires
        before.wf(),
        0 <= c < 3,
        0 <= t < 3,
        0 <= i < before.section(c).len(),
        ({
            let item = before.section(c)[i];
            let removed = before.section(c).remove(i);
            &&& after.section(t) == (if t == c {
                removed
            } else {
                before.section(t)
            }).push(item)
            &&& t != c ==> after.section(c) == removed
            &&& forall|d: int| 0 <= d < 3 && d != c && d != t ==> after.section(d) == before.section(d)
        }),
        after.selected == Some((t as usize, (after.section(t).len() - 1) as usize)),
    ensures
        after.wf(),
        forall|x: PanelItem| after.placed(x) == before.placed(x),
{
    let item = before.section(c)[i];
    let removed = before.section(c).remove(i);
    lemma_not_in_after_remove(before.section(c), i);
    assert(before.section(c).contains(item));
    let base = if t == c {
        removed
    } else {
        before.section(t)
    };
    assert(!base.contains(item)) by {
        if t != c && base.contains(item) {
            assert(before.section(t).contains(item));
        }
    }
    assert(after.section(t).no_duplicates()) by {
        let a2 = base.push(item);
        assert(base.no_duplicates());
        assert forall|a: int, b: int| 0 <= a < a2.len() && 0 <= b < a2.len() && a != b implies a2[a]
            != a2[b] by {
            if a == a2.len() - 1 {
                assert(base.contains(a2[b]));
            } else if b == a2.len() - 1 {
                assert(base.contains(a2[a]));
            }
        }
    }
    assert forall|x: PanelItem| #[trigger] after.section(t).contains(x) <==> (base.contains(x) || x == item) by {
        let a2 = base.push(item);
        if a2.contains(x) && x != item {
            let k = choose|k: int| 0 <= k < a2.len() && a2[k] == x;
            assert(base[k] == x);
        }
        if base.contains(x) {
            let k = choose|k: int| 0 <= k < base.len() && base[k] == x;
            assert(a2[k] == x);
        }
        if x == item {
            assert(a2[base.len() as int] == x);
        }
    }
    assert(after.left@ == after.section(0) && after.center@ == after.section(1) && after.right@
        == after.section(2));
    assert(before.left@ == before.section(0) && before.center@ == before.section(1)
        && before.right@ == before.section(2));
    assert forall|x: PanelItem| after.placed(x) == before.placed(x) by {
        if x == item {
        } else {
        }
    }
}

} // verus!
