//! The workspace indicator's model of the compositor's workspaces: what the
//! ext-workspace events tell about each workspace, and the numbered list
//! the bar shows, in the compositor's coordinate order.
use std::collections::HashMap;
use vstd::prelude::*;
use crate::sort::{ints_less, ints_of, lemma_lex_irreflexive, lemma_lex_split, lemma_lex_transitive, lemma_sorted_views, lemma_stable_sorted, lex_less, sort_views, stable_sort, stable_sorted, SortKey, SortView, SpecOrder};
use crate::text::{chars_of, parse_u32, parse_unsigned};

verus! {

broadcast use vstd::std_specs::hash::group_hash_axioms;

/// A workspace as the bar shows it.
#[derive(Clone, Copy, Debug, PartialEq, Eq, Structural)]
pub struct WorkspaceInfo {
    pub id: u32,
    pub number: u32,
    pub active: bool,
}

/// What the workspace tracker tells the bar.
#[derive(Clone, Debug)]
pub enum WorkspaceEvent {
    Snapshot(Vec<WorkspaceInfo>),
}

/// What the bar asks of the compositor.
#[derive(Clone, Copy, Debug, PartialEq, Eq, Structural)]
pub enum Command {
    Activate(u32),
}

/// What the events so far told about one workspace.
#[derive(Debug)]
pub struct PendingWorkspace {
    pub name: String,
    pub active: bool,
    pub coordinates: Vec<i32>,
}

/// A workspace's name, whether it is active, and its coordinates.
pub type PendingView = (Seq<char>, bool, Seq<i32>);

pub open spec fn pending_view(p: PendingWorkspace) -> PendingView {
    (p.name@, p.active, p.coordinates@)
}

pub open spec fn fresh_pending() -> PendingView {
    (seq![], false, seq![])
}

impl PendingWorkspace {
    fn fresh() -> (r: Self)
        ensures
            pending_view(r) == fresh_pending(),
    {
        PendingWorkspace { name: String::new(), active: false, coordinates: Vec::new() }
    }
}

/// The workspaces announced so far, in announcement order, and what is
/// known of each.
pub struct Tracker {
    order: Vec<u32>,
    pending: HashMap<u32, PendingWorkspace>,
}

impl Tracker {
    /// The ids of the announced workspaces, in announcement order.
    pub closed spec fn order(&self) -> Seq<u32> {
        self.order@
    }

    /// What is known of each workspace.
    pub closed spec fn pending(&self) -> Map<u32, PendingView> {
        self.pending@.map_values(|p: PendingWorkspace| pending_view(p))
    }

    /// No workspace yet.
    pub fn new() -> (r: Self)
        ensures
            r.order() == Seq::<u32>::empty(),
            r.pending() == Map::<u32, PendingView>::empty(),
    {
        let r = Tracker { order: Vec::new(), pending: HashMap::new() };
        assert(r.pending() =~= Map::<u32, PendingView>::empty());
        r
    }

    fn take_pending(&mut self, id: u32) -> (r: PendingWorkspace)
        ensures
            final(self).order == old(self).order,
            final(self).pending@ == old(self).pending@.remove(id),
            pending_view(r) == if old(self).pending@.contains_key(id) {
                pending_view(old(self).pending@[id])
            } else {
                fresh_pending()
            },
    {
        match self.pending.remove(&id) {
            Some(p) => p,
            None => PendingWorkspace::fresh(),
        }
    }

    /// A new workspace was announced: it goes last, with nothing known of it.
    pub fn on_workspace(&mut self, id: u32)
        ensures
            final(self).order() == old(self).order().push(id),
            final(self).pending() == old(self).pending().insert(id, fresh_pending()),
    {
        self.order.push(id);
        let p = PendingWorkspace::fresh();
        self.pending.insert(id, p);
        assert(self.pending() =~= old(self).pending().insert(id, fresh_pending()));
    }

    /// A workspace's name.
    pub fn on_name(&mut self, id: u32, name: String)
        ensures
            final(self).order() == old(self).order(),
            final(self).pending() == old(self).pending().insert(
                id,
                (name@, known(old(self).pending(), id).1, known(old(self).pending(), id).2),
            ),
    {
        let mut p = self.take_pending(id);
        p.name = name;
        self.pending.insert(id, p);
        assert(self.pending() =~= old(self).pending().insert(
            id,
            (name@, known(old(self).pending(), id).1, known(old(self).pending(), id).2),
        ));
    }

    /// A workspace's coordinates.
    pub fn on_coordinates(&mut self, id: u32, coordinates: Vec<i32>)
        ensures
            final(self).order() == old(self).order(),
            final(self).pending() == old(self).pending().insert(
                id,
                (known(old(self).pending(), id).0, known(old(self).pending(), id).1, coordinates@),
            ),
    {
        let ghost c = coordinates@;
        let mut p = self.take_pending(id);
        p.coordinates = coordinates;
        self.pending.insert(id, p);
        assert(self.pending() =~= old(self).pending().insert(
            id,
            (known(old(self).pending(), id).0, known(old(self).pending(), id).1, c),
        ));
    }

    /// A workspace's state bits: the lowest says that it is active.
    pub fn on_state(&mut self, id: u32, bits: u32)
        ensures
            final(self).order() == old(self).order(),
            final(self).pending() == old(self).pending().insert(
                id,
                (known(old(self).pending(), id).0, bits & 1 != 0, known(old(self).pending(), id).2),
            ),
    {
        let mut p = self.take_pending(id);
        p.active = bits & 1 != 0;
        self.pending.insert(id, p);
        assert(self.pending() =~= old(self).pending().insert(
            id,
            (known(old(self).pending(), id).0, bits & 1 != 0, known(old(self).pending(), id).2),
        ));
    }

    /// A workspace is gone: it leaves the order and the record.
    pub fn on_removed(&mut self, id: u32)
        ensures
            final(self).order() == old(self).order().filter(|x: u32| x != id),
            final(self).pending() == old(self).pending().remove(id),
    {
        self.pending.remove(&id);
        proof {
            reveal(Seq::filter);
            assert(self.order@.take(0) =~= Seq::<u32>::empty());
        }
        let mut kept: Vec<u32> = Vec::new();
        let mut k: usize = 0;
        while k < self.order.len()
            invariant
                k <= self.order@.len(),
                kept@ == self.order@.take(k as int).filter(|x: u32| x != id),
            decreases self.order@.len() - k,
        {
            proof {
                reveal(Seq::filter);
                assert(self.order@.take(k + 1).drop_last() =~= self.order@.take(k as int));
                assert(self.order@.take(k + 1).last() == self.order@[k as int]);
            }
            let x: u32 = self.order[k];
            if x != id {
                kept.push(x);
            }
            k = k + 1;
        }
        proof {
            assert(self.order@.take(k as int) =~= self.order@);
        }
        self.order = kept;
        assert(self.pending() =~= old(self).pending().remove(id));
    }

    /// The workspaces as the bar shows them: ordered by coordinates (those
    /// with none first, the others lexicographically; equal ones in
    /// announcement order), numbered by their name when it is a number and
    /// else by their place in that order, counting from 1.
    pub fn snapshot(&self) -> (r: Vec<WorkspaceInfo>)
        ensures
            r@ == numbered(sorted_slots(self.order(), self.pending()), self.pending()),
    {
        let mut slots: Vec<Slot> = Vec::new();
        let mut k: usize = 0;
        while k < self.order.len()
            invariant
                k <= self.order@.len(),
                sort_views(slots@) == self.order@.take(k as int).map_values(
                    |id: u32| slot_of(id, self.pending()),
                ),
            decreases self.order@.len() - k,
        {
            let id: u32 = self.order[k];
            let coordinates: Option<Vec<i32>> = match self.pending.get(&id) {
                Some(p) => Some(p.coordinates.clone()),
                None => None,
            };
            let ghost before = slots@;
            let slot = Slot { id, coordinates };
            proof {
                assert(slot.sort_view() == slot_of(id, self.pending()));
            }
            slots.push(slot);
            proof {
                assert(sort_views(slots@) =~= sort_views(before).push(slot.sort_view()));
                assert(self.order@.take(k + 1) =~= self.order@.take(k as int).push(id));
                assert(self.order@.take(k + 1).map_values(|id: u32| slot_of(id, self.pending()))
                    =~= self.order@.take(k as int).map_values(
                    |id: u32| slot_of(id, self.pending()),
                ).push(slot_of(id, self.pending())));
            }
            k = k + 1;
        }
        proof {
            assert(self.order@.take(k as int) =~= self.order@);
        }
        let ghost unsorted = slots@;
        let sorted: Vec<Slot> = stable_sort(slots);
        proof {
            lemma_sorted_views(unsorted);
        }
        let mut r: Vec<WorkspaceInfo> = Vec::new();
        let mut i: usize = 0;
        while i < sorted.len()
            invariant
                i <= sorted@.len(),
                sort_views(sorted@) == sorted_slots(self.order(), self.pending()),
                r@ == numbered(sort_views(sorted@).take(i as int), self.pending()),
            decreases sorted@.len() - i,
        {
            proof {
                let s = sort_views(sorted@);
                assert(s.take(i + 1).drop_last() =~= s.take(i as int));
                assert(s.take(i + 1).last() == s[i as int]);
            }
            let id: u32 = sorted[i].id;
            match self.pending.get(&id) {
                Some(p) => {
                    let name: Vec<char> = chars_of(p.name.as_str());
                    let fallback: u32 = (i + 1) as u32;
                    let number: u32 = match parse_u32(&name) {
                        Some(n) => n,
                        None => fallback,
                    };
                    r.push(WorkspaceInfo { id, number, active: p.active });
                },
                None => {},
            }
            i = i + 1;
        }
        proof {
            assert(sort_views(sorted@).take(i as int) =~= sort_views(sorted@));
        }
        r
    }
}

/// What is known of a workspace: fresh when nothing is.
pub open spec fn known(pending: Map<u32, PendingView>, id: u32) -> PendingView {
    if pending.contains_key(id) {
        pending[id]
    } else {
        fresh_pending()
    }
}

/// A workspace and its coordinates, the key the workspaces are ordered by.
pub struct Slot {
    pub id: u32,
    pub coordinates: Option<Vec<i32>>,
}

pub type SlotView = (u32, Option<Seq<i32>>);

impl SpecOrder for SlotView {
    /// No coordinates go first; coordinates go in lexicographic order.
    open spec fn spec_before(&self, other: &Self) -> bool {
        match (self.1, other.1) {
            (None, Some(_)) => true,
            (Some(a), Some(b)) => lex_less(ints_of(a), ints_of(b)),
            _ => false,
        }
    }

    proof fn lemma_irreflexive(a: Self) {
        if let Some(x) = a.1 {
            lemma_lex_irreflexive(ints_of(x));
        }
    }

    proof fn lemma_transitive(a: Self, b: Self, c: Self) {
        if a.1 is Some && b.1 is Some && c.1 is Some {
            lemma_lex_transitive(ints_of(a.1->0), ints_of(b.1->0), ints_of(c.1->0));
        }
    }

    proof fn lemma_split(a: Self, b: Self, c: Self) {
        if a.1 is Some && b.1 is Some && c.1 is Some {
            lemma_lex_split(ints_of(a.1->0), ints_of(b.1->0), ints_of(c.1->0));
        }
    }
}

pub open spec fn slot_view(s: Slot) -> SlotView {
    (
        s.id,
        match s.coordinates {
            Some(c) => Some(c@),
            None => None,
        },
    )
}

impl SpecOrder for Slot {
    open spec fn spec_before(&self, other: &Self) -> bool {
        slot_view(*self).spec_before(&slot_view(*other))
    }

    proof fn lemma_irreflexive(a: Self) {
        SlotView::lemma_irreflexive(slot_view(a));
    }

    proof fn lemma_transitive(a: Self, b: Self, c: Self) {
        SlotView::lemma_transitive(slot_view(a), slot_view(b), slot_view(c));
    }

    proof fn lemma_split(a: Self, b: Self, c: Self) {
        SlotView::lemma_split(slot_view(a), slot_view(b), slot_view(c));
    }
}

impl SortKey for Slot {
    fn before(&self, other: &Self) -> (r: bool) {
        match (&self.coordinates, &other.coordinates) {
            (None, Some(_)) => true,
            (Some(a), Some(b)) => ints_less(a, b),
            _ => false,
        }
    }
}

impl SortView for Slot {
    type V = SlotView;

    open spec fn sort_view(&self) -> SlotView {
        slot_view(*self)
    }

    proof fn lemma_view_before(a: Self, b: Self) {
    }
}

/// A workspace's sort key: its coordinates, none when nothing is known of it.
pub open spec fn slot_of(id: u32, pending: Map<u32, PendingView>) -> SlotView {
    (id, if pending.contains_key(id) { Some(pending[id].2) } else { None })
}

/// The workspaces in the order the bar shows them.
pub open spec fn sorted_slots(order: Seq<u32>, pending: Map<u32, PendingView>) -> Seq<SlotView> {
    stable_sorted(order.map_values(|id: u32| slot_of(id, pending)))
}

/// The number a workspace at place `i` (from 0) gets: its name when that
/// reads as a `u32`, else `i + 1`.
pub open spec fn workspace_number(name: Seq<char>, i: int) -> u32 {
    match parse_unsigned(name, u32::MAX as nat) {
        Some(n) => n as u32,
        None => (i + 1) as u32,
    }
}

/// The entries for the sorted workspaces that something is known of.
pub open spec fn numbered(s: Seq<SlotView>, pending: Map<u32, PendingView>) -> Seq<WorkspaceInfo>
    decreases s.len(),
{
    if s.len() == 0 {
        seq![]
    } else {
        let rest = numbered(s.drop_last(), pending);
        let id = s.last().0;
        if pending.contains_key(id) {
            rest.push(
                WorkspaceInfo {
                    id,
                    number: workspace_number(pending[id].0, s.len() - 1),
                    active: pending[id].1,
                },
            )
        } else {
            rest
        }
    }
}

/// The bar lists workspaces by their coordinates: no workspace goes before
/// one listed ahead of it, and none is lost or added by the ordering.
pub proof fn law_workspaces_by_coordinates(order: Seq<u32>, pending: Map<u32, PendingView>)
    ensures
        sorted_slots(order, pending).len() == order.len(),
        forall|a: int, b: int|
            #![trigger sorted_slots(order, pending)[a], sorted_slots(order, pending)[b]]
            0 <= a < b < order.len() ==> !sorted_slots(order, pending)[b].spec_before(
                &sorted_slots(order, pending)[a],
            ),
{
    lemma_stable_sorted(order.map_values(|id: u32| slot_of(id, pending)));
}

} // verus!
