//! Which window sits where.
//!
//! The part of the layout engine that survives a restart: the slot of every
//! window, the floating windows, the active and last focused of each workspace,
//! and the display each space was seen on. Trees and frames are computed
//! elsewhere from these.

use vstd::prelude::*;

use crate::collections::{
    distinct_keys, entries_map, has_key, holds_key, lemma_entry, lemma_key,
    lemma_rekeyed, lemma_values_mapped, rekeyed, values_mapped, with_entry, without_key, VecMap,
    VecSet,
};
use crate::ids::{SpaceId, VirtualWorkspaceId, WindowId};

verus! {

/// The slot of a window.
#[derive(Debug, Clone, Copy, PartialEq, Eq, Structural)]
pub struct Placement {
    pub space: SpaceId,
    pub workspace: VirtualWorkspaceId,
    /// Number of the window on its space.
    pub index: u32,
}

#[derive(Debug)]
pub struct LayoutEngine {
    pub placements: VecMap<WindowId, Placement>,
    pub floating: VecSet<WindowId>,
    pub active: VecMap<SpaceId, VirtualWorkspaceId>,
    pub last_focused: VecMap<VirtualWorkspaceId, WindowId>,
    /// The display each known space was last seen on, where it was recorded.
    pub displays: VecMap<SpaceId, Option<String>>,
}

/// [`LayoutEngine`] as a mathematical value. Placements and displays keep their
/// order.
#[verifier::ext_equal]
pub struct EngineModel {
    pub placements: Seq<(WindowId, Placement)>,
    pub floating: Set<WindowId>,
    pub active: Map<SpaceId, VirtualWorkspaceId>,
    pub last_focused: Map<VirtualWorkspaceId, WindowId>,
    pub displays: Seq<(SpaceId, Option<String>)>,
}

impl View for LayoutEngine {
    type V = EngineModel;

    open spec fn view(&self) -> EngineModel {
        EngineModel {
            placements: self.placements.entries@,
            floating: self.floating@,
            active: self.active@,
            last_focused: self.last_focused@,
            displays: self.displays.entries@,
        }
    }
}

impl EngineModel {
    /// No window has two slots, and no space two displays.
    pub open spec fn wf(self) -> bool {
        distinct_keys(self.placements) && distinct_keys(self.displays)
    }

    /// The slot of a window.
    pub open spec fn slot(self, wid: WindowId) -> Option<Placement> {
        if entries_map(self.placements).dom().contains(wid) {
            Some(entries_map(self.placements)[wid])
        } else {
            None
        }
    }

    /// The workspace of a window that sits on `space`.
    pub open spec fn workspace_on(self, space: SpaceId, wid: WindowId) -> Option<
        VirtualWorkspaceId,
    > {
        match self.slot(wid) {
            Some(p) if p.space == space => Some(p.workspace),
            _ => None,
        }
    }

    /// The first window numbered `idx` on `space`, from position `from` on.
    pub open spec fn numbered(self, space: SpaceId, idx: u32, from: int) -> Option<WindowId>
        decreases self.placements.len() - from,
    {
        if from >= self.placements.len() {
            None
        } else if self.placements[from].1.space == space && self.placements[from].1.index == idx {
            Some(self.placements[from].0)
        } else {
            self.numbered(space, idx, from + 1)
        }
    }

    /// The windows among the first `count` placements that sit in the active
    /// workspace of `space`, in order.
    pub open spec fn active_windows(self, space: SpaceId, count: int) -> Seq<WindowId>
        decreases count,
    {
        if count <= 0 {
            Seq::empty()
        } else {
            let before = self.active_windows(space, count - 1);
            let (wid, p) = self.placements[count - 1];
            if p.space == space && self.active_workspace_of(space) == Some(p.workspace) {
                before.push(wid)
            } else {
                before
            }
        }
    }

    pub open spec fn active_workspace_of(self, space: SpaceId) -> Option<VirtualWorkspaceId> {
        if self.active.dom().contains(space) {
            Some(self.active[space])
        } else {
            None
        }
    }

    /// The window last focused in a workspace.
    pub open spec fn last_focused_in(self, workspace: VirtualWorkspaceId) -> Option<WindowId> {
        if self.last_focused.dom().contains(workspace) {
            Some(self.last_focused[workspace])
        } else {
            None
        }
    }
}

/// Everything that belonged to `from` belongs to `to`.
pub open spec fn engine_rewritten(e: EngineModel, from: WindowId, to: WindowId) -> EngineModel {
    EngineModel {
        placements: rekeyed(e.placements, from, to),
        floating: if from != to && e.floating.contains(from) {
            e.floating.remove(from).insert(to)
        } else {
            e.floating
        },
        last_focused: e.last_focused.map_values(
            |w: WindowId|
                if w == from {
                    to
                } else {
                    w
                },
        ),
        ..e
    }
}

/// Nothing belongs to `wid`.
pub open spec fn engine_pruned(e: EngineModel, wid: WindowId) -> EngineModel {
    EngineModel {
        placements: without_key(e.placements, wid),
        floating: e.floating.remove(wid),
        last_focused: e.last_focused.remove_keys(
            e.last_focused.dom().filter(|ws: VirtualWorkspaceId| e.last_focused[ws] == wid),
        ),
        ..e
    }
}

/// A slot moved from space `from` to space `to`, if it was there.
pub open spec fn slot_on(p: Placement, from: SpaceId, to: SpaceId) -> Placement {
    if p.space == from {
        Placement { space: to, ..p }
    } else {
        p
    }
}

/// Everything on space `from` is on space `to`.
pub open spec fn engine_remapped(e: EngineModel, from: SpaceId, to: SpaceId) -> EngineModel {
    EngineModel {
        placements: values_mapped(e.placements, |p: Placement| slot_on(p, from, to)),
        active: if from != to && e.active.dom().contains(from) {
            e.active.remove(from).insert(to, e.active[from])
        } else {
            e.active
        },
        displays: rekeyed(e.displays, from, to),
        ..e
    }
}

impl LayoutEngine {
    pub open spec fn wf(&self) -> bool {
        &&& self.placements.wf()
        &&& self.floating.wf()
        &&& self.active.wf()
        &&& self.last_focused.wf()
        &&& self.displays.wf()
    }

    pub fn new() -> (e: LayoutEngine)
        ensures
            e.wf(),
            e@ == (EngineModel {
                placements: Seq::empty(),
                floating: Set::empty(),
                active: Map::empty(),
                last_focused: Map::empty(),
                displays: Seq::empty(),
            }),
    {
        LayoutEngine {
            placements: VecMap::new(),
            floating: VecSet::new(),
            active: VecMap::new(),
            last_focused: VecMap::new(),
            displays: VecMap::new(),
        }
    }

    /// The workspace of a window that sits on `space`.
    pub fn workspace_for_window(&self, space: SpaceId, wid: WindowId) -> (r: Option<
        VirtualWorkspaceId,
    >)
        requires
            self.wf(),
        ensures
            r == self@.workspace_on(space, wid),
    {
        match self.placements.get(&wid) {
            Some(p) => if p.space == space {
                Some(p.workspace)
            } else {
                None
            },
            None => None,
        }
    }

    /// The slot of a window, on whatever space.
    pub fn workspace_info_for_window_any(&self, wid: WindowId) -> (r: Option<Placement>)
        requires
            self.wf(),
        ensures
            r == self@.slot(wid),
    {
        match self.placements.get(&wid) {
            Some(p) => Some(*p),
            None => None,
        }
    }

    /// The workspace of a window, on whatever space.
    pub fn workspace_for_window_any(&self, wid: WindowId) -> (r: Option<VirtualWorkspaceId>)
        requires
            self.wf(),
        ensures
            r == (match self@.slot(wid) {
                Some(p) => Some(p.workspace),
                None => None,
            }),
    {
        match self.placements.get(&wid) {
            Some(p) => Some(p.workspace),
            None => None,
        }
    }

    /// The window numbered `idx` on `space`.
    pub fn find_window_by_idx(&self, space: SpaceId, idx: u32) -> (r: Option<WindowId>)
        ensures
            r == self@.numbered(space, idx, 0),
    {
        let mut i: usize = 0;
        while i < self.placements.entries.len()
            invariant
                i <= self.placements.entries@.len(),
                self@.numbered(space, idx, 0) == self@.numbered(space, idx, i as int),
            decreases self.placements.entries@.len() - i,
        {
            let (wid, p) = self.placements.entries[i];
            if p.space == space && p.index == idx {
                return Some(wid);
            }
            i += 1;
        }
        None
    }

    pub fn is_window_floating(&self, wid: WindowId) -> (b: bool)
        ensures
            b == self@.floating.contains(wid),
    {
        self.floating.contains(&wid)
    }

    pub fn active_workspace(&self, space: SpaceId) -> (r: Option<VirtualWorkspaceId>)
        requires
            self.wf(),
        ensures
            r == self@.active_workspace_of(space),
    {
        match self.active.get(&space) {
            Some(ws) => Some(*ws),
            None => None,
        }
    }

    pub fn last_focused_window(&self, workspace: VirtualWorkspaceId) -> (r: Option<WindowId>)
        requires
            self.wf(),
        ensures
            r == self@.last_focused_in(workspace),
    {
        match self.last_focused.get(&workspace) {
            Some(wid) => Some(*wid),
            None => None,
        }
    }

    /// The windows in the active workspace of `space`, in order.
    pub fn windows_in_active_workspace(&self, space: SpaceId) -> (r: Vec<WindowId>)
        requires
            self.wf(),
        ensures
            r@ == self@.active_windows(space, self@.placements.len() as int),
    {
        let active = self.active_workspace(space);
        let mut windows: Vec<WindowId> = Vec::new();
        let mut i: usize = 0;
        while i < self.placements.entries.len()
            invariant
                i <= self.placements.entries@.len(),
                active == self@.active_workspace_of(space),
                windows@ == self@.active_windows(space, i as int),
            decreases self.placements.entries@.len() - i,
        {
            let (wid, p) = self.placements.entries[i];
            let in_active = match active {
                Some(ws) => ws == p.workspace,
                None => false,
            };
            if p.space == space && in_active {
                windows.push(wid);
            }
            i += 1;
        }
        windows
    }

    /// Every window that has a slot.
    pub fn all_window_ids(&self) -> (r: Vec<WindowId>)
        ensures
            r@ == self@.placements.map_values(|e: (WindowId, Placement)| e.0),
    {
        let mut windows: Vec<WindowId> = Vec::new();
        let mut i: usize = 0;
        while i < self.placements.entries.len()
            invariant
                i <= self.placements.entries@.len(),
                windows@ =~= self@.placements.take(i as int).map_values(
                    |e: (WindowId, Placement)| e.0,
                ),
            decreases self.placements.entries@.len() - i,
        {
            windows.push(self.placements.entries[i].0);
            i += 1;
        }
        assert(self@.placements.take(i as int) =~= self@.placements);
        windows
    }

    /// Give `wid` a slot.
    pub fn place_window(&mut self, wid: WindowId, placement: Placement)
        requires
            old(self).wf(),
        ensures
            final(self).wf(),
            final(self)@ == (EngineModel {
                placements: with_entry(old(self)@.placements, wid, placement),
                ..old(self)@
            }),
            final(self)@.slot(wid) == Some(placement),
            forall|other: WindowId|
                other != wid ==> #[trigger] final(self)@.slot(other) == old(self)@.slot(other),
    {
        self.placements.insert(wid, placement);
    }

    /// Let `wid` float, or tile.
    pub fn set_floating(&mut self, wid: WindowId, floating: bool)
        requires
            old(self).wf(),
        ensures
            final(self).wf(),
            final(self)@ == (EngineModel {
                floating: if floating {
                    old(self)@.floating.insert(wid)
                } else {
                    old(self)@.floating.remove(wid)
                },
                ..old(self)@
            }),
    {
        if floating {
            self.floating.insert(wid);
        } else {
            self.floating.remove(&wid);
        }
    }

    pub fn set_active_workspace(&mut self, space: SpaceId, workspace: VirtualWorkspaceId)
        requires
            old(self).wf(),
        ensures
            final(self).wf(),
            final(self)@ == (EngineModel {
                active: old(self)@.active.insert(space, workspace),
                ..old(self)@
            }),
    {
        self.active.insert(space, workspace);
    }

    pub fn set_last_focused(&mut self, workspace: VirtualWorkspaceId, wid: WindowId)
        requires
            old(self).wf(),
        ensures
            final(self).wf(),
            final(self)@ == (EngineModel {
                last_focused: old(self)@.last_focused.insert(workspace, wid),
                ..old(self)@
            }),
    {
        self.last_focused.insert(workspace, wid);
    }

    /// Record a space, and the display it is on where that is known.
    pub fn expose_space(&mut self, space: SpaceId, display: Option<String>)
        requires
            old(self).wf(),
        ensures
            final(self).wf(),
            final(self)@ == (EngineModel {
                displays: with_entry(old(self)@.displays, space, display),
                ..old(self)@
            }),
    {
        self.displays.insert(space, display);
    }

    /// Let `to` take over all that belonged to `from`: its slot, whether it
    /// floats, and its place as last focused.
    pub fn rewrite_window_id(&mut self, from: WindowId, to: WindowId)
        requires
            old(self).wf(),
        ensures
            final(self).wf(),
            final(self)@ == engine_rewritten(old(self)@, from, to),
    {
        self.placements.rekey(&from, to);
        if from != to && self.floating.contains(&from) {
            self.floating.remove(&from);
            self.floating.insert(to);
        }
        refocus(&mut self.last_focused, from, to);
    }

    /// Forget `wid`: no slot, no floating mark, nowhere last focused.
    pub fn prune_window(&mut self, wid: WindowId)
        requires
            old(self).wf(),
        ensures
            final(self).wf(),
            final(self)@ == engine_pruned(old(self)@, wid),
    {
        let ghost slots = self.placements.entries@;
        if let Some(i) = self.placements.position(&wid) {
            proof {
                let c = crate::collections::index_of_key(slots, wid);
                assert(holds_key(slots, wid, c));
                assert(c == i);
            }
            self.placements.entries.remove(i);
            proof {
                crate::collections::lemma_remove(slots, i as int);
            }
        }
        self.floating.remove(&wid);
        let ghost before = self.last_focused.entries@;
        let mut kept: VecMap<VirtualWorkspaceId, WindowId> = VecMap::new();
        let mut i: usize = 0;
        while i < self.last_focused.entries.len()
            invariant
                i <= before.len(),
                before == self.last_focused.entries@,
                distinct_keys(before),
                kept.wf(),
                forall|k: VirtualWorkspaceId|
                    #![trigger kept@.dom().contains(k)]
                    kept@.dom().contains(k) <==> exists|j: int|
                        0 <= j < i && (#[trigger] before[j]).0 == k && before[j].1 != wid,
                forall|k: VirtualWorkspaceId|
                    #![trigger kept@[k]]
                    kept@.dom().contains(k) ==> kept@[k] == entries_map(before)[k],
            decreases before.len() - i,
        {
            let (ws, focused) = self.last_focused.entries[i];
            let ghost had = kept@;
            if focused != wid {
                kept.insert(ws, focused);
            }
            proof {
                lemma_entry(before, i as int);
                assert forall|k: VirtualWorkspaceId|
                    #![trigger kept@.dom().contains(k)]
                    kept@.dom().contains(k) <==> exists|j: int|
                        0 <= j < i + 1 && (#[trigger] before[j]).0 == k && before[j].1 != wid by {
                    if had.dom().contains(k) {
                        let j = choose|j: int|
                            0 <= j < i && (#[trigger] before[j]).0 == k && before[j].1 != wid;
                        assert(0 <= j < i + 1 && before[j].0 == k && before[j].1 != wid);
                    }
                    if k == ws && focused != wid {
                        assert(before[i as int].0 == k && before[i as int].1 != wid);
                    }
                    if exists|j: int|
                        0 <= j < i + 1 && (#[trigger] before[j]).0 == k && before[j].1 != wid {
                        let j = choose|j: int|
                            0 <= j < i + 1 && (#[trigger] before[j]).0 == k && before[j].1 != wid;
                        if j < i {
                            assert(had.dom().contains(k));
                        }
                    }
                }
            }
            i += 1;
        }
        proof {
            let e = old(self)@;
            let want = engine_pruned(e, wid).last_focused;
            assert forall|k: VirtualWorkspaceId| #[trigger]
                kept@.dom().contains(k) == want.dom().contains(k) by {
                if kept@.dom().contains(k) {
                    let j = choose|j: int|
                        0 <= j < before.len() && (#[trigger] before[j]).0 == k && before[j].1
                            != wid;
                    lemma_entry(before, j);
                }
                if want.dom().contains(k) {
                    let j = lemma_key(before, k);
                    assert(before[j].0 == k && before[j].1 != wid);
                }
            }
            assert(kept@ =~= want);
        }
        self.last_focused = kept;
    }

    /// Move all that is on space `from` to space `to`.
    pub fn remap_space(&mut self, from: SpaceId, to: SpaceId)
        requires
            old(self).wf(),
        ensures
            final(self).wf(),
            final(self)@ == engine_remapped(old(self)@, from, to),
    {
        proof {
            lemma_values_mapped(self.placements.entries@, |p: Placement| slot_on(p, from, to));
            lemma_rekeyed(self.active.entries@, from, to);
            lemma_rekeyed(self.displays.entries@, from, to);
        }
        move_slots(&mut self.placements, from, to);
        self.active.rekey(&from, to);
        self.displays.rekey(&from, to);
    }

    /// A second engine in the same state.
    pub fn duplicate(&self) -> (e: LayoutEngine)
        requires
            self.wf(),
        ensures
            e.wf(),
            e@ == self@,
            e.placements.entries@ == self.placements.entries@,
    {
        let placements: Vec<(WindowId, Placement)> = copy_pairs(&self.placements.entries);
        let active: Vec<(SpaceId, VirtualWorkspaceId)> = copy_pairs(&self.active.entries);
        let last_focused: Vec<(VirtualWorkspaceId, WindowId)> = copy_pairs(
            &self.last_focused.entries,
        );
        let mut floating: Vec<WindowId> = Vec::new();
        let mut i: usize = 0;
        while i < self.floating.items.len()
            invariant
                i <= self.floating.items@.len(),
                floating@ =~= self.floating.items@.take(i as int),
            decreases self.floating.items@.len() - i,
        {
            floating.push(self.floating.items[i]);
            i += 1;
        }
        assert(self.floating.items@.take(i as int) =~= self.floating.items@);
        let mut displays: Vec<(SpaceId, Option<String>)> = Vec::new();
        let mut k: usize = 0;
        while k < self.displays.entries.len()
            invariant
                k <= self.displays.entries@.len(),
                displays@ =~= self.displays.entries@.take(k as int),
            decreases self.displays.entries@.len() - k,
        {
            let display = match &self.displays.entries[k].1 {
                Some(uuid) => Some(uuid.clone()),
                None => None,
            };
            displays.push((self.displays.entries[k].0, display));
            k += 1;
        }
        assert(self.displays.entries@.take(k as int) =~= self.displays.entries@);
        LayoutEngine {
            placements: VecMap { entries: placements },
            floating: VecSet { items: floating },
            active: VecMap { entries: active },
            last_focused: VecMap { entries: last_focused },
            displays: VecMap { entries: displays },
        }
    }
}

/// Workspaces that last focused `from` last focused `to`.
fn refocus(focused: &mut VecMap<VirtualWorkspaceId, WindowId>, from: WindowId, to: WindowId)
    requires
        old(focused).wf(),
    ensures
        final(focused).wf(),
        final(focused)@ == old(focused)@.map_values(
            |w: WindowId|
                if w == from {
                    to
                } else {
                    w
                },
        ),
{
    let ghost f = |w: WindowId|
        if w == from {
            to
        } else {
            w
        };
    let ghost before = focused.entries@;
    let mut i: usize = 0;
    while i < focused.entries.len()
        invariant
            i <= before.len(),
            focused.entries@.len() == before.len(),
            f == (|w: WindowId|
                if w == from {
                    to
                } else {
                    w
                }),
            forall|j: int| 0 <= j < i ==> focused.entries@[j] == (before[j].0, f(before[j].1)),
            forall|j: int| i <= j < before.len() ==> focused.entries@[j] == before[j],
        decreases before.len() - i,
    {
        let (ws, wid) = focused.entries[i];
        if wid == from {
            focused.entries.set(i, (ws, to));
        }
        i += 1;
    }
    proof {
        assert(focused.entries@ =~= values_mapped(before, f));
        lemma_values_mapped(before, f);
    }
}

/// Slots on space `from` are on space `to`.
fn move_slots(placements: &mut VecMap<WindowId, Placement>, from: SpaceId, to: SpaceId)
    ensures
        final(placements).entries@ == values_mapped(
            old(placements).entries@,
            |p: Placement| slot_on(p, from, to),
        ),
{
    let ghost before = placements.entries@;
    let mut i: usize = 0;
    while i < placements.entries.len()
        invariant
            i <= before.len(),
            placements.entries@.len() == before.len(),
            forall|j: int|
                0 <= j < i ==> placements.entries@[j] == (
                    before[j].0,
                    slot_on(before[j].1, from, to),
                ),
            forall|j: int| i <= j < before.len() ==> placements.entries@[j] == before[j],
        decreases before.len() - i,
    {
        let (wid, p) = placements.entries[i];
        if p.space == from {
            placements.entries.set(
                i,
                (wid, Placement { space: to, workspace: p.workspace, index: p.index }),
            );
        }
        i += 1;
    }
    assert(placements.entries@ =~= values_mapped(
        before,
        |p: Placement| slot_on(p, from, to),
    ));
}

fn copy_pairs<A: Copy, B: Copy>(pairs: &Vec<(A, B)>) -> (copy: Vec<(A, B)>)
    ensures
        copy@ == pairs@,
{
    let mut copy: Vec<(A, B)> = Vec::new();
    let mut i: usize = 0;
    while i < pairs.len()
        invariant
            i <= pairs@.len(),
            copy@ =~= pairs@.take(i as int),
        decreases pairs@.len() - i,
    {
        copy.push((pairs[i].0, pairs[i].1));
        i += 1;
    }
    assert(pairs@.take(i as int) =~= pairs@);
    copy
}

// ---------------------------------------------------------------------------
// Laws
// ---------------------------------------------------------------------------

/// A rewritten window inherits the slot, the floating mark and the last focus of
/// the id it replaces, and nothing is left under that id.
pub proof fn law_rewrite_inherits_the_slot(
    e: EngineModel,
    from: WindowId,
    to: WindowId,
    ws: VirtualWorkspaceId,
)
    requires
        e.wf(),
        from != to,
        e.slot(from) is Some,
    ensures
        engine_rewritten(e, from, to).slot(to) == e.slot(from),
        engine_rewritten(e, from, to).slot(from) is None,
        e.floating.contains(from) ==> engine_rewritten(e, from, to).floating.contains(to),
        !engine_rewritten(e, from, to).floating.contains(from),
        e.last_focused_in(ws) == Some(from) ==> engine_rewritten(e, from, to).last_focused_in(ws)
            == Some(to),
        engine_rewritten(e, from, to).last_focused_in(ws) != Some(from),
{
    lemma_rekeyed(e.placements, from, to);
    lemma_has_key(engine_rewritten(e, from, to).placements, to);
    lemma_has_key(engine_rewritten(e, from, to).placements, from);
}

/// Rewriting one id leaves the slot of every other window alone.
pub proof fn law_rewrite_leaves_others_alone(
    e: EngineModel,
    from: WindowId,
    to: WindowId,
    other: WindowId,
)
    requires
        e.wf(),
        other != from,
        other != to,
    ensures
        engine_rewritten(e, from, to).slot(other) == e.slot(other),
        engine_rewritten(e, from, to).floating.contains(other) == e.floating.contains(other),
{
    lemma_rekeyed(e.placements, from, to);
    lemma_has_key(engine_rewritten(e, from, to).placements, other);
    lemma_has_key(e.placements, other);
}

/// A pruned window leaves nothing behind, and no other window changes.
pub proof fn law_prune_leaves_no_zombie(
    e: EngineModel,
    wid: WindowId,
    other: WindowId,
    ws: VirtualWorkspaceId,
)
    requires
        e.wf(),
        other != wid,
    ensures
        engine_pruned(e, wid).slot(wid) is None,
        !engine_pruned(e, wid).floating.contains(wid),
        engine_pruned(e, wid).last_focused_in(ws) != Some(wid),
        engine_pruned(e, wid).slot(other) == e.slot(other),
        engine_pruned(e, wid).floating.contains(other) == e.floating.contains(other),
        e.last_focused_in(ws) == Some(other) ==> engine_pruned(e, wid).last_focused_in(ws) == Some(
            other,
        ),
{
    if has_key(e.placements, wid) {
        let i = crate::collections::index_of_key(e.placements, wid);
        crate::collections::lemma_remove(e.placements, i);
    }
    let next = engine_pruned(e, wid).placements;
    assert(entries_map(next) =~= entries_map(e.placements).remove(wid));
    lemma_has_key(next, wid);
    lemma_has_key(next, other);
    lemma_has_key(e.placements, other);
}

/// After a remap nothing is left on the old space; what was there is on the new
/// one, in the same workspace under the same number; windows elsewhere stay.
pub proof fn law_remap_moves_everything(e: EngineModel, from: SpaceId, to: SpaceId, wid: WindowId)
    requires
        e.wf(),
        from != to,
    ensures
        engine_remapped(e, from, to).workspace_on(from, wid) is None,
        e.workspace_on(from, wid) is Some ==> engine_remapped(e, from, to).workspace_on(to, wid)
            == e.workspace_on(from, wid),
        engine_remapped(e, from, to).slot(wid) == (match e.slot(wid) {
            Some(p) => Some(slot_on(p, from, to)),
            None => None,
        }),
        e.active_workspace_of(from) is Some ==> engine_remapped(e, from, to).active_workspace_of(to)
            == e.active_workspace_of(from),
        engine_remapped(e, from, to).active_workspace_of(from) is None,
{
    let f = |p: Placement| slot_on(p, from, to);
    lemma_values_mapped(e.placements, f);
    lemma_has_key(engine_remapped(e, from, to).placements, wid);
    lemma_has_key(e.placements, wid);
}

/// Remapping a space to itself changes nothing.
pub proof fn law_remap_to_itself_is_a_no_op(e: EngineModel, space: SpaceId)
    ensures
        engine_remapped(e, space, space) == e,
{
    assert(engine_remapped(e, space, space).placements =~= e.placements);
}

proof fn lemma_has_key<V>(entries: Seq<(WindowId, V)>, k: WindowId)
    ensures
        has_key(entries, k) == entries_map(entries).dom().contains(k),
{
}

} // verus!
