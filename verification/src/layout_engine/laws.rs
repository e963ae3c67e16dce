//! What the placements say, entry by entry.

use vstd::prelude::*;

use crate::collections::{
    entries_map, has_key, holds_key, index_of_key, lemma_entry, lemma_key, lemma_rekeyed,
};
use crate::ids::{SpaceId, VirtualWorkspaceId, WindowId};
use crate::layout_engine::engine::{
    engine_pruned, engine_remapped, engine_rewritten, EngineModel, Placement,
};

verus! {

/// The slot of a window is what its entry says, in whatever workspace and on
/// whatever space.
pub proof fn law_slot_is_the_entry(e: EngineModel, i: int)
    requires
        e.wf(),
        0 <= i < e.placements.len(),
    ensures
        e.slot(e.placements[i].0) == Some(e.placements[i].1),
{
    lemma_entry(e.placements, i);
}

/// A window without an entry has no slot.
pub proof fn law_no_entry_means_no_slot(e: EngineModel, wid: WindowId)
    requires
        forall|i: int| 0 <= i < e.placements.len() ==> (#[trigger] e.placements[i]).0 != wid,
    ensures
        e.slot(wid) is None,
{
    if has_key(e.placements, wid) {
        let i = index_of_key(e.placements, wid);
        assert(holds_key(e.placements, wid, i));
        assert(e.placements[i].0 == wid);
    }
}

/// On the space of its slot a window is in the workspace of its slot, active or
/// not; on any other space it is in none.
pub proof fn law_workspace_on_a_space(e: EngineModel, wid: WindowId, p: Placement, other: SpaceId)
    requires
        e.slot(wid) == Some(p),
        other != p.space,
    ensures
        e.workspace_on(p.space, wid) == Some(p.workspace),
        e.workspace_on(other, wid) is None,
{
}

/// A window without a slot is in no workspace.
pub proof fn law_no_slot_means_no_workspace(e: EngineModel, wid: WindowId, space: SpaceId)
    requires
        e.slot(wid) is None,
    ensures
        e.workspace_on(space, wid) is None,
{
}

/// The active workspace of a space, and the window last focused in a workspace, are
/// those recorded.
pub proof fn law_recorded_workspace_and_focus(
    e: EngineModel,
    space: SpaceId,
    ws: VirtualWorkspaceId,
)
    ensures
        e.active.dom().contains(space) ==> e.active_workspace_of(space) == Some(e.active[space]),
        !e.active.dom().contains(space) ==> e.active_workspace_of(space) is None,
        e.last_focused.dom().contains(ws) ==> e.last_focused_in(ws) == Some(e.last_focused[ws]),
        !e.last_focused.dom().contains(ws) ==> e.last_focused_in(ws) is None,
{
}

/// A number names the first window that has it on the space, in whatever workspace;
/// one that no window there has names none.
pub proof fn law_number_names_the_first_window(e: EngineModel, space: SpaceId, idx: u32, i: int)
    requires
        0 <= i <= e.placements.len(),
        forall|j: int|
            0 <= j < i ==> (#[trigger] e.placements[j]).1.space != space || e.placements[j].1.index
                != idx,
    ensures
        i == e.placements.len() ==> e.numbered(space, idx, 0) is None,
        i < e.placements.len() && e.placements[i].1.space == space && e.placements[i].1.index == idx
            ==> e.numbered(space, idx, 0) == Some(e.placements[i].0),
{
    lemma_numbered_from(e, space, idx, 0, i);
}

proof fn lemma_numbered_from(e: EngineModel, space: SpaceId, idx: u32, from: int, i: int)
    requires
        0 <= from <= i <= e.placements.len(),
        forall|j: int|
            0 <= j < i ==> (#[trigger] e.placements[j]).1.space != space || e.placements[j].1.index
                != idx,
    ensures
        i == e.placements.len() ==> e.numbered(space, idx, from) is None,
        i < e.placements.len() && e.placements[i].1.space == space && e.placements[i].1.index == idx
            ==> e.numbered(space, idx, from) == Some(e.placements[i].0),
    decreases i - from,
{
    if from < i {
        assert(e.placements[from].1.space != space || e.placements[from].1.index != idx);
        lemma_numbered_from(e, space, idx, from + 1, i);
    }
}

/// The windows of a space's active workspace are exactly those whose slot is there.
pub proof fn law_active_windows_are_those_placed_there(
    e: EngineModel,
    space: SpaceId,
    wid: WindowId,
)
    requires
        e.wf(),
    ensures
        e.active_windows(space, e.placements.len() as int).contains(wid) <==> (e.slot(
            wid,
        ) matches Some(p) && p.space == space && e.active.dom().contains(space)
            && e.active[space] == p.workspace),
{
    let count = e.placements.len() as int;
    if e.active_windows(space, count).contains(wid) {
        lemma_active_window_entry(e, space, count, wid);
        let i = choose|i: int|
            0 <= i < count && #[trigger] e.placements[i].0 == wid && e.placements[i].1.space
                == space && e.active_workspace_of(space) == Some(e.placements[i].1.workspace);
        lemma_entry(e.placements, i);
    }
    if let Some(p) = e.slot(wid) {
        let i = lemma_key(e.placements, wid);
        if p.space == space && e.active.dom().contains(space) && e.active[space] == p.workspace {
            lemma_entry_is_active(e, space, count, i);
        }
    }
}

proof fn lemma_active_window_entry(e: EngineModel, space: SpaceId, count: int, wid: WindowId)
    requires
        0 <= count <= e.placements.len(),
        e.active_windows(space, count).contains(wid),
    ensures
        exists|i: int|
            0 <= i < count && #[trigger] e.placements[i].0 == wid && e.placements[i].1.space
                == space && e.active_workspace_of(space) == Some(e.placements[i].1.workspace),
    decreases count,
{
    let now = e.active_windows(space, count);
    let k = choose|k: int| 0 <= k < now.len() && now[k] == wid;
    if count > 0 {
        let before = e.active_windows(space, count - 1);
        if k < before.len() {
            assert(before[k] == wid);
            lemma_active_window_entry(e, space, count - 1, wid);
        } else {
            assert(e.placements[count - 1].0 == wid);
        }
    }
}

proof fn lemma_entry_is_active(e: EngineModel, space: SpaceId, count: int, i: int)
    requires
        0 <= i < count <= e.placements.len(),
        e.placements[i].1.space == space,
        e.active_workspace_of(space) == Some(e.placements[i].1.workspace),
    ensures
        e.active_windows(space, count).contains(e.placements[i].0),
    decreases count,
{
    let now = e.active_windows(space, count);
    let before = e.active_windows(space, count - 1);
    if i < count - 1 {
        lemma_entry_is_active(e, space, count - 1, i);
        let k = choose|k: int| 0 <= k < before.len() && before[k] == e.placements[i].0;
        assert(now[k] == before[k]);
    } else {
        assert(now[before.len() as int] == e.placements[i].0);
    }
}

/// The windows of a space's active workspace come in the order of their entries,
/// each once.
pub proof fn law_active_windows_keep_the_order_of_entries(
    e: EngineModel,
    space: SpaceId,
    a: int,
    b: int,
)
    requires
        0 <= a < b < e.active_windows(space, e.placements.len() as int).len(),
    ensures
        exists|i: int, j: int|
            0 <= i < j < e.placements.len() && #[trigger] e.placements[i].0 == e.active_windows(
                space,
                e.placements.len() as int,
            )[a] && #[trigger] e.placements[j].0 == e.active_windows(
                space,
                e.placements.len() as int,
            )[b],
{
    lemma_active_order(e, space, e.placements.len() as int, a, b);
}

proof fn lemma_active_order(e: EngineModel, space: SpaceId, count: int, a: int, b: int)
    requires
        0 <= count <= e.placements.len(),
        0 <= a < b < e.active_windows(space, count).len(),
    ensures
        exists|i: int, j: int|
            0 <= i < j < count && #[trigger] e.placements[i].0 == e.active_windows(space, count)[a]
                && #[trigger] e.placements[j].0 == e.active_windows(space, count)[b],
    decreases count,
{
    let before = e.active_windows(space, count - 1);
    let now = e.active_windows(space, count);
    if b < before.len() {
        lemma_active_order(e, space, count - 1, a, b);
        assert(now[a] == before[a] && now[b] == before[b]);
        let (i, j) = choose|i: int, j: int|
            0 <= i < j < count - 1 && #[trigger] e.placements[i].0 == before[a]
                && #[trigger] e.placements[j].0 == before[b];
        assert(e.placements[i].0 == now[a] && e.placements[j].0 == now[b]);
    } else {
        assert(now[a] == before[a]);
        assert(before.contains(before[a]));
        lemma_active_window_entry(e, space, count - 1, before[a]);
        let i = choose|i: int|
            0 <= i < count - 1 && #[trigger] e.placements[i].0 == before[a]
                && e.placements[i].1.space == space && e.active_workspace_of(space) == Some(
                e.placements[i].1.workspace,
            );
        assert(e.placements[i].0 == now[a] && e.placements[count - 1].0 == now[b]);
    }
}

/// A rewrite puts the new id in the very place of the old one: every other entry
/// stays where and as it is, and so does everything that is not about the two ids.
pub proof fn law_rewrite_keeps_the_place(
    e: EngineModel,
    from: WindowId,
    to: WindowId,
    i: int,
    ws: VirtualWorkspaceId,
)
    requires
        e.wf(),
        from != to,
        e.slot(to) is None,
        0 <= i < e.placements.len(),
        e.placements[i].0 == from,
    ensures
        engine_rewritten(e, from, to).placements == e.placements.update(
            i,
            (to, e.placements[i].1),
        ),
        engine_rewritten(e, from, to).floating.contains(to) <==> e.floating.contains(from)
            || e.floating.contains(to),
        e.last_focused.dom().contains(ws) && e.last_focused[ws] != from ==> engine_rewritten(
            e,
            from,
            to,
        ).last_focused_in(ws) == Some(e.last_focused[ws]),
        !e.last_focused.dom().contains(ws) ==> engine_rewritten(e, from, to).last_focused_in(
            ws,
        ) is None,
        engine_rewritten(e, from, to).active == e.active,
        engine_rewritten(e, from, to).displays == e.displays,
{
    assert(holds_key(e.placements, from, i));
    let at = index_of_key(e.placements, from);
    assert(holds_key(e.placements, from, at));
    assert(at == i);
    lemma_rekeyed(e.placements, from, to);
}

/// Pruning takes out the one entry of the window and what is recorded of it, and
/// leaves all else as it is.
pub proof fn law_prune_takes_out_one_entry(
    e: EngineModel,
    wid: WindowId,
    i: int,
    ws: VirtualWorkspaceId,
)
    requires
        e.wf(),
        0 <= i < e.placements.len(),
        e.placements[i].0 == wid,
    ensures
        engine_pruned(e, wid).placements == e.placements.remove(i),
        engine_pruned(e, wid).active == e.active,
        engine_pruned(e, wid).displays == e.displays,
        engine_pruned(e, wid).last_focused.dom().contains(ws) <==> e.last_focused.dom().contains(ws)
            && e.last_focused[ws] != wid,
{
    assert(holds_key(e.placements, wid, i));
    let at = index_of_key(e.placements, wid);
    assert(holds_key(e.placements, wid, at));
    assert(at == i);
}

/// A remap moves each entry of the old space to the new one where it stands, under
/// its number and in its workspace; floating marks and focus stay.
pub proof fn law_remap_moves_each_entry(
    e: EngineModel,
    from: SpaceId,
    to: SpaceId,
    i: int,
    other: SpaceId,
)
    requires
        from != to,
        0 <= i < e.placements.len(),
        other != from,
        other != to,
    ensures
        engine_remapped(e, from, to).placements.len() == e.placements.len(),
        engine_remapped(e, from, to).placements[i].0 == e.placements[i].0,
        engine_remapped(e, from, to).placements[i].1.workspace == e.placements[i].1.workspace,
        engine_remapped(e, from, to).placements[i].1.index == e.placements[i].1.index,
        e.placements[i].1.space == from ==> engine_remapped(e, from, to).placements[i].1.space
            == to,
        e.placements[i].1.space != from ==> engine_remapped(e, from, to).placements[i].1.space
            == e.placements[i].1.space,
        engine_remapped(e, from, to).floating == e.floating,
        engine_remapped(e, from, to).last_focused == e.last_focused,
        engine_remapped(e, from, to).active_workspace_of(other) == e.active_workspace_of(other),
        !e.active.dom().contains(from) ==> engine_remapped(e, from, to).active == e.active,
{
}

/// A remap takes along which display a space was seen on.
pub proof fn law_remap_moves_the_display(e: EngineModel, from: SpaceId, to: SpaceId, i: int)
    requires
        e.wf(),
        from != to,
        0 <= i < e.displays.len(),
        e.displays[i].0 == from,
        forall|j: int| 0 <= j < e.displays.len() ==> (#[trigger] e.displays[j]).0 != to,
    ensures
        engine_remapped(e, from, to).displays == e.displays.update(i, (to, e.displays[i].1)),
{
    assert(holds_key(e.displays, from, i));
    let at = index_of_key(e.displays, from);
    assert(holds_key(e.displays, from, at));
    assert(at == i);
    if has_key(e.displays, to) {
        let j = index_of_key(e.displays, to);
        assert(holds_key(e.displays, to, j));
        assert(e.displays[j].0 == to);
    }
}

/// A space that a remap moves onto is recorded on the display of the space moved; that
/// space is on record no longer, and every other is as before.
pub proof fn law_display_on_record_after_a_remap(
    e: EngineModel,
    from: SpaceId,
    to: SpaceId,
    i: int,
    other: SpaceId,
)
    requires
        e.wf(),
        from != to,
        0 <= i < e.displays.len(),
        e.displays[i].0 == from,
        other != from,
        other != to,
    ensures
        ({
            let after = entries_map(engine_remapped(e, from, to).displays);
            let before = entries_map(e.displays);
            &&& after.dom().contains(to) && after[to] == e.displays[i].1
            &&& !after.dom().contains(from)
            &&& after.dom().contains(other) == before.dom().contains(other)
            &&& before.dom().contains(other) ==> after[other] == before[other]
        }),
{
    assert(holds_key(e.displays, from, i));
    lemma_entry(e.displays, i);
    lemma_rekeyed(e.displays, from, to);
}

} // verus!
