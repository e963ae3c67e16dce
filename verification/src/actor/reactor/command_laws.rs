//! What each command comes to, over the desktop's own fields.

use vstd::prelude::*;

use crate::actor::reactor::command::{
    after_command, after_config_updated, after_ffm_update, after_landing_check,
    after_mission_control, after_move_to_display, after_reassert, centred_on, debug_effects,
    floating_positions, focus_target, moved_window, numbered_on_any, open_display,
    ordered_by_position, place_among, planned_move, save_exit_status, shown_with_middles,
    visible_spaces, with_cursor_saved, with_positions_stored, DisplayMove,
};
use crate::actor::reactor::persistence::PersistenceModel;
use crate::actor::reactor::{
    Command, Config, Direction, DisplaySelector, Effect, EffectModel, LayoutCommand, LayoutEvent,
    MetricsCommand, PendingWarp, ReactorCommand, ReactorModel, ResponseOf, ScreenInfo,
    SpaceActivationConfig, WmCmd, WorkspaceKey, WorkspaceSwitchOrigin, WorldModel,
};
use crate::ids::{SpaceId, WindowId, WindowServerId};
use crate::layout_engine::laws::{
    law_active_windows_are_those_placed_there, law_active_windows_keep_the_order_of_entries,
};
use crate::sys::geometry::{CGPoint, CGRect};

verus! {

// ---------------------------------------------------------------------------
// Layout commands
// ---------------------------------------------------------------------------

/// The effects that `after` has beyond those of `m`, without the last `tail`.
pub open spec fn added(m: ReactorModel, after: ReactorModel, tail: int) -> Seq<EffectModel> {
    after.outbox.subrange(m.outbox.len() as int, after.outbox.len() - tail)
}

proof fn lemma_positions(
    m: ReactorModel,
    space: SpaceId,
    windows: Seq<WindowId>,
    count: int,
    wid: WindowId,
)
    requires
        0 <= count <= windows.len(),
    ensures
        (exists|k: int| 0 <= k < count && #[trigger] windows[k] == wid)
            && m.world.windows.dom().contains(wid) && m.engine.floating.contains(wid)
            ==> floating_positions(m, space, windows, count).contains(
            Effect::StoreFloatingPosition {
                space,
                window: wid,
                frame: m.world.windows[wid].frame_monotonic,
            },
        ),
        forall|a: int|
            0 <= a < floating_positions(m, space, windows, count).len() ==> exists|k: int|
                0 <= k < count && m.world.windows.dom().contains(#[trigger] windows[k])
                    && m.engine.floating.contains(windows[k]) && (
                #[trigger] floating_positions(m, space, windows, count)[a])
                    == (EffectModel::StoreFloatingPosition {
                    space,
                    window: windows[k],
                    frame: m.world.windows[windows[k]].frame_monotonic,
                }),
    decreases count,
{
    if count > 0 {
        lemma_positions(m, space, windows, count - 1, wid);
        let before = floating_positions(m, space, windows, count - 1);
        let now = floating_positions(m, space, windows, count);
        let last = windows[count - 1];
        if exists|k: int| 0 <= k < count && #[trigger] windows[k] == wid {
            let k = choose|k: int| 0 <= k < count && #[trigger] windows[k] == wid;
            if m.world.windows.dom().contains(wid) && m.engine.floating.contains(wid) {
                let e: EffectModel = Effect::StoreFloatingPosition {
                    space,
                    window: wid,
                    frame: m.world.windows[wid].frame_monotonic,
                };
                if k < count - 1 {
                    assert(windows[k] == wid);
                    let a = choose|a: int| 0 <= a < before.len() && before[a] == e;
                    assert(now[a] == e);
                } else {
                    assert(now[before.len() as int] == e);
                }
            }
        }
        assert forall|a: int| 0 <= a < now.len() implies exists|k: int|
            0 <= k < count && m.world.windows.dom().contains(#[trigger] windows[k])
                && m.engine.floating.contains(windows[k]) && (#[trigger] now[a])
                == (EffectModel::StoreFloatingPosition {
                space,
                window: windows[k],
                frame: m.world.windows[windows[k]].frame_monotonic,
            }) by {
            if a < before.len() {
                assert(now[a] == before[a]);
            } else {
                assert(windows[count - 1] == last);
            }
        }
    }
}

/// The floating positions stored for a space are those of the known floating windows
/// of its active workspace, each with its frame, and no others.
proof fn lemma_stored_positions(m: ReactorModel, space: SpaceId, wid: WindowId)
    requires
        m.engine.wf(),
    ensures
        ({
            let windows = m.engine.active_windows(space, m.engine.placements.len() as int);
            let stored = floating_positions(m, space, windows, windows.len() as int);
            &&& (m.engine.slot(wid) matches Some(p) && p.space == space
                && m.engine.active.dom().contains(space) && m.engine.active[space] == p.workspace
                && m.world.windows.dom().contains(wid) && m.engine.floating.contains(wid))
                ==> stored.contains(
                Effect::StoreFloatingPosition {
                    space,
                    window: wid,
                    frame: m.world.windows[wid].frame_monotonic,
                },
            )
            &&& forall|a: int|
                0 <= a < stored.len() ==> ((#[trigger] stored[a]) matches EffectModel::StoreFloatingPosition {
                    space: on,
                    window,
                    frame,
                } && on == space && m.engine.floating.contains(window)
                    && m.world.windows.dom().contains(window)
                    && m.world.windows[window].frame_monotonic == frame && (m.engine.slot(
                    window,
                ) matches Some(p) && p.space == space && m.engine.active.dom().contains(space)
                    && m.engine.active[space] == p.workspace))
        }),
{
    let windows = m.engine.active_windows(space, m.engine.placements.len() as int);
    let stored = floating_positions(m, space, windows, windows.len() as int);
    lemma_positions(m, space, windows, windows.len() as int, wid);
    law_active_windows_are_those_placed_there(m.engine, space, wid);
    if windows.contains(wid) {
        let k = choose|k: int| 0 <= k < windows.len() && windows[k] == wid;
        assert(windows[k] == wid);
    }
    assert forall|a: int| 0 <= a < stored.len() implies (
    (#[trigger] stored[a]) matches EffectModel::StoreFloatingPosition { space: on, window, frame }
        && on == space && m.engine.floating.contains(window) && m.world.windows.dom().contains(
        window,
    ) && m.world.windows[window].frame_monotonic == frame && (m.engine.slot(window) matches Some(p)
        && p.space == space && m.engine.active.dom().contains(space) && m.engine.active[space]
        == p.workspace)) by {
        let k = choose|k: int|
            0 <= k < windows.len() && m.world.windows.dom().contains(#[trigger] windows[k])
                && m.engine.floating.contains(windows[k]) && stored[a]
                == (EffectModel::StoreFloatingPosition {
                space,
                window: windows[k],
                frame: m.world.windows[windows[k]].frame_monotonic,
            });
        assert(windows.contains(windows[k]));
        law_active_windows_are_those_placed_there(m.engine, space, windows[k]);
    }
}

/// Storing the floating positions of any space adds one effect for each known floating
/// window of its active workspace, with its frame, and nothing else.
pub proof fn law_positions_stored_for_a_space(m: ReactorModel, space: SpaceId, wid: WindowId)
    requires
        m.engine.wf(),
    ensures
        ({
            let after = with_positions_stored(m, space);
            let there = m.engine.slot(wid) matches Some(p) && p.space == space
                && m.engine.active.dom().contains(space) && m.engine.active[space] == p.workspace;
            &&& after == (ReactorModel { outbox: after.outbox, ..m })
            &&& after.outbox.len() >= m.outbox.len()
            &&& after.outbox.subrange(0, m.outbox.len() as int) == m.outbox
            &&& there && m.world.windows.dom().contains(wid) && m.engine.floating.contains(wid)
                ==> added(m, after, 0).contains(
                Effect::StoreFloatingPosition {
                    space,
                    window: wid,
                    frame: m.world.windows[wid].frame_monotonic,
                },
            )
            &&& forall|a: int|
                0 <= a < added(m, after, 0).len() ==> ((#[trigger] added(
                    m,
                    after,
                    0,
                )[a]) matches EffectModel::StoreFloatingPosition { space: on, window, frame } && on
                    == space && m.engine.floating.contains(window)
                    && m.world.windows.dom().contains(window)
                    && m.world.windows[window].frame_monotonic == frame)
        }),
{
    lemma_stored_positions(m, space, wid);
    let windows = m.engine.active_windows(space, m.engine.placements.len() as int);
    let stored = floating_positions(m, space, windows, windows.len() as int);
    let after = with_positions_stored(m, space);
    assert(added(m, after, 0) =~= stored);
    assert(after.outbox.subrange(0, m.outbox.len() as int) =~= m.outbox);
}

/// The cursor is saved for the active workspace of the space, where there is one and
/// the cursor is known; cursors of other workspaces stay.
pub proof fn law_cursor_saved_for_a_space(m: ReactorModel, space: SpaceId, other: WorkspaceKey)
    ensures
        ({
            let after = with_cursor_saved(m, space);
            &&& after == (ReactorModel { cursors: after.cursors, ..m })
            &&& m.world.cursor is None || !m.engine.active.dom().contains(space) ==> after == m
            &&& m.world.cursor matches Some(point) ==> m.engine.active.dom().contains(space) ==> {
                let key = WorkspaceKey { space, workspace: m.engine.active[space] };
                &&& after.cursors.dom().contains(key) && after.cursors[key] == point
                &&& other != key ==> after.cursors.dom().contains(other)
                    == m.cursors.dom().contains(other) && after.cursors[other] == m.cursors[other]
            }
        }),
{
}

/// Going to the next, the previous, a numbered or the last workspace is a manual
/// switch. With a command space, the cursor is remembered for the workspace left;
/// the engine gets the command on that space; the response is handled as that of a
/// workspace command there; and the layout mode is updated last.
pub proof fn law_workspace_switch(m: ReactorModel, command: LayoutCommand, space: SpaceId)
    requires
        command is NextWorkspace || command is PrevWorkspace || command is SwitchToWorkspace
            || command is SwitchToLastWorkspace,
        m.command_target() == Some(space),
    ensures
        ({
            let after = after_command(m, Command::Layout(command));
            let n = after.outbox.len() as int;
            &&& after.workspace_switch == Some(WorkspaceSwitchOrigin::Manual)
            &&& m.world.cursor matches Some(point) ==> m.engine.active.dom().contains(space)
                ==> after.cursors == m.cursors.insert(
                WorkspaceKey { space, workspace: m.engine.active[space] },
                point,
            )
            &&& m.world.cursor is None || !m.engine.active.dom().contains(space) ==> after.cursors
                == m.cursors
            &&& n >= m.outbox.len() + 3
            &&& after.outbox.subrange(0, m.outbox.len() as int) == m.outbox
            &&& after.outbox[n - 3] == (EffectModel::WorkspaceCommand { space, command })
            &&& after.outbox[n - 2] == (EffectModel::HandleLayoutResponse {
                response: ResponseOf::EngineCall,
                workspace_space: Some(space),
            })
            &&& after.outbox[n - 1] == EffectModel::UpdateEventTapLayoutMode
        }),
{
    let after = after_command(m, Command::Layout(command));
    assert(after.outbox.subrange(0, m.outbox.len() as int) =~= m.outbox);
}

/// Before the engine call of a switch, of a change of a workspace's layout or of a
/// new workspace, the frame of each known floating window of the active workspace
/// of the command space is stored.
pub proof fn law_floating_positions_are_stored(
    m: ReactorModel,
    command: LayoutCommand,
    space: SpaceId,
    wid: WindowId,
    p: crate::layout_engine::engine::Placement,
)
    requires
        m.engine.wf(),
        command is NextWorkspace || command is PrevWorkspace || command is SwitchToWorkspace
            || command is SwitchToLastWorkspace || command is SetWorkspaceLayout
            || command is CreateWorkspace,
        m.command_target() == Some(space),
        m.engine.slot(wid) == Some(p),
        p.space == space,
        m.engine.active.dom().contains(space),
        m.engine.active[space] == p.workspace,
        m.world.windows.dom().contains(wid),
        m.engine.floating.contains(wid),
    ensures
        added(m, after_command(m, Command::Layout(command)), 3).contains(
            Effect::StoreFloatingPosition {
                space,
                window: wid,
                frame: m.world.windows[wid].frame_monotonic,
            },
        ),
{
    lemma_stored_positions(m, space, wid);
    let windows = m.engine.active_windows(space, m.engine.placements.len() as int);
    let stored = floating_positions(m, space, windows, windows.len() as int);
    assert(added(m, after_command(m, Command::Layout(command)), 3) =~= stored);
}

/// Nothing else is stored: what comes before the engine call are frames of known
/// floating windows of the active workspace of the command space.
pub proof fn law_only_floating_positions_are_stored(
    m: ReactorModel,
    command: LayoutCommand,
    space: SpaceId,
    a: int,
)
    requires
        m.engine.wf(),
        command is NextWorkspace || command is PrevWorkspace || command is SwitchToWorkspace
            || command is SwitchToLastWorkspace || command is SetWorkspaceLayout
            || command is CreateWorkspace,
        m.command_target() == Some(space),
        0 <= a < added(m, after_command(m, Command::Layout(command)), 3).len(),
    ensures
        added(m, after_command(
            m,
            Command::Layout(command),
        ), 3)[a] matches EffectModel::StoreFloatingPosition { space: on, window, frame } && on
            == space && m.engine.floating.contains(window) && m.world.windows.dom().contains(window)
            && m.world.windows[window].frame_monotonic == frame && (m.engine.slot(
            window,
        ) matches Some(p) && p.space == space && m.engine.active.dom().contains(space)
            && m.engine.active[space] == p.workspace),
{
    lemma_stored_positions(m, space, WindowId { pid: 0, idx: 0 });
    let windows = m.engine.active_windows(space, m.engine.placements.len() as int);
    let stored = floating_positions(m, space, windows, windows.len() as int);
    assert(added(m, after_command(m, Command::Layout(command)), 3) =~= stored);
}

/// Each window's position is stored once, in the order of the windows' entries.
pub proof fn law_positions_are_stored_in_order(
    m: ReactorModel,
    command: LayoutCommand,
    space: SpaceId,
    a: int,
    b: int,
)
    requires
        m.engine.wf(),
        command is NextWorkspace || command is PrevWorkspace || command is SwitchToWorkspace
            || command is SwitchToLastWorkspace || command is SetWorkspaceLayout
            || command is CreateWorkspace,
        m.command_target() == Some(space),
        0 <= a < b < added(m, after_command(m, Command::Layout(command)), 3).len(),
    ensures
        exists|i: int, j: int|
            0 <= i < j < m.engine.placements.len() && added(
                m,
                after_command(m, Command::Layout(command)),
                3,
            )[a]->StoreFloatingPosition_window == (#[trigger] m.engine.placements[i]).0 && added(
                m,
                after_command(m, Command::Layout(command)),
                3,
            )[b]->StoreFloatingPosition_window == (#[trigger] m.engine.placements[j]).0,
{
    let windows = m.engine.active_windows(space, m.engine.placements.len() as int);
    let stored = floating_positions(m, space, windows, windows.len() as int);
    assert(added(m, after_command(m, Command::Layout(command)), 3) =~= stored);
    lemma_positions_order(m, space, windows, windows.len() as int, a, b);
    let (i, j) = choose|i: int, j: int|
        0 <= i < j < windows.len() && stored[a]->StoreFloatingPosition_window
            == #[trigger] windows[i] && stored[b]->StoreFloatingPosition_window
            == #[trigger] windows[j];
    law_active_windows_keep_the_order_of_entries(m.engine, space, i, j);
}

proof fn lemma_positions_order(
    m: ReactorModel,
    space: SpaceId,
    windows: Seq<WindowId>,
    count: int,
    a: int,
    b: int,
)
    requires
        0 <= count <= windows.len(),
        0 <= a < b < floating_positions(m, space, windows, count).len(),
    ensures
        exists|i: int, j: int|
            0 <= i < j < count && floating_positions(
                m,
                space,
                windows,
                count,
            )[a]->StoreFloatingPosition_window == #[trigger] windows[i] && floating_positions(
                m,
                space,
                windows,
                count,
            )[b]->StoreFloatingPosition_window == #[trigger] windows[j],
    decreases count,
{
    let before = floating_positions(m, space, windows, count - 1);
    let now = floating_positions(m, space, windows, count);
    if b < before.len() {
        lemma_positions_order(m, space, windows, count - 1, a, b);
        assert(now[a] == before[a] && now[b] == before[b]);
    } else {
        lemma_positions(m, space, windows, count - 1, WindowId { pid: 0, idx: 0 });
        assert(now[a] == before[a]);
        let i = choose|k: int|
            0 <= k < count - 1 && m.world.windows.dom().contains(#[trigger] windows[k])
                && m.engine.floating.contains(windows[k]) && before[a]
                == (EffectModel::StoreFloatingPosition {
                space,
                window: windows[k],
                frame: m.world.windows[windows[k]].frame_monotonic,
            });
        assert(now[a]->StoreFloatingPosition_window == windows[i]);
        assert(now[b]->StoreFloatingPosition_window == windows[count - 1]);
    }
}

/// Changing the layout of a workspace, or making a new one, is no switch: no cursor
/// is remembered. Otherwise it goes the way of a workspace command.
pub proof fn law_workspace_command_that_is_no_switch(
    m: ReactorModel,
    command: LayoutCommand,
    space: SpaceId,
)
    requires
        command is SetWorkspaceLayout || command is CreateWorkspace,
        m.command_target() == Some(space),
    ensures
        ({
            let after = after_command(m, Command::Layout(command));
            let n = after.outbox.len() as int;
            &&& after.workspace_switch is None
            &&& after.cursors == m.cursors
            &&& n >= m.outbox.len() + 3
            &&& after.outbox.subrange(0, m.outbox.len() as int) == m.outbox
            &&& after.outbox[n - 3] == (EffectModel::WorkspaceCommand { space, command })
            &&& after.outbox[n - 2] == (EffectModel::HandleLayoutResponse {
                response: ResponseOf::EngineCall,
                workspace_space: Some(space),
            })
            &&& after.outbox[n - 1] == EffectModel::UpdateEventTapLayoutMode
        }),
{
    let after = after_command(m, Command::Layout(command));
    assert(after.outbox.subrange(0, m.outbox.len() as int) =~= m.outbox);
}

/// Without a command space a workspace command reaches no engine and remembers
/// nothing; a switch is still marked as one.
pub proof fn law_workspace_command_without_a_space(m: ReactorModel, command: LayoutCommand)
    requires
        command is NextWorkspace || command is PrevWorkspace || command is SwitchToWorkspace
            || command is SwitchToLastWorkspace || command is SetWorkspaceLayout
            || command is CreateWorkspace,
        m.command_target() is None,
    ensures
        ({
            let after = after_command(m, Command::Layout(command));
            let switch = !(command is SetWorkspaceLayout || command is CreateWorkspace);
            &&& switch ==> after.workspace_switch == Some(WorkspaceSwitchOrigin::Manual)
            &&& !switch ==> after.workspace_switch is None
            &&& after.cursors == m.cursors
            &&& after.outbox == m.outbox + seq![
                Effect::HandleLayoutResponse {
                    response: ResponseOf::Nothing,
                    workspace_space: None,
                },
                Effect::UpdateEventTapLayoutMode,
            ]
        }),
{
    assert(after_command(m, Command::Layout(command)).outbox =~= m.outbox + seq![
        Effect::HandleLayoutResponse { response: ResponseOf::Nothing, workspace_space: None },
        Effect::UpdateEventTapLayoutMode,
    ]);
}

/// A window goes to another workspace on the known space that has a window of the
/// number given, else on the command space; without either no engine is called. It
/// is no switch, stores nothing and leaves the layout mode alone.
pub proof fn law_window_to_workspace(m: ReactorModel, workspace: usize, window_id: Option<u32>)
    ensures
        ({
            let command = LayoutCommand::MoveWindowToWorkspace { workspace, window_id };
            let after = after_command(m, Command::Layout(command));
            let numbered = match window_id {
                Some(idx) => m.assigned_space_of_number(idx),
                None => None,
            };
            let answer = |response: ResponseOf| -> EffectModel
                { Effect::HandleLayoutResponse { response, workspace_space: None } };
            &&& after.workspace_switch is None
            &&& after.cursors == m.cursors
            &&& numbered matches Some(space) ==> after.outbox == m.outbox + seq![
                Effect::WorkspaceCommand { space, command },
                answer(ResponseOf::EngineCall),
            ]
            &&& numbered is None ==> (m.command_target() matches Some(space) ==> after.outbox
                == m.outbox + seq![
                Effect::WorkspaceCommand { space, command },
                answer(ResponseOf::EngineCall),
            ])
            &&& numbered is None && m.command_target() is None ==> after.outbox == m.outbox + seq![
                answer(ResponseOf::Nothing),
            ]
        }),
{
    let command = LayoutCommand::MoveWindowToWorkspace { workspace, window_id };
    let after = after_command(m, Command::Layout(command));
    let numbered = match window_id {
        Some(idx) => m.assigned_space_of_number(idx),
        None => None,
    };
    let space = if numbered is Some {
        numbered
    } else {
        m.command_target()
    };
    if let Some(space) = space {
        assert(after.outbox =~= m.outbox + seq![
            Effect::WorkspaceCommand { space, command },
            Effect::HandleLayoutResponse {
                response: ResponseOf::EngineCall,
                workspace_space: None,
            },
        ]);
    } else {
        assert(after.outbox =~= m.outbox + seq![
            Effect::HandleLayoutResponse { response: ResponseOf::Nothing, workspace_space: None },
        ]);
    }
}

/// Any other layout command goes to the engine with the command space, if any, and
/// the visible managed spaces; where no managed space is visible it goes nowhere.
pub proof fn law_other_layout_commands(m: ReactorModel, id: u64)
    ensures
        ({
            let command = LayoutCommand::Other(id);
            let after = after_command(m, Command::Layout(command));
            let visible = visible_spaces(m, false);
            &&& after.workspace_switch is None
            &&& after.cursors == m.cursors
            &&& visible.len() == 0 ==> after.outbox == m.outbox
            &&& visible.len() > 0 ==> after.outbox == m.outbox + seq![
                Effect::LayoutCommand { command_space: m.command_target(), visible, command },
                Effect::HandleLayoutResponse {
                    response: ResponseOf::EngineCall,
                    workspace_space: None,
                },
            ]
        }),
{
    let command = LayoutCommand::Other(id);
    let after = after_command(m, Command::Layout(command));
    let visible = visible_spaces(m, false);
    if visible.len() > 0 {
        assert(after.outbox =~= m.outbox + seq![
            Effect::LayoutCommand { command_space: m.command_target(), visible, command },
            Effect::HandleLayoutResponse {
                response: ResponseOf::EngineCall,
                workspace_space: None,
            },
        ]);
    }
}

/// A layout command itself changes only the outbox, the remembered cursors and the
/// mark of a switch under way.
pub proof fn law_layout_commands_leave_the_rest(m: ReactorModel, command: LayoutCommand)
    ensures
        ({
            let after = after_command(m, Command::Layout(command));
            after == (ReactorModel {
                outbox: after.outbox,
                cursors: after.cursors,
                workspace_switch: after.workspace_switch,
                ..m
            })
        }),
{
}

/// A space is visible exactly where a screen shows it and, unless inactive ones are
/// asked for too, it is managed; it comes with the middle of that screen.
pub proof fn law_visible_spaces_are_those_on_screens(
    m: ReactorModel,
    include_inactive: bool,
    space: SpaceId,
    at: CGPoint,
)
    ensures
        visible_spaces(m, include_inactive).contains((space, at)) <==> (include_inactive
            || m.world.active_spaces.contains(space)) && exists|i: int|
            0 <= i < m.world.screens.len() && (#[trigger] m.world.screens[i]).space == Some(space)
                && m.world.screens[i].frame.middle() == at,
{
    let shown = shown_with_middles(m, include_inactive, m.world.screens.len() as int);
    lemma_shown(m, include_inactive, m.world.screens.len() as int, space, at);
    crate::actor::reactor::command::law_spaces_are_ordered_by_position(shown);
    let ordered = ordered_by_position(shown);
    vstd::seq_lib::to_multiset_contains(shown, (space, at));
    vstd::seq_lib::to_multiset_contains(ordered, (space, at));
}

proof fn lemma_shown(
    m: ReactorModel,
    include_inactive: bool,
    count: int,
    space: SpaceId,
    at: CGPoint,
)
    requires
        0 <= count <= m.world.screens.len(),
    ensures
        shown_with_middles(m, include_inactive, count).contains((space, at)) <==> (include_inactive
            || m.world.active_spaces.contains(space)) && exists|i: int|
            0 <= i < count && (#[trigger] m.world.screens[i]).space == Some(space)
                && m.world.screens[i].frame.middle() == at,
    decreases count,
{
    if count > 0 {
        lemma_shown(m, include_inactive, count - 1, space, at);
        let before = shown_with_middles(m, include_inactive, count - 1);
        let now = shown_with_middles(m, include_inactive, count);
        let last = m.world.screens[count - 1];
        if before.contains((space, at)) {
            let k = choose|k: int| 0 <= k < before.len() && before[k] == (space, at);
            assert(now[k] == before[k]);
        }
        if now.contains((space, at)) {
            let k = choose|k: int| 0 <= k < now.len() && now[k] == (space, at);
            if k < before.len() {
                assert(before[k] == (space, at));
            } else {
                assert(m.world.screens[count - 1].space == Some(space));
            }
        }
        if last.space == Some(space) && last.frame.middle() == at && (include_inactive
            || m.world.active_spaces.contains(space)) {
            assert(now[before.len() as int] == (space, at));
        }
    }
}

/// Visible spaces come from left to right by the middles of their screens, and from
/// top to bottom where those are equally far left.
pub proof fn law_visible_spaces_come_from_the_left(
    m: ReactorModel,
    include_inactive: bool,
    i: int,
    j: int,
)
    requires
        0 <= i < j < visible_spaces(m, include_inactive).len(),
    ensures
        ({
            let a = visible_spaces(m, include_inactive)[i].1;
            let b = visible_spaces(m, include_inactive)[j].1;
            a.x < b.x || (a.x == b.x && a.y <= b.y)
        }),
{
    crate::actor::reactor::command::law_spaces_are_ordered_by_position(
        shown_with_middles(m, include_inactive, m.world.screens.len() as int),
    );
}

/// Ordering keeps the order of spaces at one place: a list whose places are all the
/// same, or in order already, comes back as it is.
pub proof fn law_ordering_keeps_what_is_in_order(spaces: Seq<(SpaceId, CGPoint)>)
    requires
        forall|i: int, j: int|
            0 <= i < j < spaces.len() ==> (#[trigger] spaces[i]).1.x < (#[trigger] spaces[j]).1.x || (
            spaces[i].1.x == spaces[j].1.x && spaces[i].1.y <= spaces[j].1.y),
    ensures
        ordered_by_position(spaces) == spaces,
    decreases spaces.len(),
{
    if spaces.len() > 0 {
        let fewer = spaces.drop_last();
        law_ordering_keeps_what_is_in_order(fewer);
        let last = spaces.last();
        assert forall|k: int| 0 <= k < fewer.len() implies !crate::actor::reactor::command::point_before(
            last.1,
            (#[trigger] fewer[k]).1,
        ) by {
            assert(fewer[k] == spaces[k]);
            assert(spaces[spaces.len() - 1] == last);
        }
        lemma_place_at_end(fewer, last.1, 0);
        assert(ordered_by_position(spaces) =~= spaces);
    } else {
        assert(ordered_by_position(spaces) =~= spaces);
    }
}

proof fn lemma_place_at_end(ordered: Seq<(SpaceId, CGPoint)>, at: CGPoint, from: int)
    requires
        0 <= from <= ordered.len(),
        forall|k: int|
            0 <= k < ordered.len() ==> !crate::actor::reactor::command::point_before(
                at,
                (#[trigger] ordered[k]).1,
            ),
    ensures
        place_among(ordered, at, from) == ordered.len(),
    decreases ordered.len() - from,
{
    if from < ordered.len() {
        assert(!crate::actor::reactor::command::point_before(at, ordered[from].1));
        lemma_place_at_end(ordered, at, from + 1);
    }
}

// ---------------------------------------------------------------------------
// Simple commands
// ---------------------------------------------------------------------------

/// These commands each come to one effect and change nothing else.
pub proof fn law_commands_with_one_effect(
    m: ReactorModel,
    metrics: MetricsCommand,
    direction: Direction,
)
    ensures
        after_command(m, Command::Metrics(metrics)) == (ReactorModel {
            outbox: m.outbox.push(Effect::Metrics(metrics)),
            ..m
        }),
        after_command(m, Command::Reactor(ReactorCommand::Serialize)) == (ReactorModel {
            outbox: m.outbox.push(Effect::PrintState),
            ..m
        }),
        after_command(m, Command::Reactor(ReactorCommand::SaveAndExit)) == (ReactorModel {
            outbox: m.outbox.push(Effect::SaveLayoutAndExit),
            ..m
        }),
        after_command(m, Command::Reactor(ReactorCommand::SwitchSpace(direction))) == (
        ReactorModel { outbox: m.outbox.push(Effect::SwitchSpace(direction)), ..m }),
{
}

/// Showing the window overview is left to the window manager; where it does not
/// listen, nothing happens.
pub proof fn law_window_overview_is_shown_by_the_window_manager(m: ReactorModel)
    ensures
        m.world.channels.wm ==> after_command(
            m,
            Command::Reactor(ReactorCommand::ShowMissionControlAll),
        ) == (ReactorModel {
            outbox: m.outbox.push(Effect::WmCommand(WmCmd::ShowMissionControlAll)),
            ..m
        }),
        m.world.channels.wm ==> after_command(
            m,
            Command::Reactor(ReactorCommand::ShowMissionControlCurrent),
        ) == (ReactorModel {
            outbox: m.outbox.push(Effect::WmCommand(WmCmd::ShowMissionControlCurrent)),
            ..m
        }),
        m.world.channels.wm ==> after_command(
            m,
            Command::Reactor(ReactorCommand::DismissMissionControl),
        ) == (ReactorModel {
            outbox: m.outbox.push(Effect::WmCommand(WmCmd::DismissMissionControl)),
            ..m
        }),
        !m.world.channels.wm ==> after_command(
            m,
            Command::Reactor(ReactorCommand::ShowMissionControlAll),
        ) == m,
        !m.world.channels.wm ==> after_command(
            m,
            Command::Reactor(ReactorCommand::ShowMissionControlCurrent),
        ) == m,
{
}

/// Dismissing the window overview without the window manager: the overview counts
/// as closed, and where it was open the event tap is told about focus follows mouse.
pub proof fn law_window_overview_is_dismissed(m: ReactorModel)
    requires
        !m.world.channels.wm,
    ensures
        ({
            let after = after_command(m, Command::Reactor(ReactorCommand::DismissMissionControl));
            &&& !after.mission_control_active
            &&& after == (ReactorModel {
                outbox: after.outbox,
                mission_control_active: false,
                ..m
            })
            &&& after.outbox == (if m.mission_control_active && m.world.channels.event_tap {
                m.outbox.push(
                    Effect::SetFocusFollowsMouse(
                        m.config.focus_follows_mouse && !m.world.menu_open,
                    ),
                )
            } else {
                m.outbox
            })
        }),
{
}

/// Focus follows mouse is on only where it is configured, no menu is open and the
/// window overview is closed; a change of the overview says so to the event tap, and
/// no change says nothing.
pub proof fn law_focus_follows_mouse_is_paused(m: ReactorModel)
    ensures
        ({
            let opened = after_mission_control(m, true);
            let closed = after_mission_control(m, false);
            &&& opened.mission_control_active && !closed.mission_control_active
            &&& m.mission_control_active ==> opened == m
            &&& !m.mission_control_active ==> closed == m
            &&& !m.mission_control_active && m.world.channels.event_tap ==> opened.outbox
                == m.outbox.push(Effect::SetFocusFollowsMouse(false))
            &&& m.mission_control_active && m.world.channels.event_tap ==> closed.outbox
                == m.outbox.push(
                Effect::SetFocusFollowsMouse(m.config.focus_follows_mouse && !m.world.menu_open),
            )
            &&& !m.world.channels.event_tap ==> opened.outbox == m.outbox && closed.outbox
                == m.outbox
        }),
        m.world.channels.event_tap ==> after_ffm_update(m) == (ReactorModel {
            outbox: m.outbox.push(
                Effect::SetFocusFollowsMouse(
                    m.config.focus_follows_mouse && !m.world.menu_open
                        && !m.mission_control_active,
                ),
            ),
            ..m
        }),
        !m.world.channels.event_tap ==> after_ffm_update(m) == m,
{
}

/// The window closed is the one with the server id given, where it is known, else
/// the main window.
pub proof fn law_closed_window(m: ReactorModel, window_server_id: Option<WindowServerId>)
    ensures
        ({
            let after = after_command(
                m,
                Command::Reactor(ReactorCommand::CloseWindow { window_server_id }),
            );
            let named = window_server_id is Some && m.world.window_ids.dom().contains(
                window_server_id->0,
            );
            &&& after == (ReactorModel { outbox: after.outbox, ..m })
            &&& named ==> after.outbox == m.outbox.push(
                Effect::CloseWindow(m.world.window_ids[window_server_id->0]),
            )
            &&& !named ==> (m.world.main_window matches Some(wid) ==> after.outbox
                == m.outbox.push(Effect::CloseWindow(wid)))
            &&& !named && m.world.main_window is None ==> after.outbox == m.outbox
        }),
{
}

/// The tree of every space that a screen shows is described, and nothing else.
pub proof fn law_every_shown_space_is_described(m: ReactorModel, space: SpaceId)
    ensures
        ({
            let after = after_command(m, Command::Reactor(ReactorCommand::Debug));
            &&& after == (ReactorModel { outbox: after.outbox, ..m })
            &&& after.outbox.subrange(0, m.outbox.len() as int) == m.outbox
            &&& added(m, after, 0).contains(Effect::DebugTree(space)) <==> exists|i: int|
                0 <= i < m.world.screens.len() && (#[trigger] m.world.screens[i]).space == Some(
                    space,
                )
            &&& forall|a: int| 0 <= a < added(m, after, 0).len() ==> (#[trigger] added(
                m,
                after,
                0,
            )[a]) is DebugTree
        }),
{
    let screens = m.world.screens;
    let trees = debug_effects(screens, screens.len() as int);
    let after = after_command(m, Command::Reactor(ReactorCommand::Debug));
    lemma_debug_effects(screens, screens.len() as int, space);
    assert(added(m, after, 0) =~= trees);
    assert(after.outbox.subrange(0, m.outbox.len() as int) =~= m.outbox);
}

proof fn lemma_debug_effects(screens: Seq<ScreenInfo>, count: int, space: SpaceId)
    requires
        0 <= count <= screens.len(),
    ensures
        debug_effects(screens, count).contains(Effect::DebugTree(space)) <==> exists|i: int|
            0 <= i < count && (#[trigger] screens[i]).space == Some(space),
        forall|a: int|
            0 <= a < debug_effects(screens, count).len() ==> (#[trigger] debug_effects(
                screens,
                count,
            )[a]) is DebugTree,
    decreases count,
{
    if count > 0 {
        lemma_debug_effects(screens, count - 1, space);
        let before = debug_effects(screens, count - 1);
        let now = debug_effects(screens, count);
        let e: EffectModel = Effect::DebugTree(space);
        if before.contains(e) {
            let k = choose|k: int| 0 <= k < before.len() && before[k] == e;
            assert(now[k] == e);
        }
        if now.contains(e) {
            let k = choose|k: int| 0 <= k < now.len() && now[k] == e;
            if k < before.len() {
                assert(before[k] == e);
            } else {
                assert(screens[count - 1].space == Some(space));
            }
        }
        if screens[count - 1].space == Some(space) {
            assert(now[before.len() as int] == e);
        }
    }
}

/// Where every screen shows a space, the trees come in the order of the screens.
pub proof fn law_trees_come_in_the_order_of_screens(m: ReactorModel, i: int)
    requires
        forall|j: int| 0 <= j < m.world.screens.len() ==> (#[trigger] m.world.screens[j]).space is Some,
        0 <= i < m.world.screens.len(),
    ensures
        ({
            let trees = added(m, after_command(m, Command::Reactor(ReactorCommand::Debug)), 0);
            trees.len() == m.world.screens.len() && trees[i] == EffectModel::DebugTree(
                m.world.screens[i].space->0,
            )
        }),
{
    let screens = m.world.screens;
    let after = after_command(m, Command::Reactor(ReactorCommand::Debug));
    assert(added(m, after, 0) =~= debug_effects(screens, screens.len() as int));
    lemma_debug_order(screens, screens.len() as int);
}

proof fn lemma_debug_order(screens: Seq<ScreenInfo>, count: int)
    requires
        0 <= count <= screens.len(),
        forall|j: int| 0 <= j < screens.len() ==> (#[trigger] screens[j]).space is Some,
    ensures
        debug_effects(screens, count).len() == count,
        forall|j: int|
            0 <= j < count ==> (#[trigger] debug_effects(screens, count)[j])
                == EffectModel::DebugTree(screens[j].space->0),
    decreases count,
{
    if count > 0 {
        lemma_debug_order(screens, count - 1);
        assert(screens[count - 1].space is Some);
    }
}

/// The space toggled is that of the screen under the cursor, else the first known;
/// its display and the current policy go along, and the active spaces are computed
/// anew afterwards.
pub proof fn law_toggled_space(m: ReactorModel)
    ensures
        ({
            let after = after_command(m, Command::Reactor(ReactorCommand::ToggleSpaceActivated));
            let asked = |space: SpaceId| -> Seq<EffectModel>
                {
                    seq![
                        Effect::ToggleSpaceActivated {
                            config: SpaceActivationConfig {
                                default_disable: m.config.default_disable,
                                one_space: m.one_space,
                            },
                            space,
                            display_uuid: m.display_of_space(space),
                        },
                        Effect::RecomputeActiveSpaces,
                    ]
                };
            &&& after == (ReactorModel { outbox: after.outbox, ..m })
            &&& m.cursor_space() matches Some(space) ==> after.outbox == m.outbox + asked(space)
            &&& m.cursor_space() is None && m.world.known_spaces.len() > 0 ==> after.outbox
                == m.outbox + asked(m.world.known_spaces[0])
            &&& m.cursor_space() is None && m.world.known_spaces.len() == 0 ==> after.outbox
                == m.outbox
        }),
{
    let after = after_command(m, Command::Reactor(ReactorCommand::ToggleSpaceActivated));
    if m.cursor_space() is Some || m.world.known_spaces.len() > 0 {
        let space = if m.cursor_space() is Some {
            m.cursor_space()->0
        } else {
            m.world.known_spaces[0]
        };
        assert(after.outbox =~= m.outbox + seq![
            Effect::ToggleSpaceActivated {
                config: SpaceActivationConfig {
                    default_disable: m.config.default_disable,
                    one_space: m.one_space,
                },
                space,
                display_uuid: m.display_of_space(space),
            },
            Effect::RecomputeActiveSpaces,
        ]);
    }
}

// ---------------------------------------------------------------------------
// Focus
// ---------------------------------------------------------------------------

/// A known window whose space is managed is focused there and then raised, neither
/// quietly nor with a warp; on a space that is not managed nothing happens.
pub proof fn law_focusing_a_known_window(
    m: ReactorModel,
    window_id: WindowId,
    window_server_id: Option<WindowServerId>,
)
    requires
        m.world.windows.dom().contains(window_id),
    ensures
        ({
            let after = after_command(
                m,
                Command::Reactor(ReactorCommand::FocusWindow { window_id, window_server_id }),
            );
            let window = m.world.windows[window_id];
            match m.best_space(window.frame_monotonic, window.sys_id) {
                None => after == m,
                Some(space) => {
                    &&& !m.world.active_spaces.contains(space) ==> after == m
                    &&& m.world.active_spaces.contains(space) ==> after.outbox == m.outbox + seq![
                        Effect::LayoutEvent(LayoutEvent::WindowFocused(space, window_id)),
                        Effect::RaiseWindow {
                            window: window_id,
                            app_known: m.world.apps.dom().contains(window_id.pid),
                            quiet: false,
                            warp: None,
                        },
                    ]
                },
            }
        }),
{
    let after = after_command(
        m,
        Command::Reactor(ReactorCommand::FocusWindow { window_id, window_server_id }),
    );
    let window = m.world.windows[window_id];
    if let Some(space) = m.best_space(window.frame_monotonic, window.sys_id) {
        if m.world.active_spaces.contains(space) {
            assert(after.outbox =~= m.outbox + seq![
                Effect::LayoutEvent(LayoutEvent::WindowFocused(space, window_id)),
                Effect::RaiseWindow {
                    window: window_id,
                    app_known: m.world.apps.dom().contains(window_id.pid),
                    quiet: false,
                    warp: None,
                },
            ]);
        }
    }
}

/// An unknown window is made key where its server id is given, else nothing happens.
pub proof fn law_focusing_an_unknown_window(
    m: ReactorModel,
    window_id: WindowId,
    window_server_id: Option<WindowServerId>,
)
    requires
        !m.world.windows.dom().contains(window_id),
    ensures
        ({
            let after = after_command(
                m,
                Command::Reactor(ReactorCommand::FocusWindow { window_id, window_server_id }),
            );
            match window_server_id {
                Some(wsid) => after == (ReactorModel {
                    outbox: m.outbox.push(
                        Effect::MakeKeyWindow { pid: window_id.pid, window: wsid },
                    ),
                    ..m
                }),
                None => after == m,
            }
        }),
{
}

/// A display may be gone to where the selector names it and the space it shows, if
/// any, is managed.
pub proof fn law_open_display(m: ReactorModel, selector: DisplaySelector)
    ensures
        m.selected_screen(selector, None) is None ==> open_display(m, selector) is None,
        m.selected_screen(selector, None) matches Some(screen) ==> {
            &&& screen.space is None ==> open_display(m, selector) == Some(screen)
            &&& screen.space matches Some(space) ==> {
                &&& m.world.active_spaces.contains(space) ==> open_display(m, selector) == Some(
                    screen,
                )
                &&& !m.world.active_spaces.contains(space) ==> open_display(m, selector) is None
            }
        },
{
}

/// On a space the window last focused there gets the focus, else the first of its
/// active workspace.
pub proof fn law_focus_target(m: ReactorModel, space: SpaceId)
    ensures
        focus_target(m, None) is None,
        m.last_focused_on(space) matches Some(wid) ==> focus_target(m, Some(space)) == Some(
            (space, wid),
        ),
        m.last_focused_on(space) is None ==> {
            let windows = m.engine.active_windows(space, m.engine.placements.len() as int);
            &&& windows.len() > 0 ==> focus_target(m, Some(space)) == Some((space, windows[0]))
            &&& windows.len() == 0 ==> focus_target(m, Some(space)) is None
        },
{
}

/// Moving the mouse to a display warps it to the display's middle, where the event
/// tap listens, and focuses a window there, where there is one to focus. A display
/// that may not be gone to changes nothing.
pub proof fn law_mouse_to_display(m: ReactorModel, selector: DisplaySelector)
    ensures
        ({
            let after = after_command(
                m,
                Command::Reactor(ReactorCommand::MoveMouseToDisplay(selector)),
            );
            match open_display(m, selector) {
                None => after == m,
                Some(screen) => after.outbox == m.outbox + (if m.world.channels.event_tap {
                    seq![EffectModel::WarpMouse(screen.frame.middle())]
                } else {
                    Seq::empty()
                }) + (match focus_target(m, screen.space) {
                    Some((space, wid)) => seq![
                        EffectModel::LayoutEvent(LayoutEvent::WindowFocused(space, wid)),
                    ],
                    None => Seq::empty(),
                }),
            }
        }),
{
    let after = after_command(m, Command::Reactor(ReactorCommand::MoveMouseToDisplay(selector)));
    if let Some(screen) = open_display(m, selector) {
        let warped = ReactorModel {
            outbox: m.outbox.push(EffectModel::WarpMouse(screen.frame.middle())),
            ..m
        };
        lemma_focus_target_ignores_outbox(m, warped, screen.space);
        assert(after.outbox =~= m.outbox + (if m.world.channels.event_tap {
            seq![EffectModel::WarpMouse(screen.frame.middle())]
        } else {
            Seq::empty()
        }) + (match focus_target(m, screen.space) {
            Some((space, wid)) => seq![
                EffectModel::LayoutEvent(LayoutEvent::WindowFocused(space, wid)),
            ],
            None => Seq::empty(),
        }));
    }
}

proof fn lemma_focus_target_ignores_outbox(
    m: ReactorModel,
    n: ReactorModel,
    space: Option<SpaceId>,
)
    requires
        n == (ReactorModel { outbox: n.outbox, ..m }),
    ensures
        focus_target(n, space) == focus_target(m, space),
{
    if let Some(s) = space {
        if let Some(ws) = m.engine.active_workspace_of(s) {
            if let Some(wid) = m.engine.last_focused_in(ws) {
                lemma_space_of_window_ignores_outbox(m, n, wid);
            }
        }
    }
}

proof fn lemma_space_of_window_ignores_outbox(m: ReactorModel, n: ReactorModel, wid: WindowId)
    requires
        n == (ReactorModel { outbox: n.outbox, ..m }),
    ensures
        n.space_of_window(wid) == m.space_of_window(wid),
{
}

/// Focusing a display focuses a window there; only where there is none to focus does
/// the mouse go to its middle, where the event tap listens.
pub proof fn law_display_focus(m: ReactorModel, selector: DisplaySelector)
    ensures
        ({
            let after = after_command(
                m,
                Command::Reactor(ReactorCommand::FocusDisplay(selector)),
            );
            match open_display(m, selector) {
                None => after == m,
                Some(screen) => match focus_target(m, screen.space) {
                    Some((space, wid)) => after.outbox == m.outbox.push(
                        Effect::LayoutEvent(LayoutEvent::WindowFocused(space, wid)),
                    ),
                    None => after == (ReactorModel {
                        outbox: if m.world.channels.event_tap {
                            m.outbox.push(Effect::WarpMouse(screen.frame.middle()))
                        } else {
                            m.outbox
                        },
                        ..m
                    }),
                },
            }
        }),
{
}

/// `after` is `m` but for the outbox and a save that is due in a second, where
/// persistence is on.
pub open spec fn only_a_save_became_due(m: ReactorModel, after: ReactorModel) -> bool {
    &&& after == (ReactorModel {
        outbox: after.outbox,
        persistence: PersistenceModel {
            save_deadline: after.persistence.save_deadline,
            ..m.persistence
        },
        ..m
    })
    &&& m.persistence.restore_path is None ==> after.persistence.save_deadline
        == m.persistence.save_deadline
    &&& m.persistence.restore_path is Some ==> (after.persistence.save_deadline matches Some(at)
        && at.nanos == m.world.clock.nanos + 1_000_000_000)
}

/// A command that focuses a window makes a save due and changes nothing else of the
/// state.
pub proof fn law_focus_makes_a_save_due(
    m: ReactorModel,
    window_id: WindowId,
    window_server_id: Option<WindowServerId>,
    selector: DisplaySelector,
)
    requires
        m.world.clock.nanos + 1_000_000_000 <= u64::MAX,
    ensures
        ({
            let focused = after_command(
                m,
                Command::Reactor(ReactorCommand::FocusWindow { window_id, window_server_id }),
            );
            let state = m.world.windows[window_id];
            m.world.windows.dom().contains(window_id) && m.best_space(
                state.frame_monotonic,
                state.sys_id,
            ) is Some && m.world.active_spaces.contains(
                m.best_space(state.frame_monotonic, state.sys_id)->0,
            ) ==> only_a_save_became_due(m, focused)
        }),
        ({
            let warped = after_command(
                m,
                Command::Reactor(ReactorCommand::MoveMouseToDisplay(selector)),
            );
            let shown = after_command(
                m,
                Command::Reactor(ReactorCommand::FocusDisplay(selector)),
            );
            open_display(m, selector) matches Some(screen) ==> {
                &&& focus_target(m, screen.space) is Some ==> only_a_save_became_due(m, warped)
                    && only_a_save_became_due(m, shown)
                &&& focus_target(m, screen.space) is None ==> warped == (ReactorModel {
                    outbox: warped.outbox,
                    ..m
                })
            }
        }),
{
    if let Some(screen) = open_display(m, selector) {
        let warped = ReactorModel {
            outbox: m.outbox.push(EffectModel::WarpMouse(screen.frame.middle())),
            ..m
        };
        lemma_focus_target_ignores_outbox(m, warped, screen.space);
    }
}

// ---------------------------------------------------------------------------
// Moving a window to another display
// ---------------------------------------------------------------------------

/// Without a number the main window is moved, whatever is under the cursor; the
/// hovered one only where there is no main window; and the first of the command
/// space only where there is neither.
pub proof fn law_window_moved_without_a_number(m: ReactorModel)
    ensures
        m.world.main_window matches Some(wid) ==> moved_window(m, None) == Some(wid),
        m.world.main_window is None ==> (m.world.window_under_cursor matches Some(id)
            ==> m.world.window_ids.dom().contains(id) ==> moved_window(m, None) == Some(
            m.world.window_ids[id],
        )),
        m.world.main_window is None && (m.world.window_under_cursor is None
            || !m.world.window_ids.dom().contains(m.world.window_under_cursor->0)) ==> {
            &&& m.command_target() matches Some(space) ==> moved_window(m, None)
                == m.engine.numbered(space, 0, 0)
            &&& m.command_target() is None ==> moved_window(m, None) is None
        },
{
}

/// With a number the window of that number on the command space is moved, whatever
/// the main window is.
pub proof fn law_window_moved_by_number(m: ReactorModel, idx: u32, space: SpaceId, wid: WindowId)
    requires
        m.command_target() == Some(space),
        m.engine.numbered(space, idx, 0) == Some(wid),
    ensures
        moved_window(m, Some(idx)) == Some(wid),
{
}

/// Where the command space has no window of the number, the first of the managed
/// spaces that has one gives it; where none has, nothing is moved.
pub proof fn law_window_moved_by_number_from_elsewhere(m: ReactorModel, idx: u32, i: int)
    requires
        m.command_target() matches Some(space) ==> m.engine.numbered(space, idx, 0) is None,
        0 <= i <= m.world.active_spaces.len(),
        forall|j: int|
            0 <= j < i ==> m.engine.numbered(#[trigger] m.world.active_spaces[j], idx, 0) is None,
    ensures
        i == m.world.active_spaces.len() ==> moved_window(m, Some(idx)) is None,
        i < m.world.active_spaces.len() && m.engine.numbered(
            m.world.active_spaces[i],
            idx,
            0,
        ) is Some ==> moved_window(m, Some(idx)) == m.engine.numbered(
            m.world.active_spaces[i],
            idx,
            0,
        ),
{
    lemma_numbered_on_any(m, idx, 0, i);
}

proof fn lemma_numbered_on_any(m: ReactorModel, idx: u32, from: int, i: int)
    requires
        0 <= from <= i <= m.world.active_spaces.len(),
        forall|j: int|
            0 <= j < i ==> m.engine.numbered(#[trigger] m.world.active_spaces[j], idx, 0) is None,
    ensures
        i == m.world.active_spaces.len() ==> numbered_on_any(
            m,
            m.world.active_spaces,
            idx,
            from,
        ) is None,
        i < m.world.active_spaces.len() && m.engine.numbered(
            m.world.active_spaces[i],
            idx,
            0,
        ) is Some ==> numbered_on_any(m, m.world.active_spaces, idx, from) == m.engine.numbered(
            m.world.active_spaces[i],
            idx,
            0,
        ),
    decreases i - from,
{
    if from < i {
        assert(m.engine.numbered(m.world.active_spaces[from], idx, 0) is None);
        lemma_numbered_on_any(m, idx, from + 1, i);
    }
}

/// A move is carried out wherever nothing stands against it: no drag is under way;
/// the window is known; its space, by assignment, else by the best that is known, is
/// managed; and the display that the selector names, seen from the display the
/// window is on, shows another managed space.
pub proof fn law_move_is_planned(
    m: ReactorModel,
    selector: DisplaySelector,
    window_idx: Option<u32>,
    window: WindowId,
    source: SpaceId,
    origin: Option<CGPoint>,
    screen: ScreenInfo,
    target: SpaceId,
)
    requires
        !m.world.in_drag,
        moved_window(m, window_idx) == Some(window),
        m.world.windows.dom().contains(window),
        m.assigned_space(window) == Some(source) || (m.assigned_space(window) is None
            && m.best_space(
            m.world.windows[window].frame_monotonic,
            m.world.windows[window].sys_id,
        ) == Some(source)),
        m.world.active_spaces.contains(source),
        m.screen_of_space(source) matches Some(on) ==> origin == Some(on.frame.middle()),
        m.screen_of_space(source) is None ==> origin == m.current_centre(),
        m.selected_screen(selector, origin) == Some(screen),
        screen.space == Some(target),
        m.world.active_spaces.contains(target),
        target != source,
    ensures
        planned_move(m, selector, window_idx) == Some(
            DisplayMove {
                window,
                window_server_id: m.world.windows[window].sys_id,
                frame: m.world.windows[window].frame_monotonic,
                source,
                target,
                display: screen.frame,
            },
        ),
{
}

/// A move is refused where a drag is under way, no window is meant, or the window is
/// unknown; where its space is unknown or not managed; and where the display is
/// unknown, shows no space, or shows one that is not managed or is the window's own.
pub proof fn law_move_is_refused(
    m: ReactorModel,
    selector: DisplaySelector,
    window_idx: Option<u32>,
    window: WindowId,
    source: Option<SpaceId>,
    origin: Option<CGPoint>,
)
    requires
        ({
            ||| m.world.in_drag
            ||| moved_window(m, window_idx) is None
            ||| moved_window(m, window_idx) == Some(window) && !m.world.windows.dom().contains(
                window,
            )
            ||| moved_window(m, window_idx) == Some(window) && (m.assigned_space(window) is Some
                ==> source == m.assigned_space(window)) && (m.assigned_space(window) is None
                ==> source == m.best_space(
                m.world.windows[window].frame_monotonic,
                m.world.windows[window].sys_id,
            )) && (source is None || !m.world.active_spaces.contains(source->0) || ((
            m.screen_of_space(source->0) is Some ==> origin == Some(
                m.screen_of_space(source->0)->0.frame.middle(),
            )) && (m.screen_of_space(source->0) is None ==> origin == m.current_centre()) && (
            m.selected_screen(selector, origin) is None || m.selected_screen(
                selector,
                origin,
            )->0.space is None || m.selected_screen(selector, origin)->0.space == source
                || !m.world.active_spaces.contains(
                m.selected_screen(selector, origin)->0.space->0,
            ))))
        }),
    ensures
        planned_move(m, selector, window_idx) is None,
        after_command(
            m,
            Command::Reactor(
                ReactorCommand::MoveWindowToDisplay { selector, window_id: window_idx },
            ),
        ) == m,
{
}

/// A move asks for these effects, in this order: the new frame of a floating window
/// whose application is known; the move in the engine; the focus; the layout; the
/// raise; the border; and, for a tiled window while events are heard, the tile again
/// after 200, 450 and 800 milliseconds.
pub proof fn law_move_effects(
    m: ReactorModel,
    selector: DisplaySelector,
    window_idx: Option<u32>,
    p: DisplayMove,
)
    requires
        planned_move(m, selector, window_idx) == Some(p),
    ensures
        ({
            let after = after_command(
                m,
                Command::Reactor(
                    ReactorCommand::MoveWindowToDisplay { selector, window_id: window_idx },
                ),
            );
            let floating = m.engine.floating.contains(p.window);
            let known = m.world.apps.dom().contains(p.window.pid);
            after.outbox == m.outbox + (if floating && known {
                seq![
                    EffectModel::SetWindowFrame {
                        window: p.window,
                        frame: centred_on(p.frame, p.display),
                        transaction_for: p.window_server_id,
                        requested: true,
                    },
                ]
            } else {
                Seq::empty()
            }) + seq![
                Effect::MoveWindowToSpace {
                    source: p.source,
                    target: p.target,
                    size: p.display.size,
                    window: p.window,
                },
                Effect::LayoutEvent(LayoutEvent::WindowFocused(p.target, p.window)),
                Effect::UpdateLayout { is_resize: false, is_workspace_switch: false },
                Effect::RaiseWindow {
                    window: p.window,
                    app_known: known,
                    quiet: false,
                    warp: None,
                },
            ] + (match p.window_server_id {
                Some(wsid) => seq![EffectModel::PokeBorder(wsid)],
                None => Seq::empty(),
            }) + (if !floating && m.world.channels.events {
                seq![
                    EffectModel::ScheduleReassert { window: p.window, delay_ms: 200 },
                    Effect::ScheduleReassert { window: p.window, delay_ms: 450 },
                    Effect::ScheduleReassert { window: p.window, delay_ms: 800 },
                ]
            } else {
                Seq::empty()
            })
        }),
{
    if m.engine.floating.contains(p.window) {
        crate::actor::reactor::command::law_floating_move_effects(m, selector, window_idx, p);
    } else {
        crate::actor::reactor::command::law_tiled_move_effects(m, selector, window_idx, p);
    }
    let after = after_move_to_display(m, selector, window_idx);
    assert(m.engine.floating.contains(p.window) ==> after.outbox + Seq::<EffectModel>::empty()
        =~= after.outbox);
    assert(!m.engine.floating.contains(p.window) ==> m.outbox + Seq::<EffectModel>::empty()
        =~= m.outbox);
}

/// After a move the cursor waits for the window to land on the display, for 600
/// milliseconds at most; the frame of a floating window is the new one, and nothing
/// else of the desktop changes.
pub proof fn law_move_state(
    m: ReactorModel,
    selector: DisplaySelector,
    window_idx: Option<u32>,
    p: DisplayMove,
)
    requires
        m.world.clock.nanos + 1_000_000_000 <= u64::MAX,
        planned_move(m, selector, window_idx) == Some(p),
    ensures
        ({
            let after = after_command(
                m,
                Command::Reactor(
                    ReactorCommand::MoveWindowToDisplay { selector, window_id: window_idx },
                ),
            );
            &&& after.pending_warp matches Some(pending) && pending.window == p.window
                && pending.display == p.display && pending.deadline.nanos == m.world.clock.nanos
                + 600_000_000
            &&& !m.engine.floating.contains(p.window) ==> after.world == m.world
            &&& m.engine.floating.contains(p.window) ==> {
                &&& after.world == (WorldModel { windows: after.world.windows, ..m.world })
                &&& after.world.windows.dom() == m.world.windows.dom()
                &&& after.world.windows[p.window].frame_monotonic == centred_on(p.frame, p.display)
                &&& after.world.windows[p.window].sys_id == m.world.windows[p.window].sys_id
                &&& forall|w: WindowId| w != p.window ==> #[trigger] after.world.windows[w]
                    == m.world.windows[w]
            }
            &&& m.world.windows.dom().contains(p.window) ==> after.world.windows[p.window].title
                == m.world.windows[p.window].title
            &&& only_a_save_became_due(
                m,
                ReactorModel { world: m.world, pending_warp: m.pending_warp, ..after },
            )
        }),
{
    let after = after_move_to_display(m, selector, window_idx);
    assert(after.world.windows.dom() =~= m.world.windows.dom());
}

/// A window that fits is put in the middle of the display, to half a unit; a side
/// too long for the display ends where the display ends.
pub proof fn law_centred_frame(frame: CGRect, display: CGRect)
    requires
        frame.reachable(),
        display.in_range(),
        frame.size.width >= 0,
        frame.size.height >= 0,
        display.size.width >= 0,
        display.size.height >= 0,
    ensures
        centred_on(frame, display).size == frame.size,
        frame.size.width <= display.size.width ==> -1 <= (2 * centred_on(frame, display).origin.x
            + frame.size.width) - (2 * display.origin.x + display.size.width) <= 1,
        frame.size.height <= display.size.height ==> -1 <= (2 * centred_on(frame, display).origin.y
            + frame.size.height) - (2 * display.origin.y + display.size.height) <= 1,
        frame.size.width > display.size.width ==> centred_on(frame, display).origin.x
            + frame.size.width == display.origin.x + display.size.width,
        frame.size.height > display.size.height ==> centred_on(frame, display).origin.y
            + frame.size.height == display.origin.y + display.size.height,
{
}

/// A moved window that is still known and whose middle is not on the display yet is
/// waited for until the deadline; nothing happens meanwhile.
pub proof fn law_warp_is_waited_for(m: ReactorModel, pending: PendingWarp)
    requires
        m.pending_warp == Some(pending),
        m.world.clock.nanos < pending.deadline.nanos,
        m.world.windows.dom().contains(pending.window),
        ({
            let middle = m.world.windows[pending.window].frame_monotonic.middle();
            let d = pending.display;
            middle.x < d.origin.x || middle.x > d.origin.x + d.size.width || middle.y < d.origin.y
                || middle.y > d.origin.y + d.size.height
        }),
    ensures
        after_landing_check(m) == m,
{
}

/// Once the window has landed, is gone, or its time is up, the wait is over; the
/// cursor goes silently to the middle of the window, where that is on a screen and
/// the event tap listens.
pub proof fn law_warp_follows_the_window(m: ReactorModel, pending: PendingWarp)
    requires
        m.pending_warp == Some(pending),
        ({
            let middle = m.world.windows[pending.window].frame_monotonic.middle();
            let d = pending.display;
            ||| m.world.clock.nanos >= pending.deadline.nanos
            ||| !m.world.windows.dom().contains(pending.window)
            ||| d.origin.x <= middle.x <= d.origin.x + d.size.width && d.origin.y <= middle.y
                <= d.origin.y + d.size.height
        }),
    ensures
        ({
            let after = after_landing_check(m);
            let middle = m.world.windows[pending.window].frame_monotonic.middle();
            &&& after == (ReactorModel { pending_warp: None, outbox: after.outbox, ..m })
            &&& m.world.windows.dom().contains(pending.window) && m.screen_at(middle) is Some
                && m.world.channels.event_tap ==> after.outbox == m.outbox.push(
                Effect::WarpMouseSilent(middle),
            )
            &&& !(m.world.windows.dom().contains(pending.window) && m.screen_at(middle) is Some
                && m.world.channels.event_tap) ==> after.outbox == m.outbox
        }),
{
}

/// Without a move under way there is nothing to wait for.
pub proof fn law_nothing_to_wait_for(m: ReactorModel)
    requires
        m.pending_warp is None,
    ensures
        after_landing_check(m) == m,
{
}

/// Asserting a tile again takes in the frame that the window server reports, drops
/// the frame asked for, and runs the layout.
pub proof fn law_tile_is_asserted_again(m: ReactorModel, window_id: WindowId, wsid: WindowServerId)
    requires
        m.world.windows.dom().contains(window_id),
        m.world.windows[window_id].sys_id == Some(wsid),
    ensures
        ({
            let after = after_reassert(m, window_id);
            &&& after.outbox == m.outbox.push(
                Effect::UpdateLayout { is_resize: false, is_workspace_switch: false },
            )
            &&& !after.world.target_frames.dom().contains(wsid)
            &&& forall|w: WindowServerId| w != wsid ==> (#[trigger]
                after.world.target_frames.dom().contains(w) <==>
                m.world.target_frames.dom().contains(w))
            &&& m.world.server_frames.dom().contains(wsid)
                ==> after.world.windows[window_id].frame_monotonic == m.world.server_frames[wsid]
            &&& !m.world.server_frames.dom().contains(wsid) ==> after.world.windows
                == m.world.windows
            &&& forall|w: WindowId| w != window_id ==> #[trigger] after.world.windows[w]
                == m.world.windows[w]
            &&& after.world.windows[window_id].sys_id == Some(wsid)
            &&& after.world.windows[window_id].title == m.world.windows[window_id].title
            &&& after == (ReactorModel {
                outbox: after.outbox,
                world: WorldModel {
                    windows: after.world.windows,
                    target_frames: after.world.target_frames,
                    ..m.world
                },
                ..m
            })
        }),
{
}

/// A window that is unknown, or has no server id, cannot be asserted again.
pub proof fn law_tile_cannot_be_asserted_again(m: ReactorModel, window_id: WindowId)
    requires
        m.world.windows.dom().contains(window_id) ==> m.world.windows[window_id].sys_id is None,
    ensures
        after_reassert(m, window_id) == m,
{
}

// ---------------------------------------------------------------------------
// Configuration
// ---------------------------------------------------------------------------

/// A new configuration takes effect at once and is announced in this order: layout
/// settings, workspace settings, drag settings, the stack line and the menu bar
/// where they listen, a layout run as for a workspace switch, and, where the key
/// bindings differ and it listens, the window manager.
pub proof fn law_new_configuration(m: ReactorModel, config: Config)
    ensures
        ({
            let after = after_config_updated(m, config);
            &&& after == (ReactorModel { config, outbox: after.outbox, ..m })
            &&& after.outbox == m.outbox + seq![
                EffectModel::SetLayoutSettings,
                Effect::UpdateVirtualWorkspaceSettings,
                Effect::UpdateDragConfig,
            ] + (if m.world.channels.stack_line {
                seq![EffectModel::StackLineConfigUpdated]
            } else {
                Seq::empty()
            }) + (if m.world.channels.menu_bar {
                seq![EffectModel::MenuBarConfigUpdated]
            } else {
                Seq::empty()
            }) + seq![
                EffectModel::UpdateLayout { is_resize: false, is_workspace_switch: true },
            ] + (if m.config.keys@ != config.keys@ && m.world.channels.wm {
                seq![EffectModel::WmConfigUpdated]
            } else {
                Seq::empty()
            })
        }),
{
    let after = after_config_updated(m, config);
    assert(after.outbox =~= m.outbox + seq![
        EffectModel::SetLayoutSettings,
        Effect::UpdateVirtualWorkspaceSettings,
        Effect::UpdateDragConfig,
    ] + (if m.world.channels.stack_line {
        seq![EffectModel::StackLineConfigUpdated]
    } else {
        Seq::empty()
    }) + (if m.world.channels.menu_bar {
        seq![EffectModel::MenuBarConfigUpdated]
    } else {
        Seq::empty()
    }) + seq![
        EffectModel::UpdateLayout { is_resize: false, is_workspace_switch: true },
    ] + (if m.config.keys@ != config.keys@ && m.world.channels.wm {
        seq![EffectModel::WmConfigUpdated]
    } else {
        Seq::empty()
    }));
}

/// The process ends with status 0 after a save that worked, and with 3 after one
/// that did not.
pub proof fn law_exit_status()
    ensures
        save_exit_status(true) == 0,
        save_exit_status(false) == 3,
{
}

} // verus!
