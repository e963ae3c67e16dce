//! Commands to the reactor.

use vstd::prelude::*;

use crate::actor::event_tap::WmCommand;
use crate::actor::reactor::persistence::marked_dirty;
use crate::actor::reactor::{
    effects_view, first_space, lemma_first_screen, lemma_physical_order, lookup, or, Command, Config, DisplaySelector,
    Effect, EffectModel, LayoutCommand, LayoutEvent, MetricsCommand, PendingWarp, Reactor, ReactorCommand,
    ReactorModel, ResponseOf, ScreenInfo, SpaceActivationConfig, WindowState, WmCmd, WorkspaceKey,
    WorkspaceSwitchOrigin, WorldModel,
};
use crate::common::time::{Duration, Instant};
use crate::ids::{SpaceId, WindowId, WindowServerId};
use crate::sys::geometry::{
    half, imax, imin, max_i64, min_i64, CGPoint, CGRect, CGRectExt, COORD_LIMIT,
};
use crate::sys::hotkey::Hotkey;

verus! {

/// How long a moved window has to land before its cursor warp is dropped.
pub const DISPLAY_MOVE_DEADLINE_NS: u64 = 600_000_000;

/// When the tile of a window moved to another display is asserted again, in
/// milliseconds after the move.
pub const REASSERT_DELAY_EARLY_MS: u64 = 200;

pub const REASSERT_DELAY_MIDDLE_MS: u64 = 450;

pub const REASSERT_DELAY_LATE_MS: u64 = 800;

// ---------------------------------------------------------------------------
// What the commands do
// ---------------------------------------------------------------------------

/// `m` with one more effect.
pub open spec fn sent(m: ReactorModel, effect: EffectModel) -> ReactorModel {
    ReactorModel { outbox: m.outbox.push(effect), ..m }
}

/// `m` with more effects.
pub open spec fn sent_all(m: ReactorModel, effects: Seq<EffectModel>) -> ReactorModel {
    ReactorModel { outbox: m.outbox + effects, ..m }
}

/// `m` once a layout event went out: a save is due.
pub open spec fn after_layout_event(m: ReactorModel, event: LayoutEvent) -> ReactorModel {
    marked_dirty(sent(m, Effect::LayoutEvent(event)))
}

pub open spec fn switches_workspace(command: LayoutCommand) -> bool {
    match command {
        LayoutCommand::NextWorkspace(_) => true,
        LayoutCommand::PrevWorkspace(_) => true,
        LayoutCommand::SwitchToWorkspace(_) => true,
        LayoutCommand::SwitchToLastWorkspace => true,
        _ => false,
    }
}

/// The command works on the workspaces of one space.
pub open spec fn needs_space(command: LayoutCommand) -> bool {
    switches_workspace(command) || command is SetWorkspaceLayout || command is CreateWorkspace
}

/// The positions to remember of the first `count` of `windows`: those that float
/// and are known.
pub open spec fn floating_positions(
    m: ReactorModel,
    space: SpaceId,
    windows: Seq<WindowId>,
    count: int,
) -> Seq<EffectModel>
    decreases count,
{
    if count <= 0 {
        Seq::empty()
    } else {
        let before = floating_positions(m, space, windows, count - 1);
        let window = windows[count - 1];
        match lookup(m.world.windows, window) {
            Some(state) if m.engine.floating.contains(window) => before.push(
                Effect::StoreFloatingPosition { space, window, frame: state.frame_monotonic },
            ),
            _ => before,
        }
    }
}

/// `m` with the floating windows of a space's active workspace remembered.
pub open spec fn with_positions_stored(m: ReactorModel, space: SpaceId) -> ReactorModel {
    let windows = m.engine.active_windows(space, m.engine.placements.len() as int);
    sent_all(m, floating_positions(m, space, windows, windows.len() as int))
}

/// `m` with the cursor remembered for the active workspace of a space.
pub open spec fn with_cursor_saved(m: ReactorModel, space: SpaceId) -> ReactorModel {
    match (m.engine.active_workspace_of(space), m.world.cursor) {
        (Some(workspace), Some(point)) => ReactorModel {
            cursors: m.cursors.insert(WorkspaceKey { space, workspace }, point),
            ..m
        },
        _ => m,
    }
}

/// The spaces shown by the first `count` screens, with the middle of their
/// screen; inactive ones only where asked for.
pub open spec fn shown_with_middles(m: ReactorModel, include_inactive: bool, count: int) -> Seq<
    (SpaceId, CGPoint),
>
    decreases count,
{
    if count <= 0 {
        Seq::empty()
    } else {
        let before = shown_with_middles(m, include_inactive, count - 1);
        let screen = m.world.screens[count - 1];
        match screen.space {
            Some(space) if include_inactive || m.space_active(space) => before.push(
                (space, screen.frame.middle()),
            ),
            _ => before,
        }
    }
}

/// `a` stands before `b`: further left, or as far left and higher.
pub open spec fn point_before(a: CGPoint, b: CGPoint) -> bool {
    a.x < b.x || (a.x == b.x && a.y < b.y)
}

/// The place of `at` in `ordered`, from `from` on: in front of the first point
/// that stands after it.
pub open spec fn place_among(ordered: Seq<(SpaceId, CGPoint)>, at: CGPoint, from: int) -> int
    decreases ordered.len() - from,
{
    if from >= ordered.len() || point_before(at, ordered[from].1) {
        from
    } else {
        place_among(ordered, at, from + 1)
    }
}

/// Spaces ordered by where their middles are: left to right, top to bottom, those
/// at one place in the order given.
pub open spec fn ordered_by_position(spaces: Seq<(SpaceId, CGPoint)>) -> Seq<(SpaceId, CGPoint)>
    decreases spaces.len(),
{
    if spaces.len() == 0 {
        Seq::empty()
    } else {
        let before = ordered_by_position(spaces.drop_last());
        before.insert(place_among(before, spaces.last().1, 0), spaces.last())
    }
}

/// The visible spaces in order, with the middle of their screen.
pub open spec fn visible_spaces(m: ReactorModel, include_inactive: bool) -> Seq<
    (SpaceId, CGPoint),
> {
    ordered_by_position(shown_with_middles(m, include_inactive, m.world.screens.len() as int))
}

/// Before a layout command: what a switch would lose is remembered, and whether
/// a switch is under way is noted.
pub open spec fn before_layout_command(m: ReactorModel, command: LayoutCommand) -> ReactorModel {
    let kept = match m.command_target() {
        Some(space) if needs_space(command) => {
            let stored = with_positions_stored(m, space);
            if switches_workspace(command) {
                with_cursor_saved(stored, space)
            } else {
                stored
            }
        },
        _ => m,
    };
    ReactorModel {
        workspace_switch: if switches_workspace(command) {
            Some(WorkspaceSwitchOrigin::Manual)
        } else {
            None
        },
        ..kept
    }
}

/// The active spaces that are visible, with the middle of their screen.
pub open spec fn active_visible_spaces(m: ReactorModel) -> Seq<(SpaceId, CGPoint)> {
    visible_spaces(m, false)
}

/// The engine call that a command comes to, if any.
pub open spec fn engine_call(m: ReactorModel, command: LayoutCommand) -> Option<EffectModel> {
    let target = m.command_target();
    match command {
        LayoutCommand::Other(_) => Some(
            Effect::LayoutCommand {
                command_space: target,
                visible: active_visible_spaces(m),
                command,
            },
        ),
        LayoutCommand::MoveWindowToWorkspace { workspace, window_id } => {
            let numbered = match window_id {
                Some(idx) => m.assigned_space_of_number(idx),
                None => None,
            };
            match or(numbered, target) {
                Some(space) => Some(Effect::WorkspaceCommand { space, command }),
                None => None,
            }
        },
        _ => match target {
            Some(space) => Some(Effect::WorkspaceCommand { space, command }),
            None => None,
        },
    }
}

/// `m` after a layout command.
pub open spec fn after_layout_command(m: ReactorModel, command: LayoutCommand) -> ReactorModel {
    let ready = before_layout_command(m, command);
    if command is Other && active_visible_spaces(m).len() == 0 {
        ready
    } else {
        let called = match engine_call(m, command) {
            Some(call) => sent(ready, call),
            None => ready,
        };
        let answered = sent(
            called,
            Effect::HandleLayoutResponse {
                response: if engine_call(m, command) is Some {
                    ResponseOf::EngineCall
                } else {
                    ResponseOf::Nothing
                },
                workspace_space: if needs_space(command) {
                    m.command_target()
                } else {
                    None
                },
            },
        );
        if needs_space(command) {
            sent(answered, Effect::UpdateEventTapLayoutMode)
        } else {
            answered
        }
    }
}

/// What a new configuration sets off, apart from the key bindings.
pub open spec fn config_effects(m: ReactorModel) -> Seq<EffectModel> {
    seq![
        Effect::SetLayoutSettings,
        Effect::UpdateVirtualWorkspaceSettings,
        Effect::UpdateDragConfig,
    ] + (if m.world.channels.stack_line {
        seq![Effect::StackLineConfigUpdated]
    } else {
        Seq::empty()
    }) + (if m.world.channels.menu_bar {
        seq![Effect::MenuBarConfigUpdated]
    } else {
        Seq::empty()
    }) + seq![Effect::UpdateLayout { is_resize: false, is_workspace_switch: true }]
}

/// `m` under a new configuration. Key bindings are only announced where they
/// changed.
pub open spec fn after_config_updated(m: ReactorModel, config: Config) -> ReactorModel {
    let next = sent_all(ReactorModel { config, ..m }, config_effects(m));
    if m.config.keys@ != config.keys@ && m.world.channels.wm {
        sent(next, Effect::WmConfigUpdated)
    } else {
        next
    }
}

/// One tree description for each of the first `count` screens that shows a
/// space.
pub open spec fn debug_effects(screens: Seq<ScreenInfo>, count: int) -> Seq<EffectModel>
    decreases count,
{
    if count <= 0 {
        Seq::empty()
    } else {
        let before = debug_effects(screens, count - 1);
        match screens[count - 1].space {
            Some(space) => before.push(Effect::DebugTree(space)),
            None => before,
        }
    }
}

/// The space whose activation is toggled: that under the cursor, else the first
/// known.
pub open spec fn toggled_space(m: ReactorModel) -> Option<SpaceId> {
    or(
        m.cursor_space(),
        if m.world.known_spaces.len() > 0 {
            Some(m.world.known_spaces[0])
        } else {
            None
        },
    )
}

pub open spec fn after_toggle_space(m: ReactorModel) -> ReactorModel {
    match toggled_space(m) {
        None => m,
        Some(space) => sent(
            sent(
                m,
                Effect::ToggleSpaceActivated {
                    config: SpaceActivationConfig {
                        default_disable: m.config.default_disable,
                        one_space: m.one_space,
                    },
                    space,
                    display_uuid: m.display_of_space(space),
                },
            ),
            Effect::RecomputeActiveSpaces,
        ),
    }
}

/// A known window is focused where its space is known and active; an unknown one
/// is made key where its server id is given.
pub open spec fn after_focus_window(
    m: ReactorModel,
    window_id: WindowId,
    window_server_id: Option<WindowServerId>,
) -> ReactorModel {
    match lookup(m.world.windows, window_id) {
        Some(window) => match m.best_space(window.frame_monotonic, window.sys_id) {
            Some(space) if m.space_active(space) => sent(
                after_layout_event(m, LayoutEvent::WindowFocused(space, window_id)),
                Effect::RaiseWindow {
                    window: window_id,
                    app_known: m.world.apps.dom().contains(window_id.pid),
                    quiet: false,
                    warp: None,
                },
            ),
            _ => m,
        },
        None => match window_server_id {
            Some(wsid) => sent(m, Effect::MakeKeyWindow { pid: window_id.pid, window: wsid }),
            None => m,
        },
    }
}

/// The window to focus on a screen: the last focused of its space, else the
/// first of its active workspace.
pub open spec fn focus_target(m: ReactorModel, space: Option<SpaceId>) -> Option<(SpaceId, WindowId)> {
    match space {
        None => None,
        Some(space) => {
            let windows = m.engine.active_windows(space, m.engine.placements.len() as int);
            match or(
                m.last_focused_on(space),
                if windows.len() > 0 {
                    Some(windows[0])
                } else {
                    None
                },
            ) {
                Some(wid) => Some((space, wid)),
                None => None,
            }
        },
    }
}

pub open spec fn after_focus_screen(m: ReactorModel, space: Option<SpaceId>) -> ReactorModel {
    match focus_target(m, space) {
        Some((on, wid)) => after_layout_event(m, LayoutEvent::WindowFocused(on, wid)),
        None => m,
    }
}

/// The display that a command may go to: it is found, and its space, if it shows
/// one, is active.
pub open spec fn open_display(m: ReactorModel, selector: DisplaySelector) -> Option<ScreenInfo> {
    match m.selected_screen(selector, None) {
        Some(screen) if screen.space matches Some(space) ==> m.space_active(space) => Some(screen),
        _ => None,
    }
}

/// A warp is asked for where the event tap listens.
pub open spec fn after_warp_to(m: ReactorModel, point: CGPoint) -> ReactorModel {
    if m.world.channels.event_tap {
        sent(m, Effect::WarpMouse(point))
    } else {
        m
    }
}

pub open spec fn after_move_mouse(m: ReactorModel, selector: DisplaySelector) -> ReactorModel {
    match open_display(m, selector) {
        Some(screen) => after_focus_screen(
            after_warp_to(m, screen.frame.middle()),
            screen.space,
        ),
        None => m,
    }
}

pub open spec fn after_focus_display(m: ReactorModel, selector: DisplaySelector) -> ReactorModel {
    match open_display(m, selector) {
        Some(screen) => if focus_target(m, screen.space) is Some {
            after_focus_screen(m, screen.space)
        } else {
            after_warp_to(m, screen.frame.middle())
        },
        None => m,
    }
}

/// The window numbered `idx` on the first of `spaces` that has one, from index
/// `from` on.
pub open spec fn numbered_on_any(
    m: ReactorModel,
    spaces: Seq<SpaceId>,
    idx: u32,
    from: int,
) -> Option<WindowId>
    decreases spaces.len() - from,
{
    if from >= spaces.len() {
        None
    } else {
        or(m.engine.numbered(spaces[from], idx, 0), numbered_on_any(m, spaces, idx, from + 1))
    }
}

/// The window a move is about: by number, on the command space or else on any
/// active one; without a number the main window, else the one under the cursor,
/// else the first of the command space.
pub open spec fn moved_window(m: ReactorModel, window_idx: Option<u32>) -> Option<WindowId> {
    match window_idx {
        Some(idx) => or(
            match m.command_target() {
                Some(space) => m.engine.numbered(space, idx, 0),
                None => None,
            },
            numbered_on_any(m, m.world.active_spaces, idx, 0),
        ),
        None => or(
            m.world.main_window,
            or(
                m.hovered_window(),
                match m.command_target() {
                    Some(space) => m.engine.numbered(space, 0, 0),
                    None => None,
                },
            ),
        ),
    }
}

/// A move to another display that can be carried out.
#[derive(Debug, Clone, Copy, PartialEq, Eq, Structural)]
pub struct DisplayMove {
    pub window: WindowId,
    pub window_server_id: Option<WindowServerId>,
    /// The frame the window has.
    pub frame: CGRect,
    pub source: SpaceId,
    pub target: SpaceId,
    /// The display it goes to.
    pub display: CGRect,
}

/// The move that a command asks for, where nothing stands against it: no drag is
/// under way; the window, the space it is on and the display are known; both
/// spaces are active; and they differ.
pub open spec fn planned_move(
    m: ReactorModel,
    selector: DisplaySelector,
    window_idx: Option<u32>,
) -> Option<DisplayMove> {
    if m.world.in_drag {
        None
    } else {
        match moved_window(m, window_idx) {
            None => None,
            Some(window) => match lookup(m.world.windows, window) {
                None => None,
                Some(state) => match or(
                    m.assigned_space(window),
                    m.best_space(state.frame_monotonic, state.sys_id),
                ) {
                    Some(source) if m.space_active(source) => move_from(
                        m,
                        selector,
                        window,
                        state,
                        source,
                    ),
                    _ => None,
                },
            },
        }
    }
}

/// Directions start at the display the window is on.
pub open spec fn move_origin(m: ReactorModel, source: SpaceId) -> Option<CGPoint> {
    or(
        match m.screen_of_space(source) {
            Some(screen) => Some(screen.frame.middle()),
            None => None,
        },
        m.current_centre(),
    )
}

pub open spec fn move_from(
    m: ReactorModel,
    selector: DisplaySelector,
    window: WindowId,
    state: WindowState,
    source: SpaceId,
) -> Option<DisplayMove> {
    match m.selected_screen(selector, move_origin(m, source)) {
        None => None,
        Some(screen) => match screen.space {
            Some(target) if m.space_active(target) && target != source => Some(
                DisplayMove {
                    window,
                    window_server_id: state.sys_id,
                    frame: state.frame_monotonic,
                    source,
                    target,
                    display: screen.frame,
                },
            ),
            _ => None,
        },
    }
}

/// `frame` centred on `display`; a side too long for the display ends at its far
/// edge.
pub open spec fn centred_on(frame: CGRect, display: CGRect) -> CGRect {
    CGRect {
        origin: CGPoint {
            x: imin(
                imax(display.middle().x - frame.size.width as int / 2, display.min_x()),
                display.max_x() - frame.size.width,
            ) as i64,
            y: imin(
                imax(display.middle().y - frame.size.height as int / 2, display.min_y()),
                display.max_y() - frame.size.height,
            ) as i64,
        },
        size: frame.size,
    }
}

/// A window's state with another frame.
pub open spec fn with_frame(state: WindowState, frame: CGRect) -> WindowState {
    WindowState { frame_monotonic: frame, ..state }
}

/// `m` with another frame for a known window.
pub open spec fn with_window_frame(m: ReactorModel, window: WindowId, frame: CGRect) -> ReactorModel {
    if m.world.windows.dom().contains(window) {
        ReactorModel {
            world: WorldModel {
                windows: m.world.windows.insert(
                    window,
                    with_frame(m.world.windows[window], frame),
                ),
                ..m.world
            },
            ..m
        }
    } else {
        m
    }
}

/// A floating window gets its frame on the new display at once; the layout
/// places a tiled one.
pub open spec fn after_seeding(m: ReactorModel, p: DisplayMove) -> ReactorModel {
    let frame = centred_on(p.frame, p.display);
    if m.engine.floating.contains(p.window) {
        let asked = if m.world.apps.dom().contains(p.window.pid) {
            sent(
                m,
                Effect::SetWindowFrame {
                    window: p.window,
                    frame,
                    transaction_for: p.window_server_id,
                    requested: true,
                },
            )
        } else {
            m
        };
        with_window_frame(asked, p.window, frame)
    } else {
        m
    }
}

/// The engine moves the window, it is focused and laid out, then raised.
pub open spec fn after_transfer(m: ReactorModel, p: DisplayMove) -> ReactorModel {
    let moved = sent(
        m,
        Effect::MoveWindowToSpace {
            source: p.source,
            target: p.target,
            size: p.display.size,
            window: p.window,
        },
    );
    let focused = after_layout_event(moved, LayoutEvent::WindowFocused(p.target, p.window));
    sent(
        sent(focused, Effect::UpdateLayout { is_resize: false, is_workspace_switch: false }),
        Effect::RaiseWindow {
            window: p.window,
            app_known: m.world.apps.dom().contains(p.window.pid),
            quiet: false,
            warp: None,
        },
    )
}

/// The cursor follows once the window has landed, and the tile of a tiled window
/// is asserted again a few times.
pub open spec fn after_follow_up(m: ReactorModel, p: DisplayMove) -> ReactorModel {
    let warped = ReactorModel {
        pending_warp: Some(
            PendingWarp {
                window: p.window,
                display: p.display,
                deadline: Instant {
                    nanos: (m.world.clock.nanos + DISPLAY_MOVE_DEADLINE_NS) as u64,
                },
            },
        ),
        ..m
    };
    let poked = match p.window_server_id {
        Some(wsid) => sent(warped, Effect::PokeBorder(wsid)),
        None => warped,
    };
    if !m.engine.floating.contains(p.window) && m.world.channels.events {
        sent_all(
            poked,
            seq![
                Effect::ScheduleReassert { window: p.window, delay_ms: REASSERT_DELAY_EARLY_MS },
                Effect::ScheduleReassert { window: p.window, delay_ms: REASSERT_DELAY_MIDDLE_MS },
                Effect::ScheduleReassert { window: p.window, delay_ms: REASSERT_DELAY_LATE_MS },
            ],
        )
    } else {
        poked
    }
}

pub open spec fn after_move_to_display(
    m: ReactorModel,
    selector: DisplaySelector,
    window_idx: Option<u32>,
) -> ReactorModel {
    match planned_move(m, selector, window_idx) {
        Some(p) => after_follow_up(after_transfer(after_seeding(m, p), p), p),
        None => m,
    }
}

/// A moved window has landed: its middle is on the display it went to, or it is
/// gone.
pub open spec fn has_landed(m: ReactorModel, pending: PendingWarp) -> bool {
    match lookup(m.world.windows, pending.window) {
        Some(state) => pending.display.covers(state.frame_monotonic.middle()),
        None => true,
    }
}

/// The middle of a known window, where it is on a screen.
pub open spec fn middle_on_screen(m: ReactorModel, window: WindowId) -> Option<CGPoint> {
    match lookup(m.world.windows, window) {
        Some(state) if m.screen_at(state.frame_monotonic.middle()) is Some => Some(
            state.frame_monotonic.middle(),
        ),
        _ => None,
    }
}

/// The cursor follows a moved window once it has landed, or its time is up.
pub open spec fn after_landing_check(m: ReactorModel) -> ReactorModel {
    match m.pending_warp {
        Some(pending) if has_landed(m, pending) || m.world.clock.nanos >= pending.deadline.nanos => {
            let done = ReactorModel { pending_warp: None, ..m };
            match middle_on_screen(m, pending.window) {
                Some(target) if m.world.channels.event_tap => sent(
                    done,
                    Effect::WarpMouseSilent(target),
                ),
                _ => done,
            }
        },
        _ => m,
    }
}

/// `m` with the frame that the window server reports of a window, where it does.
pub open spec fn with_reported_frame(
    m: ReactorModel,
    window: WindowId,
    wsid: WindowServerId,
) -> ReactorModel {
    match lookup(m.world.server_frames, wsid) {
        Some(frame) => with_window_frame(m, window, frame),
        None => m,
    }
}

/// `m` without a frame asked for and not yet confirmed.
pub open spec fn without_target(m: ReactorModel, wsid: WindowServerId) -> ReactorModel {
    ReactorModel {
        world: WorldModel { target_frames: m.world.target_frames.remove(wsid), ..m.world },
        ..m
    }
}

/// The real frame replaces the one asked for, the pending target is dropped, and
/// the layout runs again.
pub open spec fn after_reassert(m: ReactorModel, window_id: WindowId) -> ReactorModel {
    match lookup(m.world.windows, window_id) {
        Some(window) => match window.sys_id {
            Some(wsid) => sent(
                without_target(with_reported_frame(m, window_id, wsid), wsid),
                Effect::UpdateLayout { is_resize: false, is_workspace_switch: false },
            ),
            None => m,
        },
        None => m,
    }
}

pub open spec fn after_close_window(
    m: ReactorModel,
    window_server_id: Option<WindowServerId>,
) -> ReactorModel {
    let named = match window_server_id {
        Some(wsid) => lookup(m.world.window_ids, wsid),
        None => None,
    };
    match or(named, m.world.main_window) {
        Some(wid) => sent(m, Effect::CloseWindow(wid)),
        None => m,
    }
}

/// A command to the window manager controller, where it listens.
pub open spec fn after_wm_command(m: ReactorModel, command: WmCmd) -> ReactorModel {
    if m.world.channels.wm {
        sent(m, Effect::WmCommand(command))
    } else {
        m
    }
}

/// Focus follows mouse where it is configured, no menu is open and the window
/// overview is closed.
pub open spec fn after_ffm_update(m: ReactorModel) -> ReactorModel {
    if m.world.channels.event_tap {
        sent(
            m,
            Effect::SetFocusFollowsMouse(
                m.config.focus_follows_mouse && !m.world.menu_open && !m.mission_control_active,
            ),
        )
    } else {
        m
    }
}

pub open spec fn after_mission_control(m: ReactorModel, active: bool) -> ReactorModel {
    if m.mission_control_active == active {
        m
    } else {
        after_ffm_update(ReactorModel { mission_control_active: active, ..m })
    }
}

/// `m` after a command to the reactor.
pub open spec fn after_reactor_command(m: ReactorModel, command: ReactorCommand) -> ReactorModel {
    match command {
        ReactorCommand::Debug => sent_all(
            m,
            debug_effects(m.world.screens, m.world.screens.len() as int),
        ),
        ReactorCommand::Serialize => sent(m, Effect::PrintState),
        ReactorCommand::SaveAndExit => sent(m, Effect::SaveLayoutAndExit),
        ReactorCommand::SwitchSpace(direction) => sent(m, Effect::SwitchSpace(direction)),
        ReactorCommand::ToggleSpaceActivated => after_toggle_space(m),
        ReactorCommand::FocusWindow { window_id, window_server_id } => after_focus_window(
            m,
            window_id,
            window_server_id,
        ),
        ReactorCommand::ShowMissionControlAll => after_wm_command(m, WmCmd::ShowMissionControlAll),
        ReactorCommand::ShowMissionControlCurrent => after_wm_command(
            m,
            WmCmd::ShowMissionControlCurrent,
        ),
        ReactorCommand::DismissMissionControl => if m.world.channels.wm {
            after_wm_command(m, WmCmd::DismissMissionControl)
        } else {
            after_mission_control(m, false)
        },
        ReactorCommand::MoveMouseToDisplay(selector) => after_move_mouse(m, selector),
        ReactorCommand::FocusDisplay(selector) => after_focus_display(m, selector),
        ReactorCommand::CloseWindow { window_server_id } => after_close_window(
            m,
            window_server_id,
        ),
        ReactorCommand::MoveWindowToDisplay { selector, window_id } => after_move_to_display(
            m,
            selector,
            window_id,
        ),
    }
}

pub open spec fn after_command(m: ReactorModel, command: Command) -> ReactorModel {
    match command {
        Command::Layout(command) => after_layout_command(m, command),
        Command::Metrics(command) => sent(m, Effect::Metrics(command)),
        Command::Reactor(command) => after_reactor_command(m, command),
    }
}

/// Status of a process that ends after a save.
pub open spec fn save_exit_status(saved: bool) -> i32 {
    if saved {
        0
    } else {
        3
    }
}

// ---------------------------------------------------------------------------
// The commands, carried out
// ---------------------------------------------------------------------------

impl Reactor {
    fn send(&mut self, effect: Effect)
        ensures
            final(self)@ == sent(old(self)@, effect@),
            old(self).wf() ==> final(self).wf(),
    {
        self.outbox.push(effect);
        assert(self@.outbox =~= old(self)@.outbox.push(effect@));
    }

    /// Hand an event to the layout engine. It may change engine state, so a save
    /// is due.
    pub fn send_layout_event(&mut self, event: LayoutEvent)
        requires
            old(self).wf(),
        ensures
            final(self).wf(),
            final(self)@ == after_layout_event(old(self)@, event),
    {
        self.send(Effect::LayoutEvent(event));
        self.mark_layout_dirty();
    }

    /// Remember where the floating windows of a space's active workspace are.
    pub fn store_current_floating_positions(&mut self, space: SpaceId)
        requires
            old(self).wf(),
        ensures
            final(self).wf(),
            final(self)@ == with_positions_stored(old(self)@, space),
    {
        let windows = self.layout_engine.windows_in_active_workspace(space);
        let mut effects: Vec<Effect> = Vec::new();
        let mut i: usize = 0;
        while i < windows.len()
            invariant
                self.wf(),
                *self == *old(self),
                i <= windows@.len(),
                effects_view(effects@) =~= floating_positions(self@, space, windows@, i as int),
            decreases windows@.len() - i,
        {
            let window = windows[i];
            if self.layout_engine.is_window_floating(window) {
                if let Some(state) = self.world.windows.get(&window) {
                    effects.push(
                        Effect::StoreFloatingPosition {
                            space,
                            window,
                            frame: state.frame_monotonic,
                        },
                    );
                }
            }
            i += 1;
        }
        let ghost stored = effects_view(effects@);
        self.outbox.append(&mut effects);
        assert(self@.outbox =~= old(self)@.outbox + stored);
    }

    /// Remember the cursor for the active workspace of a space.
    pub fn save_cursor_for_workspace(&mut self, space: SpaceId)
        requires
            old(self).wf(),
        ensures
            final(self).wf(),
            final(self)@ == with_cursor_saved(old(self)@, space),
    {
        if let Some(workspace) = self.layout_engine.active_workspace(space) {
            if let Some(point) = self.world.cursor {
                self.saved_workspace_cursors.insert(WorkspaceKey { space, workspace }, point);
            }
        }
    }

    /// The spaces that are visible, each with the middle of its screen, ordered by
    /// where those middles are.
    pub fn visible_spaces_for_layout(&self, include_inactive: bool) -> (r: Vec<(SpaceId, CGPoint)>)
        requires
            self.wf(),
        ensures
            r@ == visible_spaces(self@, include_inactive),
    {
        let mut spaces: Vec<(SpaceId, CGPoint)> = Vec::new();
        let mut i: usize = 0;
        while i < self.world.screens.len()
            invariant
                self.wf(),
                i <= self.world.screens@.len(),
                spaces@ == ordered_by_position(
                    shown_with_middles(self@, include_inactive, i as int),
                ),
            decreases self.world.screens@.len() - i,
        {
            assert(self@.world.screens[i as int].frame.in_range());
            if let Some(space) = self.world.screens[i].space {
                if include_inactive || self.is_space_active(space) {
                    let ghost before = shown_with_middles(self@, include_inactive, i as int);
                    let shown = (space, self.world.screens[i].frame.mid());
                    insert_by_position(&mut spaces, shown);
                    assert(before.push(shown).drop_last() =~= before);
                }
            }
            i += 1;
        }
        spaces
    }

    /// Ask for a cursor warp.
    pub fn warp_mouse(&mut self, point: CGPoint)
        ensures
            final(self)@ == after_warp_to(old(self)@, point),
            old(self).wf() ==> final(self).wf(),
    {
        if self.world.channels.event_tap {
            self.send(Effect::WarpMouse(point));
        }
    }

    fn update_focus_follows_mouse_state(&mut self)
        ensures
            final(self)@ == after_ffm_update(old(self)@),
            old(self).wf() ==> final(self).wf(),
    {
        let should_enable = self.config.focus_follows_mouse && !self.world.menu_open
            && !self.mission_control_active;
        if self.world.channels.event_tap {
            self.send(Effect::SetFocusFollowsMouse(should_enable));
        }
    }

    pub fn set_mission_control_active(&mut self, active: bool)
        ensures
            final(self)@ == after_mission_control(old(self)@, active),
            old(self).wf() ==> final(self).wf(),
    {
        if self.mission_control_active == active {
            return ;
        }
        self.mission_control_active = active;
        self.update_focus_follows_mouse_state();
    }

    fn send_wm_cmd(&mut self, command: WmCmd) -> (heard: bool)
        ensures
            heard == old(self)@.world.channels.wm,
            final(self)@ == after_wm_command(old(self)@, command),
            old(self).wf() ==> final(self).wf(),
    {
        if self.world.channels.wm {
            self.send(Effect::WmCommand(command));
            true
        } else {
            false
        }
    }

    /// Give a known window another frame.
    fn set_window_frame(&mut self, window: WindowId, frame: CGRect)
        requires
            old(self).wf(),
            frame.reachable(),
        ensures
            final(self).wf(),
            final(self)@ == with_window_frame(old(self)@, window, frame),
    {
        if let Some(mut state) = self.world.windows.remove(&window) {
            let ghost was = state;
            state.frame_monotonic = frame;
            assert(state == with_frame(was, frame));
            self.world.windows.insert(window, state);
            assert(self@.world.windows =~= with_window_frame(
                old(self)@,
                window,
                frame,
            ).world.windows);
        } else {
            assert(self@.world.windows =~= old(self)@.world.windows);
        }
    }

    /// Drop the frame asked for a window.
    fn clear_target_for_window(&mut self, wsid: WindowServerId)
        requires
            old(self).wf(),
        ensures
            final(self).wf(),
            final(self)@ == without_target(old(self)@, wsid),
    {
        self.world.target_frames.remove(&wsid);
        assert(self@.world =~= without_target(old(self)@, wsid).world);
    }

    /// Hold the frame that the window server reports of a window, where it does.
    fn hold_reported_frame(&mut self, window: WindowId, wsid: WindowServerId)
        requires
            old(self).wf(),
        ensures
            final(self).wf(),
            final(self)@ == with_reported_frame(old(self)@, window, wsid),
    {
        let reported = match self.world.server_frames.get(&wsid) {
            Some(frame) => Some(*frame),
            None => None,
        };
        if let Some(frame) = reported {
            assert(self@.world.server_frames.dom().contains(wsid));
            self.set_window_frame(window, frame);
        }
    }

    fn app_known(&self, window: WindowId) -> (b: bool)
        ensures
            b == self@.world.apps.dom().contains(window.pid),
    {
        self.world.apps.contains_key(&window.pid)
    }
}

/// Put a space in its place.
fn insert_by_position(spaces: &mut Vec<(SpaceId, CGPoint)>, shown: (SpaceId, CGPoint))
    ensures
        final(spaces)@ == old(spaces)@.insert(
            place_among(old(spaces)@, shown.1, 0),
            shown,
        ),
{
    let mut at: usize = 0;
    while at < spaces.len() && !(shown.1.x < spaces[at].1.x || (shown.1.x == spaces[at].1.x
        && shown.1.y < spaces[at].1.y))
        invariant
            *spaces == *old(spaces),
            at <= spaces@.len(),
            place_among(spaces@, shown.1, 0) == place_among(spaces@, shown.1, at as int),
        decreases spaces@.len() - at,
    {
        at += 1;
    }
    spaces.insert(at, shown);
}

/// Whether two lists of bindings are the same.
fn same_keys(a: &Vec<(Hotkey, WmCommand)>, b: &Vec<(Hotkey, WmCommand)>) -> (same: bool)
    ensures
        same == (a@ == b@),
{
    if a.len() != b.len() {
        return false;
    }
    let mut i: usize = 0;
    while i < a.len()
        invariant
            i <= a@.len(),
            a@.len() == b@.len(),
            forall|j: int| 0 <= j < i ==> a@[j] == b@[j],
        decreases a@.len() - i,
    {
        if a[i].0 != b[i].0 || a[i].1 != b[i].1 {
            assert(a@[i as int] != b@[i as int]);
            return false;
        }
        i += 1;
    }
    assert(a@ =~= b@);
    true
}

/// Carries out commands.
pub struct CommandEventHandler;

impl CommandEventHandler {
    fn assigned_space_for_window(reactor: &Reactor, window_id: WindowId) -> (r: Option<SpaceId>)
        requires
            reactor.wf(),
        ensures
            r == reactor@.assigned_space(window_id),
    {
        let ghost f = |space: SpaceId| reactor@.engine.workspace_on(space, window_id) is Some;
        let mut i: usize = 0;
        while i < reactor.world.known_spaces.len()
            invariant
                reactor.wf(),
                i <= reactor.world.known_spaces@.len(),
                f == (|space: SpaceId|
                    reactor@.engine.workspace_on(space, window_id) is Some),
                first_space(reactor.world.known_spaces@, f, 0) == first_space(
                    reactor.world.known_spaces@,
                    f,
                    i as int,
                ),
            decreases reactor.world.known_spaces@.len() - i,
        {
            let space = reactor.world.known_spaces[i];
            if reactor.layout_engine.workspace_for_window(space, window_id).is_some() {
                return Some(space);
            }
            i += 1;
        }
        None
    }

    fn assigned_space_for_window_idx(reactor: &Reactor, window_idx: u32) -> (r: Option<SpaceId>)
        ensures
            r == reactor@.assigned_space_of_number(window_idx),
    {
        let ghost f = |space: SpaceId| reactor@.engine.numbered(space, window_idx, 0) is Some;
        let mut i: usize = 0;
        while i < reactor.world.known_spaces.len()
            invariant
                i <= reactor.world.known_spaces@.len(),
                f == (|space: SpaceId|
                    reactor@.engine.numbered(space, window_idx, 0) is Some),
                first_space(reactor.world.known_spaces@, f, 0) == first_space(
                    reactor.world.known_spaces@,
                    f,
                    i as int,
                ),
            decreases reactor.world.known_spaces@.len() - i,
        {
            let space = reactor.world.known_spaces[i];
            if reactor.layout_engine.find_window_by_idx(space, window_idx).is_some() {
                return Some(space);
            }
            i += 1;
        }
        None
    }

    pub fn handle_command(reactor: &mut Reactor, cmd: Command)
        requires
            old(reactor).wf(),
        ensures
            final(reactor).wf(),
            final(reactor)@ == after_command(old(reactor)@, cmd),
    {
        match cmd {
            Command::Layout(cmd) => Self::handle_command_layout(reactor, cmd),
            Command::Metrics(cmd) => Self::handle_command_metrics(reactor, cmd),
            Command::Reactor(cmd) => Self::handle_command_reactor(reactor, cmd),
        }
    }

    fn prepare_layout_command(reactor: &mut Reactor, cmd: LayoutCommand)
        requires
            old(reactor).wf(),
        ensures
            final(reactor).wf(),
            final(reactor)@ == before_layout_command(old(reactor)@, cmd),
    {
        let is_workspace_switch = matches!(
            cmd,
            LayoutCommand::NextWorkspace(_)
                | LayoutCommand::PrevWorkspace(_)
                | LayoutCommand::SwitchToWorkspace(_)
                | LayoutCommand::SwitchToLastWorkspace
        );
        let requires_workspace_space = is_workspace_switch || matches!(
            cmd,
            LayoutCommand::SetWorkspaceLayout { .. } | LayoutCommand::CreateWorkspace
        );
        if requires_workspace_space {
            if let Some(space) = reactor.workspace_command_space() {
                reactor.store_current_floating_positions(space);
                if is_workspace_switch {
                    reactor.save_cursor_for_workspace(space);
                }
            }
        }
        reactor.workspace_switch = if is_workspace_switch {
            Some(WorkspaceSwitchOrigin::Manual)
        } else {
            None
        };
    }

    /// The engine call that a command comes to.
    fn engine_call_for(reactor: &Reactor, cmd: LayoutCommand) -> (r: Option<Effect>)
        requires
            reactor.wf(),
        ensures
            match r {
                Some(effect) => engine_call(reactor@, cmd) == Some(effect@),
                None => engine_call(reactor@, cmd) is None,
            },
    {
        let command_space = reactor.workspace_command_space();
        match cmd {
            LayoutCommand::Other(_) => {
                let visible = reactor.visible_spaces_for_layout(false);
                Some(Effect::LayoutCommand { command_space, visible, command: cmd })
            },
            LayoutCommand::MoveWindowToWorkspace { workspace: _, window_id } => {
                let numbered = match window_id {
                    Some(window_idx) => Self::assigned_space_for_window_idx(reactor, window_idx),
                    None => None,
                };
                let op_space = match numbered {
                    Some(space) => Some(space),
                    None => command_space,
                };
                match op_space {
                    Some(space) => Some(Effect::WorkspaceCommand { space, command: cmd }),
                    None => None,
                }
            },
            _ => match command_space {
                Some(space) => Some(Effect::WorkspaceCommand { space, command: cmd }),
                None => None,
            },
        }
    }

    pub fn handle_command_layout(reactor: &mut Reactor, cmd: LayoutCommand)
        requires
            old(reactor).wf(),
        ensures
            final(reactor).wf(),
            final(reactor)@ == after_layout_command(old(reactor)@, cmd),
    {
        let requires_workspace_space = matches!(
            cmd,
            LayoutCommand::NextWorkspace(_)
                | LayoutCommand::PrevWorkspace(_)
                | LayoutCommand::SwitchToWorkspace(_)
                | LayoutCommand::SetWorkspaceLayout { .. }
                | LayoutCommand::CreateWorkspace
                | LayoutCommand::SwitchToLastWorkspace
        );
        let workspace_space = if requires_workspace_space {
            reactor.workspace_command_space()
        } else {
            None
        };
        let call = Self::engine_call_for(reactor, cmd);
        let nothing_visible = reactor.visible_spaces_for_layout(false).len() == 0;
        Self::prepare_layout_command(reactor, cmd);
        if matches!(cmd, LayoutCommand::Other(_)) && nothing_visible {
            return ;
        }
        let response = match call {
            Some(effect) => {
                reactor.send(effect);
                ResponseOf::EngineCall
            },
            None => ResponseOf::Nothing,
        };
        reactor.send(Effect::HandleLayoutResponse { response, workspace_space });
        if requires_workspace_space {
            reactor.send(Effect::UpdateEventTapLayoutMode);
        }
    }

    pub fn handle_command_metrics(reactor: &mut Reactor, cmd: MetricsCommand)
        ensures
            final(reactor)@ == sent(old(reactor)@, Effect::Metrics(cmd)),
            old(reactor).wf() ==> final(reactor).wf(),
    {
        reactor.send(Effect::Metrics(cmd));
    }

    pub fn handle_config_updated(reactor: &mut Reactor, new_cfg: Config)
        requires
            old(reactor).wf(),
        ensures
            final(reactor).wf(),
            final(reactor)@ == after_config_updated(old(reactor)@, new_cfg),
    {
        let keys_changed = !same_keys(&reactor.config.keys, &new_cfg.keys);
        reactor.config = new_cfg;
        reactor.send(Effect::SetLayoutSettings);
        reactor.send(Effect::UpdateVirtualWorkspaceSettings);
        reactor.send(Effect::UpdateDragConfig);
        if reactor.world.channels.stack_line {
            reactor.send(Effect::StackLineConfigUpdated);
        }
        if reactor.world.channels.menu_bar {
            reactor.send(Effect::MenuBarConfigUpdated);
        }
        reactor.send(Effect::UpdateLayout { is_resize: false, is_workspace_switch: true });
        assert(reactor@.outbox =~= old(reactor)@.outbox + config_effects(old(reactor)@));
        if keys_changed && reactor.world.channels.wm {
            reactor.send(Effect::WmConfigUpdated);
        }
    }

    pub fn handle_command_reactor_debug(reactor: &mut Reactor)
        requires
            old(reactor).wf(),
        ensures
            final(reactor).wf(),
            final(reactor)@ == after_reactor_command(old(reactor)@, ReactorCommand::Debug),
    {
        let mut effects: Vec<Effect> = Vec::new();
        let mut i: usize = 0;
        while i < reactor.world.screens.len()
            invariant
                *reactor == *old(reactor),
                i <= reactor.world.screens@.len(),
                effects_view(effects@) =~= debug_effects(reactor.world.screens@, i as int),
            decreases reactor.world.screens@.len() - i,
        {
            if let Some(space) = reactor.world.screens[i].space {
                effects.push(Effect::DebugTree(space));
            }
            i += 1;
        }
        let ghost trees = effects_view(effects@);
        reactor.outbox.append(&mut effects);
        assert(reactor@.outbox =~= old(reactor)@.outbox + trees);
    }

    pub fn handle_command_reactor(reactor: &mut Reactor, cmd: ReactorCommand)
        requires
            old(reactor).wf(),
        ensures
            final(reactor).wf(),
            final(reactor)@ == after_reactor_command(old(reactor)@, cmd),
    {
        match cmd {
            ReactorCommand::Debug => Self::handle_command_reactor_debug(reactor),
            ReactorCommand::Serialize => Self::handle_command_reactor_serialize(reactor),
            ReactorCommand::SaveAndExit => Self::handle_command_reactor_save_and_exit(reactor),
            ReactorCommand::SwitchSpace(direction) => reactor.send(Effect::SwitchSpace(direction)),
            ReactorCommand::ToggleSpaceActivated => {
                Self::handle_command_reactor_toggle_space_activated(reactor);
            },
            ReactorCommand::FocusWindow { window_id, window_server_id } => {
                Self::handle_command_reactor_focus_window(reactor, window_id, window_server_id);
            },
            ReactorCommand::ShowMissionControlAll => {
                reactor.send_wm_cmd(WmCmd::ShowMissionControlAll);
            },
            ReactorCommand::ShowMissionControlCurrent => {
                reactor.send_wm_cmd(WmCmd::ShowMissionControlCurrent);
            },
            ReactorCommand::DismissMissionControl => {
                if !reactor.send_wm_cmd(WmCmd::DismissMissionControl) {
                    reactor.set_mission_control_active(false);
                }
            },
            ReactorCommand::MoveMouseToDisplay(selector) => {
                Self::handle_command_reactor_move_mouse_to_display(reactor, &selector);
            },
            ReactorCommand::FocusDisplay(selector) => {
                Self::handle_command_reactor_focus_display(reactor, &selector);
            },
            ReactorCommand::CloseWindow { window_server_id } => {
                Self::handle_command_reactor_close_window(reactor, window_server_id);
            },
            ReactorCommand::MoveWindowToDisplay { selector, window_id } => {
                Self::handle_command_reactor_move_window_to_display(reactor, &selector, window_id);
            },
        }
    }

    pub fn handle_command_reactor_serialize(reactor: &mut Reactor)
        ensures
            final(reactor)@ == sent(old(reactor)@, Effect::PrintState),
            old(reactor).wf() ==> final(reactor).wf(),
    {
        reactor.send(Effect::PrintState);
    }

    pub fn handle_command_reactor_save_and_exit(reactor: &mut Reactor)
        ensures
            final(reactor)@ == sent(old(reactor)@, Effect::SaveLayoutAndExit),
            old(reactor).wf() ==> final(reactor).wf(),
    {
        reactor.send(Effect::SaveLayoutAndExit);
    }

    /// Status to exit with once the layout was saved, or could not be.
    pub fn exit_status_after_save(saved: bool) -> (status: i32)
        ensures
            status == save_exit_status(saved),
    {
        if saved {
            0
        } else {
            3
        }
    }

    pub fn handle_command_reactor_toggle_space_activated(reactor: &mut Reactor)
        requires
            old(reactor).wf(),
        ensures
            final(reactor).wf(),
            final(reactor)@ == after_toggle_space(old(reactor)@),
    {
        let focused_space = match reactor.space_for_cursor_screen() {
            Some(space) => Some(space),
            None => if reactor.world.known_spaces.len() > 0 {
                Some(reactor.world.known_spaces[0])
            } else {
                None
            },
        };
        if let Some(space) = focused_space {
            let config = SpaceActivationConfig {
                default_disable: reactor.config.default_disable,
                one_space: reactor.one_space,
            };
            let display_uuid = reactor.display_uuid_for_space(space);
            reactor.send(Effect::ToggleSpaceActivated { config, space, display_uuid });
            reactor.send(Effect::RecomputeActiveSpaces);
        }
    }

    pub fn handle_command_reactor_focus_window(
        reactor: &mut Reactor,
        window_id: WindowId,
        window_server_id: Option<WindowServerId>,
    )
        requires
            old(reactor).wf(),
        ensures
            final(reactor).wf(),
            final(reactor)@ == after_focus_window(old(reactor)@, window_id, window_server_id),
    {
        let known = match reactor.world.windows.get(&window_id) {
            Some(window) => Some((window.frame_monotonic, window.sys_id)),
            None => None,
        };
        if let Some((frame, sys_id)) = known {
            assert(reactor@.world.windows.dom().contains(window_id));
            let space = match reactor.best_space_for_window(&frame, sys_id) {
                Some(space) => space,
                None => return ,
            };
            if !reactor.is_space_active(space) {
                return ;
            }
            let app_known = reactor.app_known(window_id);
            reactor.send_layout_event(LayoutEvent::WindowFocused(space, window_id));
            reactor.send(
                Effect::RaiseWindow { window: window_id, app_known, quiet: false, warp: None },
            );
        } else if let Some(wsid) = window_server_id {
            reactor.send(Effect::MakeKeyWindow { pid: window_id.pid, window: wsid });
        }
    }

    /// Focus a window on a screen that shows `space`; says whether there was one.
    fn focus_first_window_on_screen(reactor: &mut Reactor, space: Option<SpaceId>) -> (found: bool)
        requires
            old(reactor).wf(),
        ensures
            final(reactor).wf(),
            found == (focus_target(old(reactor)@, space) is Some),
            final(reactor)@ == after_focus_screen(old(reactor)@, space),
    {
        if let Some(space) = space {
            let focus_target = match reactor.last_focused_window_in_space(space) {
                Some(window_id) => Some(window_id),
                None => {
                    let windows = reactor.layout_engine.windows_in_active_workspace(space);
                    if windows.len() > 0 {
                        Some(windows[0])
                    } else {
                        None
                    }
                },
            };
            if let Some(window_id) = focus_target {
                reactor.send_layout_event(LayoutEvent::WindowFocused(space, window_id));
                return true;
            }
        }
        false
    }

    /// Middle and space of the display that a command may go to.
    fn open_display_for(reactor: &Reactor, selector: &DisplaySelector) -> (r: Option<
        (CGPoint, Option<SpaceId>),
    >)
        requires
            reactor.wf(),
        ensures
            r == (match open_display(reactor@, *selector) {
                Some(screen) => Some((screen.frame.middle(), screen.space)),
                None => None,
            }),
    {
        proof {
            lemma_selected_screen(reactor@, *selector, None);
        }
        match reactor.screen_for_selector(selector, None) {
            Some(screen) => {
                if let Some(space) = screen.space {
                    if !reactor.is_space_active(space) {
                        return None;
                    }
                }
                Some((screen.frame.mid(), screen.space))
            },
            None => None,
        }
    }

    pub fn handle_command_reactor_move_mouse_to_display(
        reactor: &mut Reactor,
        selector: &DisplaySelector,
    )
        requires
            old(reactor).wf(),
        ensures
            final(reactor).wf(),
            final(reactor)@ == after_move_mouse(old(reactor)@, *selector),
    {
        if let Some((center, space)) = Self::open_display_for(reactor, selector) {
            reactor.warp_mouse(center);
            Self::focus_first_window_on_screen(reactor, space);
        }
    }

    pub fn handle_command_reactor_focus_display(reactor: &mut Reactor, selector: &DisplaySelector)
        requires
            old(reactor).wf(),
        ensures
            final(reactor).wf(),
            final(reactor)@ == after_focus_display(old(reactor)@, *selector),
    {
        if let Some((center, space)) = Self::open_display_for(reactor, selector) {
            if Self::focus_first_window_on_screen(reactor, space) {
                return ;
            }
            reactor.warp_mouse(center);
        }
    }

    /// The window that a move to a display is about.
    fn resolve_moved_window(reactor: &Reactor, window_idx: Option<u32>) -> (r: Option<WindowId>)
        requires
            reactor.wf(),
        ensures
            r == moved_window(reactor@, window_idx),
    {
        match window_idx {
            Some(idx) => {
                if let Some(space) = reactor.workspace_command_space() {
                    let found = reactor.layout_engine.find_window_by_idx(space, idx);
                    if found.is_some() {
                        return found;
                    }
                }
                Self::find_on_active_spaces(reactor, idx)
            },
            None => {
                if let Some(wid) = reactor.main_window() {
                    return Some(wid);
                }
                if let Some(wid) = reactor.window_id_under_cursor() {
                    return Some(wid);
                }
                match reactor.workspace_command_space() {
                    Some(space) => reactor.layout_engine.find_window_by_idx(space, 0),
                    None => None,
                }
            },
        }
    }

    fn find_on_active_spaces(reactor: &Reactor, idx: u32) -> (r: Option<WindowId>)
        ensures
            r == numbered_on_any(reactor@, reactor@.world.active_spaces, idx, 0),
    {
        let mut i: usize = 0;
        while i < reactor.world.active_spaces.items.len()
            invariant
                i <= reactor.world.active_spaces.items@.len(),
                numbered_on_any(reactor@, reactor@.world.active_spaces, idx, 0) == numbered_on_any(
                    reactor@,
                    reactor@.world.active_spaces,
                    idx,
                    i as int,
                ),
            decreases reactor.world.active_spaces.items@.len() - i,
        {
            let found = reactor.layout_engine.find_window_by_idx(
                reactor.world.active_spaces.items[i],
                idx,
            );
            if found.is_some() {
                return found;
            }
            i += 1;
        }
        None
    }

    /// The move that a command asks for, if it can be carried out.
    pub fn plan_display_move(
        reactor: &Reactor,
        selector: &DisplaySelector,
        window_idx: Option<u32>,
    ) -> (r: Option<DisplayMove>)
        requires
            reactor.wf(),
        ensures
            r == planned_move(reactor@, *selector, window_idx),
            r matches Some(p) ==> p.frame.reachable() && p.display.in_range(),
    {
        if reactor.world.in_drag {
            return None;
        }
        let window = match Self::resolve_moved_window(reactor, window_idx) {
            Some(window) => window,
            None => return None,
        };
        let (frame, window_server_id) = match reactor.world.windows.get(&window) {
            Some(state) => (state.frame_monotonic, state.sys_id),
            None => return None,
        };
        assert(reactor@.world.windows.dom().contains(window));
        let source = match Self::assigned_space_for_window(reactor, window) {
            Some(space) => space,
            None => match reactor.best_space_for_window(&frame, window_server_id) {
                Some(space) => space,
                None => return None,
            },
        };
        if !reactor.is_space_active(source) {
            return None;
        }
        proof {
            lemma_first_screen(reactor@.world.screens);
            lemma_move_origin(reactor@, source);
            lemma_selected_screen(reactor@, *selector, move_origin(reactor@, source));
        }
        let origin = match reactor.screen_by_space(source) {
            Some(screen) => Some(screen.frame.mid()),
            None => reactor.current_screen_center(),
        };
        let screen = match reactor.screen_for_selector(selector, origin) {
            Some(screen) => screen,
            None => return None,
        };
        let target = match screen.space {
            Some(space) => space,
            None => return None,
        };
        if !reactor.is_space_active(target) || target == source {
            return None;
        }
        Some(DisplayMove { window, window_server_id, frame, source, target, display: screen.frame })
    }

    /// The frame of a window centred on a display.
    fn centre_on(frame: CGRect, display: CGRect) -> (r: CGRect)
        requires
            frame.reachable(),
            display.in_range(),
        ensures
            r == centred_on(frame, display),
            r.reachable(),
    {
        let size = frame.size;
        let mid = display.mid();
        let min = display.min();
        let max = display.max();
        let x: i64 = min_i64(max_i64(mid.x - half(size.width), min.x), max.x - size.width);
        let y: i64 = min_i64(max_i64(mid.y - half(size.height), min.y), max.y - size.height);
        CGRect::new(CGPoint::new(x, y), size)
    }

    /// Seed the frame of a floating window on its new display. A tiled window
    /// gets its frame from the layout, and would only jump.
    fn seed_floating_frame(reactor: &mut Reactor, p: DisplayMove)
        requires
            old(reactor).wf(),
            p.frame.reachable(),
            p.display.in_range(),
        ensures
            final(reactor).wf(),
            final(reactor)@ == after_seeding(old(reactor)@, p),
    {
        if reactor.layout_engine.is_window_floating(p.window) {
            let frame = Self::centre_on(p.frame, p.display);
            if reactor.app_known(p.window) {
                reactor.send(
                    Effect::SetWindowFrame {
                        window: p.window,
                        frame,
                        transaction_for: p.window_server_id,
                        requested: true,
                    },
                );
            }
            reactor.set_window_frame(p.window, frame);
        }
    }

    /// Move the window in the engine, focus it there, lay out, and raise it to
    /// key, so that it stays focused on the new display.
    fn transfer_window(reactor: &mut Reactor, p: DisplayMove)
        requires
            old(reactor).wf(),
        ensures
            final(reactor).wf(),
            final(reactor)@ == after_transfer(old(reactor)@, p),
    {
        let app_known = reactor.app_known(p.window);
        reactor.send(
            Effect::MoveWindowToSpace {
                source: p.source,
                target: p.target,
                size: p.display.size,
                window: p.window,
            },
        );
        reactor.send_layout_event(LayoutEvent::WindowFocused(p.target, p.window));
        reactor.send(Effect::UpdateLayout { is_resize: false, is_workspace_switch: false });
        reactor.send(
            Effect::RaiseWindow { window: p.window, app_known, quiet: false, warp: None },
        );
    }

    /// Warp the cursor once the window has landed: warping now would land on a
    /// neighbour, as the move takes a while. The frame may have been clamped to
    /// the old display meanwhile, so the tile is asserted again, several times,
    /// since a single shot races the window's arrival.
    fn schedule_follow_up(reactor: &mut Reactor, p: DisplayMove)
        requires
            old(reactor).wf(),
            p.display.in_range(),
        ensures
            final(reactor).wf(),
            final(reactor)@ == after_follow_up(old(reactor)@, p),
    {
        let deadline = reactor.world.clock + Duration::from_nanos(DISPLAY_MOVE_DEADLINE_NS);
        reactor.pending_display_move_warp = Some(
            PendingWarp { window: p.window, display: p.display, deadline },
        );
        if let Some(wsid) = p.window_server_id {
            reactor.send(Effect::PokeBorder(wsid));
        }
        if !reactor.layout_engine.is_window_floating(p.window) && reactor.world.channels.events {
            let ghost before = reactor@;
            reactor.send(
                Effect::ScheduleReassert { window: p.window, delay_ms: REASSERT_DELAY_EARLY_MS },
            );
            reactor.send(
                Effect::ScheduleReassert { window: p.window, delay_ms: REASSERT_DELAY_MIDDLE_MS },
            );
            reactor.send(
                Effect::ScheduleReassert { window: p.window, delay_ms: REASSERT_DELAY_LATE_MS },
            );
            assert(reactor@ =~= sent_all(
                before,
                seq![
                    Effect::ScheduleReassert {
                        window: p.window,
                        delay_ms: REASSERT_DELAY_EARLY_MS,
                    },
                    Effect::ScheduleReassert {
                        window: p.window,
                        delay_ms: REASSERT_DELAY_MIDDLE_MS,
                    },
                    Effect::ScheduleReassert { window: p.window, delay_ms: REASSERT_DELAY_LATE_MS },
                ],
            ));
        }
    }

    pub fn handle_command_reactor_move_window_to_display(
        reactor: &mut Reactor,
        selector: &DisplaySelector,
        window_idx: Option<u32>,
    )
        requires
            old(reactor).wf(),
        ensures
            final(reactor).wf(),
            final(reactor)@ == after_move_to_display(old(reactor)@, *selector, window_idx),
    {
        if let Some(p) = Self::plan_display_move(reactor, selector, window_idx) {
            Self::seed_floating_frame(reactor, p);
            Self::transfer_window(reactor, p);
            Self::schedule_follow_up(reactor, p);
        }
    }

    /// Warp the cursor after a window that was moved to another display, once the
    /// window has landed there or the deadline has passed. Until then a warp would
    /// land on a neighbour.
    pub fn finish_display_move_warp(reactor: &mut Reactor)
        requires
            old(reactor).wf(),
        ensures
            final(reactor).wf(),
            final(reactor)@ == after_landing_check(old(reactor)@),
    {
        let pending = match reactor.pending_display_move_warp {
            Some(pending) => pending,
            None => return ,
        };
        let middle = match reactor.world.windows.get(&pending.window) {
            Some(state) => {
                assert(reactor@.world.windows.dom().contains(pending.window));
                Some(state.frame_monotonic.mid())
            },
            None => None,
        };
        let settled = match middle {
            Some(p) => pending.display.contains(p),
            None => true,
        };
        if settled || reactor.world.clock.nanos >= pending.deadline.nanos {
            let target = match middle {
                Some(p) => if reactor.screen_for_point(p).is_some() {
                    Some(p)
                } else {
                    None
                },
                None => None,
            };
            reactor.pending_display_move_warp = None;
            if let Some(p) = target {
                if reactor.world.channels.event_tap {
                    reactor.send(Effect::WarpMouseSilent(p));
                }
            }
        }
    }

    /// Force a corrective re-tile after a move to another display.
    ///
    /// The move's frame may have been clamped while the frame held here still
    /// reads as requested, so that every later re-tile is skipped as redundant.
    /// Holding the frame that the window server reports instead makes the layout
    /// send the true frame again; where it is right already, nothing moves.
    #[verifier::spinoff_prover]
    pub fn handle_reassert_display_move(reactor: &mut Reactor, window_id: WindowId)
        requires
            old(reactor).wf(),
        ensures
            final(reactor).wf(),
            final(reactor)@ == after_reassert(old(reactor)@, window_id),
    {
        let wsid = match reactor.world.windows.get(&window_id) {
            Some(window) => match window.sys_id {
                Some(wsid) => wsid,
                None => return ,
            },
            None => return ,
        };
        reactor.hold_reported_frame(window_id, wsid);
        reactor.clear_target_for_window(wsid);
        reactor.send(Effect::UpdateLayout { is_resize: false, is_workspace_switch: false });
    }

    pub fn handle_command_reactor_close_window(
        reactor: &mut Reactor,
        window_server_id: Option<WindowServerId>,
    )
        requires
            old(reactor).wf(),
        ensures
            final(reactor).wf(),
            final(reactor)@ == after_close_window(old(reactor)@, window_server_id),
    {
        let named = match window_server_id {
            Some(wsid) => match reactor.world.window_ids.get(&wsid) {
                Some(wid) => Some(*wid),
                None => None,
            },
            None => None,
        };
        let target = match named {
            Some(wid) => Some(wid),
            None => reactor.main_window(),
        };
        if let Some(wid) = target {
            reactor.send(Effect::CloseWindow(wid));
        }
    }
}

/// A display that a selector finds is one of the screens, so it is in range.
proof fn lemma_selected_screen(m: ReactorModel, selector: DisplaySelector, origin: Option<CGPoint>)
    requires
        m.world.measurable(),
    ensures
        m.selected_screen(selector, origin) matches Some(screen) ==> screen.frame.in_range(),
{
    let screens = m.world.screens;
    lemma_first_screen(screens);
    match selector {
        DisplaySelector::Direction(direction) => {
            if let Some(at) = or(origin, m.current_centre()) {
                crate::actor::reactor::lemma_nearest_screen(
                    screens,
                    at,
                    direction,
                    screens.len() as int,
                );
            }
        },
        DisplaySelector::Index(index) => {
            lemma_physical_order(screens, screens.len() as int);
        },
        DisplaySelector::Uuid(uuid) => {},
    }
}

proof fn lemma_move_origin(m: ReactorModel, source: SpaceId)
    requires
        m.world.measurable(),
    ensures
        move_origin(m, source) matches Some(p) ==> p.within(4 * COORD_LIMIT),
{
    lemma_first_screen(m.world.screens);
    crate::actor::reactor::lemma_centre_in_range(m);
}

// ---------------------------------------------------------------------------
// Laws
// ---------------------------------------------------------------------------

/// A window is only moved between two different active spaces, while nothing is
/// dragged, and it is a known window.
pub proof fn law_moves_are_between_active_spaces(
    m: ReactorModel,
    selector: DisplaySelector,
    window_idx: Option<u32>,
)
    ensures
        planned_move(m, selector, window_idx) matches Some(p) ==> {
            &&& !m.world.in_drag
            &&& p.source != p.target
            &&& m.space_active(p.source)
            &&& m.space_active(p.target)
            &&& m.world.windows.dom().contains(p.window)
            &&& m.world.windows[p.window].frame_monotonic == p.frame
            &&& m.world.windows[p.window].sys_id == p.window_server_id
        },
{
}

/// A move that cannot be carried out changes nothing and asks for nothing; in
/// particular none is carried out during a drag.
pub proof fn law_refused_moves_change_nothing(
    m: ReactorModel,
    selector: DisplaySelector,
    window_idx: Option<u32>,
)
    requires
        m.world.in_drag || planned_move(m, selector, window_idx) is None,
    ensures
        after_move_to_display(m, selector, window_idx) == m,
{
}

/// What a move of a tiled window asks for, in order. Its frame is left to the
/// layout, and its tile is asserted again three times.
pub proof fn law_tiled_move_effects(
    m: ReactorModel,
    selector: DisplaySelector,
    window_idx: Option<u32>,
    p: DisplayMove,
)
    requires
        planned_move(m, selector, window_idx) == Some(p),
        !m.engine.floating.contains(p.window),
    ensures
        after_move_to_display(m, selector, window_idx).world == m.world,
        after_move_to_display(m, selector, window_idx).outbox == m.outbox + seq![
            Effect::MoveWindowToSpace {
                source: p.source,
                target: p.target,
                size: p.display.size,
                window: p.window,
            },
            Effect::LayoutEvent(LayoutEvent::WindowFocused(p.target, p.window)),
            Effect::UpdateLayout { is_resize: false, is_workspace_switch: false },
            Effect::RaiseWindow {
                window: p.window,
                app_known: m.world.apps.dom().contains(p.window.pid),
                quiet: false,
                warp: None,
            },
        ] + (match p.window_server_id {
            Some(wsid) => seq![Effect::PokeBorder(wsid)],
            None => Seq::empty(),
        }) + (if m.world.channels.events {
            seq![
                Effect::ScheduleReassert { window: p.window, delay_ms: REASSERT_DELAY_EARLY_MS },
                Effect::ScheduleReassert { window: p.window, delay_ms: REASSERT_DELAY_MIDDLE_MS },
                Effect::ScheduleReassert { window: p.window, delay_ms: REASSERT_DELAY_LATE_MS },
            ]
        } else {
            Seq::empty()
        }),
{
}

/// What a move of a floating window asks for, in order. Its new frame is written
/// before the engine moves it, and nothing is asserted again.
pub proof fn law_floating_move_effects(
    m: ReactorModel,
    selector: DisplaySelector,
    window_idx: Option<u32>,
    p: DisplayMove,
)
    requires
        planned_move(m, selector, window_idx) == Some(p),
        m.engine.floating.contains(p.window),
    ensures
        after_move_to_display(m, selector, window_idx).world.windows[p.window].frame_monotonic
            == centred_on(p.frame, p.display),
        after_move_to_display(m, selector, window_idx).outbox == m.outbox + (
        if m.world.apps.dom().contains(p.window.pid) {
            seq![
                Effect::SetWindowFrame {
                    window: p.window,
                    frame: centred_on(p.frame, p.display),
                    transaction_for: p.window_server_id,
                    requested: true,
                },
            ]
        } else {
            Seq::empty()
        }) + seq![
            Effect::MoveWindowToSpace {
                source: p.source,
                target: p.target,
                size: p.display.size,
                window: p.window,
            },
            Effect::LayoutEvent(LayoutEvent::WindowFocused(p.target, p.window)),
            Effect::UpdateLayout { is_resize: false, is_workspace_switch: false },
            Effect::RaiseWindow {
                window: p.window,
                app_known: m.world.apps.dom().contains(p.window.pid),
                quiet: false,
                warp: None,
            },
        ] + (match p.window_server_id {
            Some(wsid) => seq![Effect::PokeBorder(wsid)],
            None => Seq::empty(),
        }),
{
}

/// A window no larger than the display lies wholly on it once centred, and keeps
/// its size.
pub proof fn law_centred_window_lies_on_the_display(frame: CGRect, display: CGRect)
    requires
        frame.reachable(),
        display.in_range(),
        0 <= frame.size.width <= display.size.width,
        0 <= frame.size.height <= display.size.height,
    ensures
        centred_on(frame, display).size == frame.size,
        display.min_x() <= centred_on(frame, display).min_x(),
        centred_on(frame, display).max_x() <= display.max_x(),
        display.min_y() <= centred_on(frame, display).min_y(),
        centred_on(frame, display).max_y() <= display.max_y(),
{
}

/// Asserting a tile again, with nothing in between, only runs the layout once
/// more.
pub proof fn law_reassert_is_idempotent(m: ReactorModel, window_id: WindowId)
    ensures
        after_reassert(after_reassert(m, window_id), window_id) == after_reassert(m, window_id)
            || after_reassert(after_reassert(m, window_id), window_id) == sent(
            after_reassert(m, window_id),
            Effect::UpdateLayout { is_resize: false, is_workspace_switch: false },
        ),
{
    let once = after_reassert(m, window_id);
    let twice = after_reassert(once, window_id);
    if let Some(window) = lookup(m.world.windows, window_id) {
        if let Some(wsid) = window.sys_id {
            assert(twice.world.windows =~= once.world.windows);
            assert(twice.world.target_frames =~= once.world.target_frames);
            assert(twice.world =~= once.world);
            assert(twice =~= sent(
                once,
                Effect::UpdateLayout { is_resize: false, is_workspace_switch: false },
            ));
        }
    }
}

/// The cursor never warps after a moved window before the window has landed,
/// unless its time is up, and it warps at most once.
pub proof fn law_warp_waits_for_the_landing(m: ReactorModel)
    ensures
        m.pending_warp matches Some(pending) ==> (!has_landed(m, pending)
            && m.world.clock.nanos < pending.deadline.nanos ==> after_landing_check(m) == m),
        after_landing_check(after_landing_check(m)) == after_landing_check(m),
{
}

/// A later move takes the place of one that has not landed yet.
pub proof fn law_a_later_move_replaces_the_warp(
    m: ReactorModel,
    selector: DisplaySelector,
    window_idx: Option<u32>,
    p: DisplayMove,
)
    requires
        planned_move(m, selector, window_idx) == Some(p),
    ensures
        after_move_to_display(m, selector, window_idx).pending_warp matches Some(pending)
            && pending.window == p.window && pending.display == p.display,
{
}

/// A frame asserted again is never invented: it is the one that the window server
/// reports, or the one held before.
pub proof fn law_reassert_uses_the_reported_frame(m: ReactorModel, window_id: WindowId)
    requires
        m.world.windows.dom().contains(window_id),
    ensures
        ({
            let frame = after_reassert(m, window_id).world.windows[window_id].frame_monotonic;
            ||| frame == m.world.windows[window_id].frame_monotonic
            ||| m.world.windows[window_id].sys_id matches Some(wsid) && lookup(
                m.world.server_frames,
                wsid,
            ) == Some(frame)
        }),
{
}

/// The outbox of `a` is the front of that of `b`.
pub open spec fn extends(a: ReactorModel, b: ReactorModel) -> bool {
    a.outbox.len() <= b.outbox.len() && forall|i: int|
        0 <= i < a.outbox.len() ==> b.outbox[i] == #[trigger] a.outbox[i]
}

/// A command leaves the engine's state to the effects, and only adds to the work
/// not yet done.
pub proof fn law_commands_only_add_effects(m: ReactorModel, command: Command)
    ensures
        after_command(m, command).engine == m.engine,
        extends(m, after_command(m, command)),
{
    let after = after_command(m, command);
    match command {
        Command::Layout(command) => {
            lemma_layout_command_extends(m, command);
        },
        Command::Metrics(_) => {
            assert(extends(m, after));
        },
        Command::Reactor(command) => {
            lemma_reactor_command_extends(m, command);
        },
    }
}

proof fn lemma_layout_command_extends(m: ReactorModel, command: LayoutCommand)
    ensures
        after_layout_command(m, command).engine == m.engine,
        extends(m, after_layout_command(m, command)),
{
    assert(extends(m, before_layout_command(m, command)));
}

/// A command to the reactor leaves the engine alone and only adds effects.
spec fn only_adds(m: ReactorModel, after: ReactorModel) -> bool {
    after.engine == m.engine && extends(m, after)
}

#[verifier::spinoff_prover]
proof fn lemma_reactor_command_extends(m: ReactorModel, command: ReactorCommand)
    ensures
        after_reactor_command(m, command).engine == m.engine,
        extends(m, after_reactor_command(m, command)),
{
    let after = after_reactor_command(m, command);
    assert(only_adds(m, after)) by {
        match command {
            ReactorCommand::Debug => {
                let trees = debug_effects(m.world.screens, m.world.screens.len() as int);
                lemma_sent_all_extends(m, trees);
            },
            ReactorCommand::Serialize => lemma_sent_extends(m, Effect::PrintState),
            ReactorCommand::SaveAndExit => lemma_sent_extends(m, Effect::SaveLayoutAndExit),
            ReactorCommand::SwitchSpace(direction) => lemma_sent_extends(
                m,
                Effect::SwitchSpace(direction),
            ),
            ReactorCommand::ToggleSpaceActivated => lemma_toggle_extends(m),
            ReactorCommand::FocusWindow { window_id, window_server_id } => {
                lemma_focus_window_extends(m, window_id, window_server_id);
            },
            ReactorCommand::ShowMissionControlAll => lemma_sent_extends(
                m,
                Effect::WmCommand(WmCmd::ShowMissionControlAll),
            ),
            ReactorCommand::ShowMissionControlCurrent => lemma_sent_extends(
                m,
                Effect::WmCommand(WmCmd::ShowMissionControlCurrent),
            ),
            ReactorCommand::DismissMissionControl => {
                lemma_sent_extends(m, Effect::WmCommand(WmCmd::DismissMissionControl));
                lemma_mission_control_extends(m, false);
            },
            ReactorCommand::MoveMouseToDisplay(selector) => {
                lemma_display_command_extends(m, selector);
            },
            ReactorCommand::FocusDisplay(selector) => {
                lemma_display_command_extends(m, selector);
            },
            ReactorCommand::CloseWindow { window_server_id } => {
                lemma_close_extends(m, window_server_id);
            },
            ReactorCommand::MoveWindowToDisplay { selector, window_id } => {
                lemma_move_extends(m, selector, window_id);
            },
        }
    }
}

proof fn lemma_sent_extends(m: ReactorModel, effect: EffectModel)
    ensures
        only_adds(m, m),
        only_adds(m, sent(m, effect)),
{
}

proof fn lemma_sent_all_extends(m: ReactorModel, effects: Seq<EffectModel>)
    ensures
        only_adds(m, sent_all(m, effects)),
{
}

proof fn lemma_toggle_extends(m: ReactorModel)
    ensures
        only_adds(m, after_toggle_space(m)),
{
}

proof fn lemma_mission_control_extends(m: ReactorModel, active: bool)
    ensures
        only_adds(m, after_mission_control(m, active)),
{
}

proof fn lemma_close_extends(m: ReactorModel, window_server_id: Option<WindowServerId>)
    ensures
        only_adds(m, after_close_window(m, window_server_id)),
{
}

proof fn lemma_layout_event_extends(m: ReactorModel, event: LayoutEvent)
    ensures
        only_adds(m, after_layout_event(m, event)),
{
}

proof fn lemma_focus_window_extends(
    m: ReactorModel,
    window_id: WindowId,
    window_server_id: Option<WindowServerId>,
)
    ensures
        only_adds(m, after_focus_window(m, window_id, window_server_id)),
{
    if let Some(window) = lookup(m.world.windows, window_id) {
        if let Some(space) = m.best_space(window.frame_monotonic, window.sys_id) {
            lemma_layout_event_extends(m, LayoutEvent::WindowFocused(space, window_id));
        }
    }
}

proof fn lemma_focus_screen_extends(m: ReactorModel, space: Option<SpaceId>)
    ensures
        only_adds(m, after_focus_screen(m, space)),
{
    if let Some((on, wid)) = focus_target(m, space) {
        lemma_layout_event_extends(m, LayoutEvent::WindowFocused(on, wid));
    }
}

proof fn lemma_display_command_extends(m: ReactorModel, selector: DisplaySelector)
    ensures
        only_adds(m, after_move_mouse(m, selector)),
        only_adds(m, after_focus_display(m, selector)),
{
    if let Some(screen) = open_display(m, selector) {
        let warped = after_warp_to(m, screen.frame.middle());
        assert(extends(m, warped));
        lemma_focus_screen_extends(warped, screen.space);
        lemma_focus_screen_extends(m, screen.space);
    }
}

proof fn lemma_move_extends(m: ReactorModel, selector: DisplaySelector, window_idx: Option<u32>)
    ensures
        only_adds(m, after_move_to_display(m, selector, window_idx)),
{
    if let Some(p) = planned_move(m, selector, window_idx) {
        let seeded = after_seeding(m, p);
        assert(extends(m, seeded));
        lemma_transfer_extends(seeded, p);
        lemma_follow_up_extends(after_transfer(seeded, p), p);
    }
}

proof fn lemma_transfer_extends(m: ReactorModel, p: DisplayMove)
    ensures
        only_adds(m, after_transfer(m, p)),
{
}

proof fn lemma_follow_up_extends(m: ReactorModel, p: DisplayMove)
    ensures
        only_adds(m, after_follow_up(m, p)),
{
}

proof fn lemma_place_among(ordered: Seq<(SpaceId, CGPoint)>, at: CGPoint, from: int)
    requires
        0 <= from <= ordered.len(),
    ensures
        from <= place_among(ordered, at, from) <= ordered.len(),
        forall|k: int|
            from <= k < place_among(ordered, at, from) ==> !point_before(
                at,
                (#[trigger] ordered[k]).1,
            ),
        place_among(ordered, at, from) < ordered.len() ==> point_before(
            at,
            ordered[place_among(ordered, at, from)].1,
        ),
    decreases ordered.len() - from,
{
    if from < ordered.len() && !point_before(at, ordered[from].1) {
        lemma_place_among(ordered, at, from + 1);
    }
}

/// Ordering spaces keeps all of them and adds none, and none stands before an
/// earlier one.
pub proof fn law_spaces_are_ordered_by_position(spaces: Seq<(SpaceId, CGPoint)>)
    ensures
        ordered_by_position(spaces).len() == spaces.len(),
        ordered_by_position(spaces).to_multiset() =~= spaces.to_multiset(),
        forall|i: int, j: int|
            0 <= i < j < ordered_by_position(spaces).len() ==> !point_before(
                (#[trigger] ordered_by_position(spaces)[j]).1,
                (#[trigger] ordered_by_position(spaces)[i]).1,
            ),
    decreases spaces.len(),
{
    if spaces.len() > 0 {
        let fewer = spaces.drop_last();
        let before = ordered_by_position(fewer);
        let last = spaces.last();
        law_spaces_are_ordered_by_position(fewer);
        lemma_place_among(before, last.1, 0);
        let at = place_among(before, last.1, 0);
        let next = ordered_by_position(spaces);
        assert forall|i: int, j: int| 0 <= i < j < next.len() implies !point_before(
            (#[trigger] next[j]).1,
            (#[trigger] next[i]).1,
        ) by {
            let i0 = if i < at { i } else { i - 1 };
            let j0 = if j < at { j } else { j - 1 };
            if i == at {
                assert(next[j] == before[j0]);
                if j0 > at {
                    assert(!point_before(before[j0].1, before[at].1));
                }
            } else if j == at {
                assert(next[i] == before[i]);
            } else {
                assert(next[i] == before[i0]);
                assert(next[j] == before[j0]);
            }
        }
        assert(spaces =~= fewer.push(last));
        vstd::seq_lib::to_multiset_build(fewer, last);
        vstd::seq_lib::to_multiset_insert(before, at, last);
    } else {
        assert(ordered_by_position(spaces) =~= spaces);
    }
}

/// A workspace switch remembers where the cursor was in the workspace it leaves.
pub proof fn law_switch_remembers_the_cursor(
    m: ReactorModel,
    command: LayoutCommand,
    space: SpaceId,
    point: CGPoint,
)
    requires
        switches_workspace(command),
        m.command_target() == Some(space),
        m.engine.active_workspace_of(space) is Some,
        m.world.cursor == Some(point),
    ensures
        ({
            let key = WorkspaceKey { space, workspace: m.engine.active_workspace_of(space)->0 };
            after_layout_command(m, command).cursors == m.cursors.insert(key, point)
        }),
        after_layout_command(m, command).workspace_switch == Some(WorkspaceSwitchOrigin::Manual),
{
}

} // verus!
