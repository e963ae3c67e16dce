//! The reactor: what it mirrors of the desktop, and the questions asked of it.
//!
//! The reactor holds plain values only. Samples of the window server (the cursor,
//! the window under it, the live space of a window, the clock) are fields that
//! the driver refreshes before it hands an event in; what has to be done outside
//! is appended to the outbox as an [`Effect`], in order.

use vstd::prelude::*;

pub mod border;
pub mod command;
pub mod command_laws;
pub mod persistence;
pub mod persistence_laws;
pub mod world_laws;

use crate::actor::event_tap::WmCommand;
use crate::actor::reactor::persistence::{PersistenceModel, PersistenceState};
use crate::collections::{Key, VecMap, VecSet};
use crate::common::time::Instant;
use crate::ids::{pid_t, SpaceId, VirtualWorkspaceId, WindowId, WindowServerId};
use crate::layout_engine::engine::{EngineModel, LayoutEngine};
use crate::sys::geometry::{CGPoint, CGRect, CGRectExt, CGSize, PX};
use crate::sys::hotkey::Hotkey;

verus! {

#[derive(Debug, Clone, Copy, PartialEq, Eq, Structural)]
pub enum Direction {
    Left,
    Right,
    Up,
    Down,
}

/// How a display is named in a command.
#[derive(Debug, PartialEq, Eq)]
pub enum DisplaySelector {
    Direction(Direction),
    /// Position in physical order.
    Index(usize),
    Uuid(String),
}

/// A connected screen.
#[derive(Debug, PartialEq, Eq)]
pub struct ScreenInfo {
    pub frame: CGRect,
    /// The space it shows.
    pub space: Option<SpaceId>,
    /// Empty where the display has none.
    pub display_uuid: String,
}

/// What is known of a window.
#[derive(Debug, PartialEq, Eq)]
pub struct WindowState {
    /// The frame last requested or reported.
    pub frame_monotonic: CGRect,
    pub sys_id: Option<WindowServerId>,
    pub title: String,
    pub ax_role: Option<String>,
    pub bundle_id: Option<String>,
}

/// What is known of a running application.
#[derive(Debug, PartialEq, Eq)]
pub struct AppState {
    pub bundle_id: Option<String>,
}

/// The settings that the reactor itself reads.
#[derive(Debug)]
pub struct Config {
    pub keys: Vec<(Hotkey, WmCommand)>,
    pub focus_follows_mouse: bool,
    pub default_disable: bool,
}

/// Which of the optional channels are connected.
#[derive(Debug, Clone, Copy, PartialEq, Eq, Structural)]
pub struct Channels {
    pub event_tap: bool,
    pub stack_line: bool,
    pub menu_bar: bool,
    pub wm: bool,
    pub events: bool,
}

#[derive(Debug, Clone, Copy, PartialEq, Eq, Structural)]
pub enum WorkspaceSwitchOrigin {
    Manual,
    Auto,
}

/// What the activation policy is asked with.
#[derive(Debug, Clone, Copy, PartialEq, Eq, Structural)]
pub struct SpaceActivationConfig {
    pub default_disable: bool,
    pub one_space: bool,
}

/// A command to the layout engine.
#[allow(inconsistent_fields)]
#[derive(Debug, Clone, Copy, PartialEq, Eq, Structural)]
pub enum LayoutCommand {
    NextWorkspace(Option<bool>),
    PrevWorkspace(Option<bool>),
    SwitchToWorkspace(usize),
    SetWorkspaceLayout { workspace: Option<usize>, scrolling: bool },
    CreateWorkspace,
    SwitchToLastWorkspace,
    MoveWindowToWorkspace { workspace: usize, window_id: Option<u32> },
    /// Any command that works on the windows of a space, by its number.
    Other(u64),
}

/// A command to the metrics log, by its number.
#[derive(Debug, Clone, Copy, PartialEq, Eq, Structural)]
pub struct MetricsCommand {
    pub id: u64,
}

/// A command to the reactor.
#[allow(inconsistent_fields)]
#[derive(Debug)]
pub enum ReactorCommand {
    Debug,
    Serialize,
    SaveAndExit,
    SwitchSpace(Direction),
    ToggleSpaceActivated,
    FocusWindow { window_id: WindowId, window_server_id: Option<WindowServerId> },
    ShowMissionControlAll,
    ShowMissionControlCurrent,
    DismissMissionControl,
    MoveMouseToDisplay(DisplaySelector),
    FocusDisplay(DisplaySelector),
    CloseWindow { window_server_id: Option<WindowServerId> },
    MoveWindowToDisplay { selector: DisplaySelector, window_id: Option<u32> },
}

#[derive(Debug)]
pub enum Command {
    Layout(LayoutCommand),
    Metrics(MetricsCommand),
    Reactor(ReactorCommand),
}

/// An event for the layout engine.
#[derive(Debug, Clone, Copy, PartialEq, Eq, Structural)]
pub enum LayoutEvent {
    WindowFocused(SpaceId, WindowId),
}

/// A command for the window manager controller.
#[derive(Debug, Clone, Copy, PartialEq, Eq, Structural)]
pub enum WmCmd {
    ShowMissionControlAll,
    ShowMissionControlCurrent,
    DismissMissionControl,
}

/// Which response is meant.
#[derive(Debug, Clone, Copy, PartialEq, Eq, Structural)]
pub enum ResponseOf {
    /// That of the engine call just asked for.
    EngineCall,
    /// The empty one: no engine call was made.
    Nothing,
}

/// Work for the driver, in the order in which it is to be done. `S` is how a list
/// of spaces is held: a vector, or a sequence where the effect is spoken of as a
/// mathematical value.
#[allow(inconsistent_fields)]
#[derive(Debug, PartialEq, Eq)]
pub enum Effect<S = Vec<(SpaceId, CGPoint)>> {
    /// Hand an event to the engine and handle its response.
    LayoutEvent(LayoutEvent),
    /// Hand a workspace command to the engine.
    WorkspaceCommand { space: SpaceId, command: LayoutCommand },
    /// Hand any other command to the engine, with the visible spaces and the
    /// middle of the screen of each.
    LayoutCommand { command_space: Option<SpaceId>, visible: S, command: LayoutCommand },
    HandleLayoutResponse { response: ResponseOf, workspace_space: Option<SpaceId> },
    UpdateEventTapLayoutMode,
    StoreFloatingPosition { space: SpaceId, window: WindowId, frame: CGRect },
    Metrics(MetricsCommand),
    SetLayoutSettings,
    UpdateVirtualWorkspaceSettings,
    UpdateDragConfig,
    StackLineConfigUpdated,
    MenuBarConfigUpdated,
    WmConfigUpdated,
    UpdateLayout { is_resize: bool, is_workspace_switch: bool },
    DebugTree(SpaceId),
    PrintState,
    SaveLayoutAndExit,
    SwitchSpace(Direction),
    WmCommand(WmCmd),
    ToggleSpaceActivated {
        config: SpaceActivationConfig,
        space: SpaceId,
        display_uuid: Option<String>,
    },
    RecomputeActiveSpaces,
    /// Raise and focus a window; its application's handle goes along where the
    /// application is known.
    /// A quiet raise switches no workspace; `warp` is where the cursor goes with it.
    /// Commands raise neither quietly nor with a warp point.
    RaiseWindow { window: WindowId, app_known: bool, quiet: bool, warp: Option<CGPoint> },
    MakeKeyWindow { pid: pid_t, window: WindowServerId },
    WarpMouse(CGPoint),
    /// Warp without a synthetic move, so that focus is not decided again.
    WarpMouseSilent(CGPoint),
    SetFocusFollowsMouse(bool),
    /// Ask the application for a frame, under a new transaction of the given
    /// window where there is one; `requested` marks the frame as asked for.
    SetWindowFrame {
        window: WindowId,
        frame: CGRect,
        transaction_for: Option<WindowServerId>,
        requested: bool,
    },
    /// Move a window between spaces in the engine and handle the response.
    MoveWindowToSpace { source: SpaceId, target: SpaceId, size: CGSize, window: WindowId },
    PokeBorder(WindowServerId),
    ScheduleReassert { window: WindowId, delay_ms: u64 },
    CloseWindow(WindowId),
    /// Give a restored engine the current settings.
    RehydrateEngine,
    /// Read the snapshot file, hand it to [`Reactor::flush_snapshot`], write what
    /// comes back.
    FlushSnapshot,
}

/// [`Effect`] as a mathematical value.
pub type EffectModel = Effect<Seq<(SpaceId, CGPoint)>>;

impl View for Effect {
    type V = EffectModel;

    open spec fn view(&self) -> EffectModel {
        match *self {
            Effect::LayoutEvent(x) => Effect::LayoutEvent(x),
            Effect::WorkspaceCommand { space, command } => Effect::WorkspaceCommand {
                space,
                command,
            },
            Effect::LayoutCommand { command_space, visible, command } => Effect::LayoutCommand {
                command_space,
                visible: visible@,
                command,
            },
            Effect::HandleLayoutResponse { response, workspace_space } => Effect::HandleLayoutResponse {
                response,
                workspace_space,
            },
            Effect::UpdateEventTapLayoutMode => Effect::UpdateEventTapLayoutMode,
            Effect::StoreFloatingPosition { space, window, frame } => Effect::StoreFloatingPosition {
                space,
                window,
                frame,
            },
            Effect::Metrics(x) => Effect::Metrics(x),
            Effect::SetLayoutSettings => Effect::SetLayoutSettings,
            Effect::UpdateVirtualWorkspaceSettings => Effect::UpdateVirtualWorkspaceSettings,
            Effect::UpdateDragConfig => Effect::UpdateDragConfig,
            Effect::StackLineConfigUpdated => Effect::StackLineConfigUpdated,
            Effect::MenuBarConfigUpdated => Effect::MenuBarConfigUpdated,
            Effect::WmConfigUpdated => Effect::WmConfigUpdated,
            Effect::UpdateLayout { is_resize, is_workspace_switch } => Effect::UpdateLayout {
                is_resize,
                is_workspace_switch,
            },
            Effect::DebugTree(x) => Effect::DebugTree(x),
            Effect::PrintState => Effect::PrintState,
            Effect::SaveLayoutAndExit => Effect::SaveLayoutAndExit,
            Effect::SwitchSpace(x) => Effect::SwitchSpace(x),
            Effect::WmCommand(x) => Effect::WmCommand(x),
            Effect::ToggleSpaceActivated { config, space, display_uuid } => Effect::ToggleSpaceActivated {
                config,
                space,
                display_uuid,
            },
            Effect::RecomputeActiveSpaces => Effect::RecomputeActiveSpaces,
            Effect::RaiseWindow { window, app_known, quiet, warp } => Effect::RaiseWindow {
                window,
                app_known,
                quiet,
                warp,
            },
            Effect::MakeKeyWindow { pid, window } => Effect::MakeKeyWindow { pid, window },
            Effect::WarpMouse(x) => Effect::WarpMouse(x),
            Effect::WarpMouseSilent(x) => Effect::WarpMouseSilent(x),
            Effect::SetFocusFollowsMouse(x) => Effect::SetFocusFollowsMouse(x),
            Effect::SetWindowFrame { window, frame, transaction_for, requested } => {
                Effect::SetWindowFrame { window, frame, transaction_for, requested }
            },
            Effect::MoveWindowToSpace { source, target, size, window } => Effect::MoveWindowToSpace {
                source,
                target,
                size,
                window,
            },
            Effect::PokeBorder(x) => Effect::PokeBorder(x),
            Effect::ScheduleReassert { window, delay_ms } => Effect::ScheduleReassert {
                window,
                delay_ms,
            },
            Effect::CloseWindow(x) => Effect::CloseWindow(x),
            Effect::RehydrateEngine => Effect::RehydrateEngine,
            Effect::FlushSnapshot => Effect::FlushSnapshot,
        }
    }
}

/// A list of effects as mathematical values.
pub open spec fn effects_view(effects: Seq<Effect>) -> Seq<EffectModel> {
    effects.map_values(|e: Effect| e@)
}

/// A workspace on a space.
#[derive(Debug, Clone, Copy, PartialEq, Eq, Structural)]
pub struct WorkspaceKey {
    pub space: SpaceId,
    pub workspace: VirtualWorkspaceId,
}

impl View for WorkspaceKey {
    type V = WorkspaceKey;

    open spec fn view(&self) -> WorkspaceKey {
        *self
    }
}

impl Key for WorkspaceKey {
    fn same(&self, other: &Self) -> (b: bool) {
        *self == *other
    }
}

/// A cursor warp to do once a moved window has landed on its display.
#[derive(Debug, Clone, Copy, PartialEq, Eq, Structural)]
pub struct PendingWarp {
    pub window: WindowId,
    pub display: CGRect,
    pub deadline: Instant,
}

/// The desktop as last seen.
#[derive(Debug)]
pub struct World {
    pub screens: Vec<ScreenInfo>,
    pub known_spaces: Vec<SpaceId>,
    /// Spaces that the system shows.
    pub shown_spaces: VecSet<SpaceId>,
    /// Spaces that are managed.
    pub active_spaces: VecSet<SpaceId>,
    pub command_space: Option<SpaceId>,
    pub windows: VecMap<WindowId, WindowState>,
    pub window_ids: VecMap<WindowServerId, WindowId>,
    /// Frames as the window server reports them.
    pub server_frames: VecMap<WindowServerId, CGRect>,
    /// Space of a window as the window server reports it now.
    pub live_spaces: VecMap<WindowServerId, SpaceId>,
    /// Space of a window as last accepted.
    pub prior_spaces: VecMap<WindowServerId, SpaceId>,
    /// Frames asked for and not yet confirmed.
    pub target_frames: VecMap<WindowServerId, CGRect>,
    /// Windows suspended by native fullscreen.
    pub fullscreen: VecSet<WindowServerId>,
    pub visible: VecSet<WindowServerId>,
    pub apps: VecMap<pid_t, AppState>,
    pub main_window: Option<WindowId>,
    /// A drag, or a swap it led to, is under way.
    pub in_drag: bool,
    pub menu_open: bool,
    pub cursor: Option<CGPoint>,
    pub window_under_cursor: Option<WindowServerId>,
    pub topmost_windows: Vec<WindowId>,
    pub channels: Channels,
    pub clock: Instant,
}

/// [`World`] as a mathematical value.
#[verifier::ext_equal]
pub struct WorldModel {
    pub screens: Seq<ScreenInfo>,
    pub known_spaces: Seq<SpaceId>,
    pub shown_spaces: Set<SpaceId>,
    pub active_spaces: Seq<SpaceId>,
    pub command_space: Option<SpaceId>,
    pub windows: Map<WindowId, WindowState>,
    pub window_ids: Map<WindowServerId, WindowId>,
    pub server_frames: Map<WindowServerId, CGRect>,
    pub live_spaces: Map<WindowServerId, SpaceId>,
    pub prior_spaces: Map<WindowServerId, SpaceId>,
    pub target_frames: Map<WindowServerId, CGRect>,
    pub fullscreen: Set<WindowServerId>,
    pub visible: Set<WindowServerId>,
    pub apps: Map<pid_t, AppState>,
    pub main_window: Option<WindowId>,
    pub in_drag: bool,
    pub menu_open: bool,
    pub cursor: Option<CGPoint>,
    pub window_under_cursor: Option<WindowServerId>,
    pub topmost_windows: Seq<WindowId>,
    pub channels: Channels,
    pub clock: Instant,
}

impl View for World {
    type V = WorldModel;

    open spec fn view(&self) -> WorldModel {
        WorldModel {
            screens: self.screens@,
            known_spaces: self.known_spaces@,
            shown_spaces: self.shown_spaces@,
            active_spaces: self.active_spaces.items@,
            command_space: self.command_space,
            windows: self.windows@,
            window_ids: self.window_ids@,
            server_frames: self.server_frames@,
            live_spaces: self.live_spaces@,
            prior_spaces: self.prior_spaces@,
            target_frames: self.target_frames@,
            fullscreen: self.fullscreen@,
            visible: self.visible@,
            apps: self.apps@,
            main_window: self.main_window,
            in_drag: self.in_drag,
            menu_open: self.menu_open,
            cursor: self.cursor,
            window_under_cursor: self.window_under_cursor,
            topmost_windows: self.topmost_windows@,
            channels: self.channels,
            clock: self.clock,
        }
    }
}

/// Latest clock reading from which every deadline can still be computed.
pub const CLOCK_LIMIT: u64 = 0x7fff_ffff_ffff_ffff;

impl WorldModel {
    /// Frames are in range of each other, and deadlines can be computed from the clock.
    pub open spec fn measurable(self) -> bool {
        &&& forall|i: int| 0 <= i < self.screens.len() ==> (#[trigger] self.screens[i]).frame.in_range()
        &&& forall|w: WindowId| #[trigger]
            self.windows.dom().contains(w) ==> self.windows[w].frame_monotonic.reachable()
        &&& forall|w: WindowServerId| #[trigger]
            self.target_frames.dom().contains(w) ==> self.target_frames[w].reachable()
        &&& forall|w: WindowServerId| #[trigger]
            self.server_frames.dom().contains(w) ==> self.server_frames[w].reachable()
        &&& self.clock.nanos <= CLOCK_LIMIT
    }
}

/// A desktop with nothing on it.
pub open spec fn empty_world() -> WorldModel {
    WorldModel {
        screens: Seq::empty(),
        known_spaces: Seq::empty(),
        shown_spaces: Set::empty(),
        active_spaces: Seq::empty(),
        command_space: None,
        windows: Map::empty(),
        window_ids: Map::empty(),
        server_frames: Map::empty(),
        live_spaces: Map::empty(),
        prior_spaces: Map::empty(),
        target_frames: Map::empty(),
        fullscreen: Set::empty(),
        visible: Set::empty(),
        apps: Map::empty(),
        main_window: None,
        in_drag: false,
        menu_open: false,
        cursor: None,
        window_under_cursor: None,
        topmost_windows: Seq::empty(),
        channels: Channels {
            event_tap: false,
            stack_line: false,
            menu_bar: false,
            wm: false,
            events: false,
        },
        clock: Instant { nanos: 0 },
    }
}

impl World {
    pub open spec fn wf(&self) -> bool {
        &&& self.shown_spaces.wf()
        &&& self.active_spaces.wf()
        &&& self.windows.wf()
        &&& self.window_ids.wf()
        &&& self.server_frames.wf()
        &&& self.live_spaces.wf()
        &&& self.prior_spaces.wf()
        &&& self.target_frames.wf()
        &&& self.fullscreen.wf()
        &&& self.visible.wf()
        &&& self.apps.wf()
        &&& self@.measurable()
    }

    /// A desktop with nothing on it.
    pub fn new() -> (w: World)
        ensures
            w.wf(),
            w@ == empty_world(),
    {
        World {
            screens: Vec::new(),
            known_spaces: Vec::new(),
            shown_spaces: VecSet::new(),
            active_spaces: VecSet::new(),
            command_space: None,
            windows: VecMap::new(),
            window_ids: VecMap::new(),
            server_frames: VecMap::new(),
            live_spaces: VecMap::new(),
            prior_spaces: VecMap::new(),
            target_frames: VecMap::new(),
            fullscreen: VecSet::new(),
            visible: VecSet::new(),
            apps: VecMap::new(),
            main_window: None,
            in_drag: false,
            menu_open: false,
            cursor: None,
            window_under_cursor: None,
            topmost_windows: Vec::new(),
            channels: Channels {
                event_tap: false,
                stack_line: false,
                menu_bar: false,
                wm: false,
                events: false,
            },
            clock: Instant::from_nanos(0),
        }
    }
}

/// The reactor.
#[derive(Debug)]
pub struct Reactor {
    pub config: Config,
    pub one_space: bool,
    pub world: World,
    pub layout_engine: LayoutEngine,
    /// Why workspaces are being switched, while they are.
    pub workspace_switch: Option<WorkspaceSwitchOrigin>,
    pub saved_workspace_cursors: VecMap<WorkspaceKey, CGPoint>,
    pub mission_control_active: bool,
    pub pending_display_move_warp: Option<PendingWarp>,
    pub persistence: PersistenceState,
    /// Work not yet done.
    pub outbox: Vec<Effect>,
}

/// [`Reactor`] as a mathematical value.
#[verifier::ext_equal]
pub struct ReactorModel {
    pub config: Config,
    pub one_space: bool,
    pub world: WorldModel,
    pub engine: EngineModel,
    pub workspace_switch: Option<WorkspaceSwitchOrigin>,
    pub cursors: Map<WorkspaceKey, CGPoint>,
    pub mission_control_active: bool,
    pub pending_warp: Option<PendingWarp>,
    pub persistence: PersistenceModel,
    pub outbox: Seq<EffectModel>,
}

impl View for Reactor {
    type V = ReactorModel;

    open spec fn view(&self) -> ReactorModel {
        ReactorModel {
            config: self.config,
            one_space: self.one_space,
            world: self.world@,
            engine: self.layout_engine@,
            workspace_switch: self.workspace_switch,
            cursors: self.saved_workspace_cursors@,
            mission_control_active: self.mission_control_active,
            pending_warp: self.pending_display_move_warp,
            persistence: self.persistence@,
            outbox: effects_view(self.outbox@),
        }
    }
}

// ---------------------------------------------------------------------------
// The questions, as mathematics
// ---------------------------------------------------------------------------

/// `a`, or `b` where there is no `a`.
pub open spec fn or<A>(a: Option<A>, b: Option<A>) -> Option<A> {
    if a is Some {
        a
    } else {
        b
    }
}

/// What an optional reference refers to.
pub open spec fn borrowed<A>(r: Option<&A>) -> Option<A> {
    match r {
        Some(a) => Some(*a),
        None => None,
    }
}

/// The value of a key, where it is bound.
pub open spec fn lookup<K, V>(m: Map<K, V>, k: K) -> Option<V> {
    if m.dom().contains(k) {
        Some(m[k])
    } else {
        None
    }
}

/// The first screen with `f`, from index `from` on.
pub open spec fn first_screen(
    screens: Seq<ScreenInfo>,
    f: spec_fn(ScreenInfo) -> bool,
    from: int,
) -> Option<ScreenInfo>
    decreases screens.len() - from,
{
    if from >= screens.len() {
        None
    } else if f(screens[from]) {
        Some(screens[from])
    } else {
        first_screen(screens, f, from + 1)
    }
}

/// The first space with `f`, from index `from` on.
pub open spec fn first_space(
    spaces: Seq<SpaceId>,
    f: spec_fn(SpaceId) -> bool,
    from: int,
) -> Option<SpaceId>
    decreases spaces.len() - from,
{
    if from >= spaces.len() {
        None
    } else if f(spaces[from]) {
        Some(spaces[from])
    } else {
        first_space(spaces, f, from + 1)
    }
}

/// Whole square pixels that a screen shares with a frame.
pub open spec fn shared_px(screen: CGRect, frame: CGRect) -> int {
    screen.shared_area(frame) / (PX * PX)
}

/// Among the first `count` screens that show a space, the last of those that
/// share the most whole pixels with `frame`.
pub open spec fn widest_overlap(screens: Seq<ScreenInfo>, frame: CGRect, count: int) -> Option<
    (int, SpaceId),
>
    decreases count,
{
    if count <= 0 {
        None
    } else {
        let before = widest_overlap(screens, frame, count - 1);
        let screen = screens[count - 1];
        let area = shared_px(screen.frame, frame);
        match screen.space {
            Some(space) if area > 0 && (before matches Some((most, _)) ==> area >= most) => Some(
                (area, space),
            ),
            _ => before,
        }
    }
}

/// Length of the gap between two intervals.
pub open spec fn interval_gap(a_min: int, a_max: int, b_min: int, b_max: int) -> int {
    if a_max < b_min {
        b_min - a_max
    } else if b_max < a_min {
        a_min - b_max
    } else {
        0
    }
}

/// Distance from `origin` to a screen in a direction, and how far the screen is
/// off the line. `None` where the screen is not in that direction.
pub open spec fn directed(frame: CGRect, origin: CGPoint, direction: Direction) -> Option<
    (int, int),
> {
    let off_row = interval_gap(frame.min_y(), frame.max_y(), origin.y as int, origin.y as int);
    let off_column = interval_gap(frame.min_x(), frame.max_x(), origin.x as int, origin.x as int);
    if frame.covers(origin) {
        None
    } else {
        match direction {
            Direction::Left => if frame.max_x() > origin.x {
                None
            } else {
                Some((origin.x - frame.max_x(), off_row))
            },
            Direction::Right => if frame.min_x() < origin.x {
                None
            } else {
                Some((frame.min_x() - origin.x, off_row))
            },
            Direction::Up => if frame.max_y() > origin.y {
                None
            } else {
                Some((origin.y - frame.max_y(), off_column))
            },
            Direction::Down => if frame.min_y() < origin.y {
                None
            } else {
                Some((frame.min_y() - origin.y, off_column))
            },
        }
    }
}

/// Among the first `count` screens, the index of the first of those nearest in a
/// direction: least off the line, then closest.
pub open spec fn nearest_screen(
    screens: Seq<ScreenInfo>,
    origin: CGPoint,
    direction: Direction,
    count: int,
) -> Option<int>
    decreases count,
{
    if count <= 0 {
        None
    } else {
        let before = nearest_screen(screens, origin, direction, count - 1);
        match directed(screens[count - 1].frame, origin, direction) {
            None => before,
            Some((distance, off)) => match before {
                None => Some(count - 1),
                Some(b) => {
                    let (best_distance, best_off) = directed(
                        screens[b].frame,
                        origin,
                        direction,
                    )->0;
                    if off < best_off || (off == best_off && distance < best_distance) {
                        Some(count - 1)
                    } else {
                        before
                    }
                },
            },
        }
    }
}

/// Screen `a` stands before screen `b`: further left, or as far left and higher.
pub open spec fn stands_before(a: CGRect, b: CGRect) -> bool {
    a.origin.x < b.origin.x || (a.origin.x == b.origin.x && a.origin.y < b.origin.y)
}

/// How many of the indices in `order` belong to screens that do not stand after
/// screen `k`, counted from the front.
pub open spec fn insertion_point(screens: Seq<ScreenInfo>, order: Seq<int>, k: int, from: int) -> int
    decreases order.len() - from,
{
    if from >= order.len() || stands_before(screens[k].frame, screens[order[from]].frame) {
        from
    } else {
        insertion_point(screens, order, k, from + 1)
    }
}

/// The first `count` screens in physical order, by index: left to right, top to
/// bottom, screens at one place in the order given.
pub open spec fn physical_order(screens: Seq<ScreenInfo>, count: int) -> Seq<int>
    decreases count,
{
    if count <= 0 {
        Seq::empty()
    } else {
        let before = physical_order(screens, count - 1);
        before.insert(insertion_point(screens, before, count - 1, 0), count - 1)
    }
}

impl ReactorModel {
    pub open spec fn space_active(self, space: SpaceId) -> bool {
        self.world.active_spaces.contains(space)
    }

    pub open spec fn screen_of_space(self, space: SpaceId) -> Option<ScreenInfo> {
        first_screen(self.world.screens, |s: ScreenInfo| s.space == Some(space), 0)
    }

    pub open spec fn screen_at(self, p: CGPoint) -> Option<ScreenInfo> {
        first_screen(self.world.screens, |s: ScreenInfo| s.frame.covers(p), 0)
    }

    /// The space of the display that commands go to, where it is shown; else the
    /// first that is.
    pub open spec fn display_space(self) -> Option<SpaceId> {
        match self.world.command_space {
            Some(space) if self.world.shown_spaces.contains(space) && self.screen_of_space(
                space,
            ) is Some => Some(space),
            _ => match first_screen(
                self.world.screens,
                |s: ScreenInfo|
                    s.space matches Some(space) && self.world.shown_spaces.contains(space),
                0,
            ) {
                Some(screen) => screen.space,
                None => None,
            },
        }
    }

    /// The space that workspace commands go to.
    pub open spec fn command_target(self) -> Option<SpaceId> {
        match self.display_space() {
            Some(space) if self.space_active(space) => Some(space),
            _ => None,
        }
    }

    /// The known space on which the engine has the window.
    pub open spec fn assigned_space(self, wid: WindowId) -> Option<SpaceId> {
        first_space(
            self.world.known_spaces,
            |space: SpaceId| self.engine.workspace_on(space, wid) is Some,
            0,
        )
    }

    /// The known space on which the engine has a window of that number.
    pub open spec fn assigned_space_of_number(self, idx: u32) -> Option<SpaceId> {
        first_space(
            self.world.known_spaces,
            |space: SpaceId| self.engine.numbered(space, idx, 0) is Some,
            0,
        )
    }

    /// The window sits in a workspace of the space that is not the active one.
    pub open spec fn in_inactive_workspace(self, space: SpaceId, wid: WindowId) -> bool {
        match (self.engine.active_workspace_of(space), self.engine.workspace_on(space, wid)) {
            (Some(active), Some(ws)) => ws != active,
            _ => false,
        }
    }

    /// The active space that keeps the window in an inactive workspace.
    pub open spec fn hidden_space(self, wsid: Option<WindowServerId>) -> Option<SpaceId> {
        match wsid {
            None => None,
            Some(w) => match lookup(self.world.window_ids, w) {
                None => None,
                Some(wid) => match self.engine.slot(wid) {
                    Some(p) if self.space_active(p.space) && self.in_inactive_workspace(
                        p.space,
                        wid,
                    ) => Some(p.space),
                    _ => None,
                },
            },
        }
    }

    /// The space that a frame lies on: that of the screen under its middle, else
    /// that of the screen it overlaps most.
    pub open spec fn space_of_frame(self, frame: CGRect) -> Option<SpaceId> {
        let under = match self.screen_at(frame.middle()) {
            Some(screen) => screen.space,
            None => None,
        };
        or(
            under,
            match widest_overlap(self.world.screens, frame, self.world.screens.len() as int) {
                Some((_, space)) => Some(space),
                None => None,
            },
        )
    }

    /// The space that a window is being moved to, where the move is one between
    /// frames of the space it is assigned to.
    pub open spec fn pending_space(self, wsid: WindowServerId) -> Option<SpaceId> {
        match (lookup(self.world.window_ids, wsid), lookup(self.world.target_frames, wsid)) {
            (Some(wid), Some(target)) => match self.engine.slot(wid) {
                Some(p) if or(self.hidden_space(Some(wsid)), self.space_of_frame(target)) == Some(
                    p.space,
                ) => Some(p.space),
                _ => None,
            },
            _ => None,
        }
    }

    /// The space of a window from the strongest source there is. A direct
    /// observation wins, unless a pending move contradicts it and the window
    /// server does not back it.
    pub open spec fn native_space(
        self,
        wsid: WindowServerId,
        observation: Option<SpaceId>,
    ) -> Option<SpaceId> {
        let live = lookup(self.world.live_spaces, wsid);
        match (observation, self.pending_space(wsid)) {
            (Some(observed), Some(target)) => if observed != target && live != Some(observed) {
                Some(target)
            } else {
                Some(observed)
            },
            (Some(observed), None) => Some(observed),
            (None, pending) => or(live, or(pending, lookup(self.world.prior_spaces, wsid))),
        }
    }

    /// The space of a window given its frame and its server id.
    pub open spec fn best_space(self, frame: CGRect, wsid: Option<WindowServerId>) -> Option<
        SpaceId,
    > {
        match wsid {
            Some(w) => if self.world.fullscreen.contains(w) {
                None
            } else {
                or(
                    self.native_space(w, None),
                    or(self.hidden_space(wsid), self.space_of_frame(frame)),
                )
            },
            None => self.space_of_frame(frame),
        }
    }

    /// The space of a window by report and assignment alone.
    pub open spec fn authoritative_space(self, wid: WindowId) -> Option<SpaceId> {
        let window = lookup(self.world.windows, wid);
        let wsid = match window {
            Some(w) => w.sys_id,
            None => None,
        };
        let reported = match wsid {
            Some(id) => self.native_space(id, None),
            None => None,
        };
        match self.hidden_space(wsid) {
            Some(hidden) => or(reported, Some(hidden)),
            None => or(
                reported,
                match self.engine.slot(wid) {
                    Some(p) => Some(p.space),
                    None => None,
                },
            ),
        }
    }

    /// The space of a known window.
    pub open spec fn space_of_window(self, wid: WindowId) -> Option<SpaceId> {
        or(
            self.authoritative_space(wid),
            match lookup(self.world.windows, wid) {
                Some(w) => self.best_space(w.frame_monotonic, w.sys_id),
                None => None,
            },
        )
    }

    /// The window last focused in the active workspace of a space, where it is
    /// still there and visible.
    pub open spec fn last_focused_on(self, space: SpaceId) -> Option<WindowId> {
        match self.engine.active_workspace_of(space) {
            None => None,
            Some(ws) => match self.engine.last_focused_in(ws) {
                None => None,
                Some(wid) => match lookup(self.world.windows, wid) {
                    Some(w) if self.space_of_window(wid) == Some(space) && (w.sys_id matches Some(
                        id,
                    ) ==> self.world.visible.contains(id)) => Some(wid),
                    _ => None,
                },
            },
        }
    }

    /// Middle of the screen that commands go to, else of the first.
    pub open spec fn current_centre(self) -> Option<CGPoint> {
        let commanded = match self.world.command_space {
            Some(space) => self.screen_of_space(space),
            None => None,
        };
        match commanded {
            Some(screen) => Some(screen.frame.middle()),
            None => if self.world.screens.len() > 0 {
                Some(self.world.screens[0].frame.middle())
            } else {
                None
            },
        }
    }

    /// The screen that a selector names. Directions start at `origin`, else at
    /// the current screen.
    pub open spec fn selected_screen(
        self,
        selector: DisplaySelector,
        origin: Option<CGPoint>,
    ) -> Option<ScreenInfo> {
        let screens = self.world.screens;
        match selector {
            DisplaySelector::Direction(direction) => match or(origin, self.current_centre()) {
                None => None,
                Some(at) => match nearest_screen(screens, at, direction, screens.len() as int) {
                    Some(k) => Some(screens[k]),
                    None => None,
                },
            },
            DisplaySelector::Index(index) => if index < screens.len() {
                Some(screens[physical_order(screens, screens.len() as int)[index as int]])
            } else {
                None
            },
            DisplaySelector::Uuid(uuid) => first_screen(
                screens,
                |s: ScreenInfo| s.display_uuid@ == uuid@,
                0,
            ),
        }
    }

    /// The space of the screen under the cursor.
    pub open spec fn cursor_space(self) -> Option<SpaceId> {
        match self.world.cursor {
            None => None,
            Some(p) => match self.screen_at(p) {
                Some(screen) => screen.space,
                None => None,
            },
        }
    }

    /// The tracked window under the cursor.
    pub open spec fn hovered_window(self) -> Option<WindowId> {
        match self.world.window_under_cursor {
            Some(wsid) => lookup(self.world.window_ids, wsid),
            None => None,
        }
    }

    /// The uuid of the display that shows a space, where it has one.
    pub open spec fn display_of_space(self, space: SpaceId) -> Option<String> {
        match self.screen_of_space(space) {
            Some(screen) if screen.display_uuid@.len() > 0 => Some(screen.display_uuid),
            _ => None,
        }
    }
}

// ---------------------------------------------------------------------------
// The questions, computed
// ---------------------------------------------------------------------------

impl ScreenInfo {
    pub fn display_uuid_owned(&self) -> (r: Option<String>)
        ensures
            r == (if self.display_uuid@.len() > 0 {
                Some(self.display_uuid)
            } else {
                None
            }),
    {
        if self.display_uuid.as_str().is_empty() {
            None
        } else {
            Some(self.display_uuid.clone())
        }
    }
}

impl Reactor {
    pub open spec fn wf(&self) -> bool {
        &&& self.world.wf()
        &&& self.layout_engine.wf()
        &&& self.saved_workspace_cursors.wf()
        &&& self.pending_display_move_warp matches Some(p) ==> p.display.in_range()
        &&& self.persistence.wf()
    }

    /// A reactor on a desktop of which nothing is known yet.
    pub fn new(config: Config, one_space: bool, layout_engine: LayoutEngine) -> (r: Reactor)
        requires
            layout_engine.wf(),
        ensures
            r.wf(),
            r@ == (ReactorModel {
                config,
                one_space,
                world: empty_world(),
                engine: layout_engine@,
                workspace_switch: None,
                cursors: Map::empty(),
                mission_control_active: false,
                pending_warp: None,
                persistence: PersistenceModel {
                    restore_path: None,
                    pending_restore: None,
                    activated: false,
                    save_deadline: None,
                    adoption: Seq::empty(),
                    saved_spaces: Seq::empty(),
                    settle_deadline: None,
                    due_saves: Seq::empty(),
                },
                outbox: Seq::empty(),
            }),
    {
        Reactor {
            config,
            one_space,
            world: World::new(),
            layout_engine,
            workspace_switch: None,
            saved_workspace_cursors: VecMap::new(),
            mission_control_active: false,
            pending_display_move_warp: None,
            persistence: PersistenceState::default(),
            outbox: Vec::new(),
        }
    }

    pub fn is_space_active(&self, space: SpaceId) -> (b: bool)
        ensures
            b == self@.space_active(space),
    {
        let b = self.world.active_spaces.contains(&space);
        proof {
            let items = self.world.active_spaces.items@;
            if b {
                let i = choose|i: int| 0 <= i < items.len() && (#[trigger] items[i])@ == space;
                assert(items[i] == space);
            }
            if items.contains(space) {
                let i = choose|i: int| 0 <= i < items.len() && items[i] == space;
                assert(items[i]@ == space);
            }
        }
        b
    }

    pub fn screen_by_space(&self, space: SpaceId) -> (r: Option<&ScreenInfo>)
        ensures
            borrowed(r) == self@.screen_of_space(space),
    {
        let ghost f = |s: ScreenInfo| s.space == Some(space);
        let mut i: usize = 0;
        while i < self.world.screens.len()
            invariant
                i <= self.world.screens@.len(),
                f == (|s: ScreenInfo| s.space == Some(space)),
                first_screen(self.world.screens@, f, 0) == first_screen(
                    self.world.screens@,
                    f,
                    i as int,
                ),
            decreases self.world.screens@.len() - i,
        {
            if let Some(shown) = self.world.screens[i].space {
                if shown == space {
                    return Some(&self.world.screens[i]);
                }
            }
            i += 1;
        }
        None
    }

    pub fn screen_for_point(&self, point: CGPoint) -> (r: Option<&ScreenInfo>)
        requires
            self.wf(),
        ensures
            borrowed(r) == self@.screen_at(point),
    {
        let ghost f = |s: ScreenInfo| s.frame.covers(point);
        let mut i: usize = 0;
        while i < self.world.screens.len()
            invariant
                self.wf(),
                i <= self.world.screens@.len(),
                f == (|s: ScreenInfo| s.frame.covers(point)),
                first_screen(self.world.screens@, f, 0) == first_screen(
                    self.world.screens@,
                    f,
                    i as int,
                ),
            decreases self.world.screens@.len() - i,
        {
            assert(self@.world.screens[i as int].frame.in_range());
            if self.world.screens[i].frame.contains(point) {
                return Some(&self.world.screens[i]);
            }
            i += 1;
        }
        None
    }

    pub fn active_display_space(&self) -> (r: Option<SpaceId>)
        ensures
            r == self@.display_space(),
    {
        if let Some(space) = self.world.command_space {
            if self.world.shown_spaces.contains(&space) && self.screen_by_space(space).is_some() {
                return Some(space);
            }
        }
        self.first_shown_space()
    }

    fn first_shown_space(&self) -> (r: Option<SpaceId>)
        ensures
            r == (match first_screen(
                self@.world.screens,
                |s: ScreenInfo|
                    s.space matches Some(space) && self@.world.shown_spaces.contains(space),
                0,
            ) {
                Some(screen) => screen.space,
                None => None,
            }),
    {
        let ghost f = |s: ScreenInfo|
            s.space matches Some(space) && self@.world.shown_spaces.contains(space);
        let mut i: usize = 0;
        while i < self.world.screens.len()
            invariant
                i <= self.world.screens@.len(),
                f == (|s: ScreenInfo|
                    s.space matches Some(space) && self@.world.shown_spaces.contains(space)),
                first_screen(self.world.screens@, f, 0) == first_screen(
                    self.world.screens@,
                    f,
                    i as int,
                ),
            decreases self.world.screens@.len() - i,
        {
            if let Some(space) = self.world.screens[i].space {
                if self.world.shown_spaces.contains(&space) {
                    return Some(space);
                }
            }
            i += 1;
        }
        None
    }

    pub fn workspace_command_space(&self) -> (r: Option<SpaceId>)
        ensures
            r == self@.command_target(),
    {
        match self.active_display_space() {
            Some(space) => if self.is_space_active(space) {
                Some(space)
            } else {
                None
            },
            None => None,
        }
    }

    fn window_in_non_active_workspace(&self, space: SpaceId, wid: WindowId) -> (b: bool)
        requires
            self.wf(),
        ensures
            b == self@.in_inactive_workspace(space, wid),
    {
        match (self.layout_engine.active_workspace(space), self.layout_engine.workspace_for_window(
            space,
            wid,
        )) {
            (Some(active), Some(ws)) => ws != active,
            _ => false,
        }
    }

    fn hidden_assigned_space(&self, wsid: Option<WindowServerId>) -> (r: Option<SpaceId>)
        requires
            self.wf(),
        ensures
            r == self@.hidden_space(wsid),
    {
        if let Some(w) = wsid {
            if let Some(wid) = self.world.window_ids.get(&w) {
                if let Some(p) = self.layout_engine.workspace_info_for_window_any(*wid) {
                    if self.is_space_active(p.space) && self.window_in_non_active_workspace(
                        p.space,
                        *wid,
                    ) {
                        return Some(p.space);
                    }
                }
            }
        }
        None
    }

    pub fn best_space_for_frame(&self, frame: &CGRect) -> (r: Option<SpaceId>)
        requires
            self.wf(),
            frame.reachable(),
        ensures
            r == self@.space_of_frame(*frame),
    {
        if let Some(screen) = self.screen_for_point(frame.mid()) {
            if screen.space.is_some() {
                return screen.space;
            }
        }
        let mut best: Option<(i128, SpaceId)> = None;
        let mut i: usize = 0;
        while i < self.world.screens.len()
            invariant
                self.wf(),
                frame.reachable(),
                i <= self.world.screens@.len(),
                match (best, widest_overlap(self.world.screens@, *frame, i as int)) {
                    (None, None) => true,
                    (Some((area, space)), Some((most, at))) => area == most && space == at,
                    _ => false,
                },
            decreases self.world.screens@.len() - i,
        {
            let screen = &self.world.screens[i];
            assert(self@.world.screens[i as int].frame.in_range());
            if let Some(space) = screen.space {
                proof {
                    crate::sys::geometry::lemma_meet_area(screen.frame, *frame);
                }
                let area: i128 = screen.frame.intersection(frame).area() / (PX as i128 * PX as i128);
                assert(area == shared_px(screen.frame, *frame));
                let wider = match best {
                    Some((most, _)) => area >= most,
                    None => true,
                };
                if area > 0 && wider {
                    best = Some((area, space));
                }
            }
            i += 1;
        }
        match best {
            Some((_, space)) => Some(space),
            None => None,
        }
    }

    fn pending_target_space(&self, wsid: WindowServerId) -> (r: Option<SpaceId>)
        requires
            self.wf(),
        ensures
            r == self@.pending_space(wsid),
    {
        if let Some(wid) = self.world.window_ids.get(&wsid) {
            if let Some(target) = self.world.target_frames.get(&wsid) {
                assert(self@.world.target_frames.dom().contains(wsid));
                if let Some(p) = self.layout_engine.workspace_info_for_window_any(*wid) {
                    let landing = match self.hidden_assigned_space(Some(wsid)) {
                        Some(space) => Some(space),
                        None => self.best_space_for_frame(target),
                    };
                    if let Some(space) = landing {
                        if space == p.space {
                            return Some(space);
                        }
                    }
                }
            }
        }
        None
    }

    /// Resolve native space ownership from the strongest available source.
    ///
    /// `observation` is a direct per-space membership observation. A pending move
    /// wins over an observation that the live window server does not back, while a
    /// live conflict is treated as a newer external move. With no observation the
    /// live report wins over the pending target, and that over the last accepted
    /// space.
    pub fn resolve_native_space(
        &self,
        wsid: WindowServerId,
        observation: Option<SpaceId>,
    ) -> (r: Option<SpaceId>)
        requires
            self.wf(),
        ensures
            r == self@.native_space(wsid, observation),
    {
        let pending = self.pending_target_space(wsid);
        let live = match self.world.live_spaces.get(&wsid) {
            Some(space) => Some(*space),
            None => None,
        };
        match observation {
            Some(observed) => {
                if let Some(target) = pending {
                    if observed != target {
                        if let Some(space) = live {
                            if space == observed {
                                return Some(observed);
                            }
                        }
                        return Some(target);
                    }
                }
                Some(observed)
            },
            None => {
                if live.is_some() {
                    return live;
                }
                if pending.is_some() {
                    return pending;
                }
                match self.world.prior_spaces.get(&wsid) {
                    Some(space) => Some(*space),
                    None => None,
                }
            },
        }
    }

    pub fn best_space_for_window(
        &self,
        frame: &CGRect,
        window_server_id: Option<WindowServerId>,
    ) -> (r: Option<SpaceId>)
        requires
            self.wf(),
            frame.reachable(),
        ensures
            r == self@.best_space(*frame, window_server_id),
    {
        if let Some(wsid) = window_server_id {
            if self.world.fullscreen.contains(&wsid) {
                return None;
            }
            let native = self.resolve_native_space(wsid, None);
            if native.is_some() {
                return native;
            }
            let hidden = self.hidden_assigned_space(window_server_id);
            if hidden.is_some() {
                return hidden;
            }
        }
        self.best_space_for_frame(frame)
    }

    fn authoritative_space_for_window_id(&self, wid: WindowId) -> (r: Option<SpaceId>)
        requires
            self.wf(),
        ensures
            r == self@.authoritative_space(wid),
    {
        let wsid = match self.world.windows.get(&wid) {
            Some(window) => window.sys_id,
            None => None,
        };
        let reported = match wsid {
            Some(id) => self.resolve_native_space(id, None),
            None => None,
        };
        if reported.is_some() {
            return reported;
        }
        let hidden = self.hidden_assigned_space(wsid);
        if hidden.is_some() {
            return hidden;
        }
        match self.layout_engine.workspace_info_for_window_any(wid) {
            Some(p) => Some(p.space),
            None => None,
        }
    }

    pub fn best_space_for_window_id(&self, wid: WindowId) -> (r: Option<SpaceId>)
        requires
            self.wf(),
        ensures
            r == self@.space_of_window(wid),
    {
        let authoritative = self.authoritative_space_for_window_id(wid);
        if authoritative.is_some() {
            return authoritative;
        }
        match self.world.windows.get(&wid) {
            Some(window) => {
                assert(self@.world.windows.dom().contains(wid));
                self.best_space_for_window(&window.frame_monotonic, window.sys_id)
            },
            None => None,
        }
    }

    pub fn last_focused_window_in_space(&self, space: SpaceId) -> (r: Option<WindowId>)
        requires
            self.wf(),
        ensures
            r == self@.last_focused_on(space),
    {
        let ws = match self.layout_engine.active_workspace(space) {
            Some(ws) => ws,
            None => return None,
        };
        let wid = match self.layout_engine.last_focused_window(ws) {
            Some(wid) => wid,
            None => return None,
        };
        let window = match self.world.windows.get(&wid) {
            Some(window) => window,
            None => return None,
        };
        match self.best_space_for_window_id(wid) {
            Some(on) => if on != space {
                return None;
            },
            None => return None,
        }
        if let Some(wsid) = window.sys_id {
            if !self.world.visible.contains(&wsid) {
                return None;
            }
        }
        Some(wid)
    }

    pub fn current_screen_center(&self) -> (r: Option<CGPoint>)
        requires
            self.wf(),
        ensures
            r == self@.current_centre(),
    {
        proof {
            lemma_first_screen(self@.world.screens);
        }
        if let Some(space) = self.world.command_space {
            if let Some(screen) = self.screen_by_space(space) {
                return Some(screen.frame.mid());
            }
        }
        if self.world.screens.len() > 0 {
            assert(self@.world.screens[0].frame.in_range());
            Some(self.world.screens[0].frame.mid())
        } else {
            None
        }
    }

    fn screen_for_direction_from_point(&self, origin: CGPoint, direction: Direction) -> (r: Option<
        &ScreenInfo,
    >)
        requires
            self.wf(),
            origin.within(4 * crate::sys::geometry::COORD_LIMIT),
        ensures
            borrowed(r) == (match nearest_screen(
                self@.world.screens,
                origin,
                direction,
                self@.world.screens.len() as int,
            ) {
                Some(k) => Some(self@.world.screens[k]),
                None => None,
            }),
    {
        let ghost screens = self@.world.screens;
        let mut best: Option<(i64, i64, usize)> = None;
        let mut i: usize = 0;
        while i < self.world.screens.len()
            invariant
                self.wf(),
                screens == self@.world.screens,
                origin.within(4 * crate::sys::geometry::COORD_LIMIT),
                i <= self.world.screens@.len(),
                match (best, nearest_screen(screens, origin, direction, i as int)) {
                    (None, None) => true,
                    (Some((distance, off, k)), Some(b)) => {
                        &&& k == b
                        &&& 0 <= b < i
                        &&& directed(screens[b].frame, origin, direction) == Some(
                            (distance as int, off as int),
                        )
                    },
                    _ => false,
                },
            decreases self.world.screens@.len() - i,
        {
            assert(screens[i as int].frame.in_range());
            if let Some((distance, off)) = distance_in_direction(
                self.world.screens[i].frame,
                origin,
                direction,
            ) {
                let nearer = match best {
                    Some((best_distance, best_off, _)) => off < best_off || (off == best_off
                        && distance < best_distance),
                    None => true,
                };
                if nearer {
                    best = Some((distance, off, i));
                }
            }
            i += 1;
        }
        match best {
            Some((_, _, k)) => Some(&self.world.screens[k]),
            None => None,
        }
    }

    /// Indices of the screens, left to right and top to bottom.
    fn screens_in_physical_order(&self) -> (order: Vec<usize>)
        ensures
            order@.map_values(|k: usize| k as int) == physical_order(
                self@.world.screens,
                self@.world.screens.len() as int,
            ),
            forall|j: int| 0 <= j < order@.len() ==> (#[trigger] order@[j]) < self@.world.screens.len(),
            order@.len() == self@.world.screens.len(),
    {
        let ghost screens = self@.world.screens;
        let mut order: Vec<usize> = Vec::new();
        let mut i: usize = 0;
        assert(order@.map_values(|k: usize| k as int) =~= physical_order(screens, 0));
        while i < self.world.screens.len()
            invariant
                screens == self@.world.screens,
                i <= screens.len(),
                order@.len() == i,
                forall|j: int| 0 <= j < order@.len() ==> (#[trigger] order@[j]) < i,
                order@.map_values(|k: usize| k as int) == physical_order(screens, i as int),
            decreases screens.len() - i,
        {
            let ghost before = physical_order(screens, i as int);
            let frame = self.world.screens[i].frame;
            let mut at: usize = 0;
            while at < order.len() && !(frame.origin.x
                < self.world.screens[order[at]].frame.origin.x || (frame.origin.x
                == self.world.screens[order[at]].frame.origin.x && frame.origin.y
                < self.world.screens[order[at]].frame.origin.y))
                invariant
                    screens == self@.world.screens,
                    i < screens.len(),
                    frame == screens[i as int].frame,
                    at <= order@.len(),
                    order@.len() == i,
                    forall|j: int| 0 <= j < order@.len() ==> (#[trigger] order@[j]) < i,
                    before == order@.map_values(|k: usize| k as int),
                    insertion_point(screens, before, i as int, 0) == insertion_point(
                        screens,
                        before,
                        i as int,
                        at as int,
                    ),
                decreases order@.len() - at,
            {
                assert(before[at as int] == order@[at as int]);
                at += 1;
            }
            proof {
                if at < order@.len() {
                    assert(before[at as int] == order@[at as int]);
                }
                assert(insertion_point(screens, before, i as int, 0) == at);
            }
            let ghost was = order@;
            order.insert(at, i);
            assert(order@.map_values(|k: usize| k as int) =~= before.insert(at as int, i as int));
            assert forall|j: int| 0 <= j < order@.len() implies (#[trigger] order@[j]) < i + 1 by {
                if j < at {
                    assert(order@[j] == was[j]);
                } else if j > at {
                    assert(order@[j] == was[j - 1]);
                }
            }
            i += 1;
        }
        order
    }

    pub fn screen_for_selector(
        &self,
        selector: &DisplaySelector,
        origin_override: Option<CGPoint>,
    ) -> (r: Option<&ScreenInfo>)
        requires
            self.wf(),
            origin_override matches Some(p) ==> p.within(4 * crate::sys::geometry::COORD_LIMIT),
        ensures
            borrowed(r) == self@.selected_screen(*selector, origin_override),
    {
        match selector {
            DisplaySelector::Direction(direction) => {
                let origin = match origin_override {
                    Some(p) => Some(p),
                    None => self.current_screen_center(),
                };
                proof {
                    lemma_centre_in_range(self@);
                }
                match origin {
                    Some(p) => self.screen_for_direction_from_point(p, *direction),
                    None => None,
                }
            },
            DisplaySelector::Index(index) => {
                let order = self.screens_in_physical_order();
                if *index < order.len() {
                    proof {
                        let o = physical_order(self@.world.screens, self@.world.screens.len() as int);
                        assert(o[*index as int] == order@[*index as int]);
                    }
                    Some(&self.world.screens[order[*index]])
                } else {
                    None
                }
            },
            DisplaySelector::Uuid(uuid) => self.screen_by_uuid(uuid),
        }
    }

    fn screen_by_uuid(&self, uuid: &String) -> (r: Option<&ScreenInfo>)
        ensures
            borrowed(r) == first_screen(
                self@.world.screens,
                |s: ScreenInfo| s.display_uuid@ == uuid@,
                0,
            ),
    {
        let ghost f = |s: ScreenInfo| s.display_uuid@ == uuid@;
        let mut i: usize = 0;
        while i < self.world.screens.len()
            invariant
                i <= self.world.screens@.len(),
                f == (|s: ScreenInfo| s.display_uuid@ == uuid@),
                first_screen(self.world.screens@, f, 0) == first_screen(
                    self.world.screens@,
                    f,
                    i as int,
                ),
            decreases self.world.screens@.len() - i,
        {
            if self.world.screens[i].display_uuid == *uuid {
                return Some(&self.world.screens[i]);
            }
            i += 1;
        }
        None
    }

    pub fn main_window(&self) -> (r: Option<WindowId>)
        ensures
            r == self@.world.main_window,
    {
        self.world.main_window
    }

    pub fn window_id_under_cursor(&self) -> (r: Option<WindowId>)
        requires
            self.wf(),
        ensures
            r == self@.hovered_window(),
    {
        match self.world.window_under_cursor {
            Some(wsid) => match self.world.window_ids.get(&wsid) {
                Some(wid) => Some(*wid),
                None => None,
            },
            None => None,
        }
    }

    pub fn space_for_cursor_screen(&self) -> (r: Option<SpaceId>)
        requires
            self.wf(),
        ensures
            r == self@.cursor_space(),
    {
        match self.world.cursor {
            Some(p) => match self.screen_for_point(p) {
                Some(screen) => screen.space,
                None => None,
            },
            None => None,
        }
    }

    pub fn display_uuid_for_space(&self, space: SpaceId) -> (r: Option<String>)
        ensures
            r == self@.display_of_space(space),
    {
        match self.screen_by_space(space) {
            Some(screen) => screen.display_uuid_owned(),
            None => None,
        }
    }
}

/// [`directed`], computed.
fn distance_in_direction(frame: CGRect, origin: CGPoint, direction: Direction) -> (r: Option<
    (i64, i64),
>)
    requires
        frame.in_range(),
        origin.within(4 * crate::sys::geometry::COORD_LIMIT),
    ensures
        match (r, directed(frame, origin, direction)) {
            (None, None) => true,
            (Some((distance, off)), Some((d, o))) => distance == d && off == o,
            _ => false,
        },
{
    if frame.contains(origin) {
        return None;
    }
    let min = frame.min();
    let max = frame.max();
    match direction {
        Direction::Left => {
            if max.x > origin.x {
                return None;
            }
            Some((origin.x - max.x, gap_between(min.y, max.y, origin.y)))
        },
        Direction::Right => {
            if min.x < origin.x {
                return None;
            }
            Some((min.x - origin.x, gap_between(min.y, max.y, origin.y)))
        },
        Direction::Up => {
            if max.y > origin.y {
                return None;
            }
            Some((origin.y - max.y, gap_between(min.x, max.x, origin.x)))
        },
        Direction::Down => {
            if min.y < origin.y {
                return None;
            }
            Some((min.y - origin.y, gap_between(min.x, max.x, origin.x)))
        },
    }
}

/// Distance of a point from an interval.
fn gap_between(min: i64, max: i64, at: i64) -> (gap: i64)
    requires
        -8 * crate::sys::geometry::COORD_LIMIT <= min <= 8 * crate::sys::geometry::COORD_LIMIT,
        -8 * crate::sys::geometry::COORD_LIMIT <= max <= 8 * crate::sys::geometry::COORD_LIMIT,
        -8 * crate::sys::geometry::COORD_LIMIT <= at <= 8 * crate::sys::geometry::COORD_LIMIT,
    ensures
        gap == interval_gap(min as int, max as int, at as int, at as int),
{
    if max < at {
        at - max
    } else if at < min {
        min - at
    } else {
        0
    }
}

/// What a search through the screens finds is one of them, and satisfies what
/// was searched for.
pub proof fn lemma_first_screen(screens: Seq<ScreenInfo>)
    ensures
        forall|f: spec_fn(ScreenInfo) -> bool|
            (#[trigger] first_screen(screens, f, 0)) is Some ==> screens.contains(
                first_screen(screens, f, 0)->0,
            ) && f(first_screen(screens, f, 0)->0),
{
    assert forall|f: spec_fn(ScreenInfo) -> bool| (#[trigger] first_screen(
        screens,
        f,
        0,
    )) is Some implies screens.contains(first_screen(screens, f, 0)->0) && f(
        first_screen(screens, f, 0)->0,
    ) by {
        lemma_first_screen_from(screens, f, 0);
    }
}

proof fn lemma_first_screen_from(
    screens: Seq<ScreenInfo>,
    f: spec_fn(ScreenInfo) -> bool,
    from: int,
)
    requires
        0 <= from,
    ensures
        first_screen(screens, f, from) matches Some(s) ==> screens.contains(s) && f(s),
        first_screen(screens, f, from) is None ==> forall|i: int|
            from <= i < screens.len() ==> !f(#[trigger] screens[i]),
    decreases screens.len() - from,
{
    if from < screens.len() && !f(screens[from]) {
        lemma_first_screen_from(screens, f, from + 1);
    }
}

/// The current screen's middle is within range of every screen.
pub proof fn lemma_centre_in_range(m: ReactorModel)
    requires
        m.world.measurable(),
    ensures
        m.current_centre() matches Some(p) ==> p.within(2 * crate::sys::geometry::COORD_LIMIT),
{
    lemma_first_screen(m.world.screens);
}

/// What a search in a direction finds is one of the screens, in that direction.
pub proof fn lemma_nearest_screen(
    screens: Seq<ScreenInfo>,
    origin: CGPoint,
    direction: Direction,
    count: int,
)
    requires
        count <= screens.len(),
    ensures
        nearest_screen(screens, origin, direction, count) matches Some(k) ==> 0 <= k < count
            && directed(screens[k].frame, origin, direction) is Some,
    decreases count,
{
    if count > 0 {
        lemma_nearest_screen(screens, origin, direction, count - 1);
    }
}

/// Each place of the physical order holds the index of a screen.
pub proof fn lemma_physical_order(screens: Seq<ScreenInfo>, count: int)
    requires
        0 <= count <= screens.len(),
    ensures
        physical_order(screens, count).len() == count,
        forall|j: int|
            0 <= j < count ==> 0 <= #[trigger] physical_order(screens, count)[j] < count,
    decreases count,
{
    if count > 0 {
        let before = physical_order(screens, count - 1);
        lemma_physical_order(screens, count - 1);
        lemma_insertion_point(screens, before, count - 1, 0);
        let at = insertion_point(screens, before, count - 1, 0);
        let next = physical_order(screens, count);
        assert forall|j: int| 0 <= j < count implies 0 <= #[trigger] next[j] < count by {
            if j < at {
                assert(next[j] == before[j]);
            } else if j > at {
                assert(next[j] == before[j - 1]);
            }
        }
    }
}

pub proof fn lemma_insertion_point(screens: Seq<ScreenInfo>, order: Seq<int>, k: int, from: int)
    requires
        0 <= from <= order.len(),
    ensures
        from <= insertion_point(screens, order, k, from) <= order.len(),
        forall|j: int|
            from <= j < insertion_point(screens, order, k, from) ==> !stands_before(
                screens[k].frame,
                screens[#[trigger] order[j]].frame,
            ),
        insertion_point(screens, order, k, from) < order.len() ==> stands_before(
            screens[k].frame,
            screens[order[insertion_point(screens, order, k, from)]].frame,
        ),
    decreases order.len() - from,
{
    if from < order.len() && !stands_before(screens[k].frame, screens[order[from]].frame) {
        lemma_insertion_point(screens, order, k, from + 1);
    }
}

// ---------------------------------------------------------------------------
// Laws
// ---------------------------------------------------------------------------

/// The physical order has every screen once, and none stands before an earlier
/// one.
pub proof fn law_physical_order_is_sorted(screens: Seq<ScreenInfo>, i: int, j: int)
    requires
        0 <= i < j < screens.len(),
    ensures
        physical_order(screens, screens.len() as int).len() == screens.len(),
        physical_order(screens, screens.len() as int)[i] != physical_order(
            screens,
            screens.len() as int,
        )[j],
        !stands_before(
            screens[physical_order(screens, screens.len() as int)[j]].frame,
            screens[physical_order(screens, screens.len() as int)[i]].frame,
        ),
{
    lemma_physical_order(screens, screens.len() as int);
    lemma_order_sorted(screens, screens.len() as int);
}

pub proof fn lemma_order_sorted(screens: Seq<ScreenInfo>, count: int)
    requires
        0 <= count <= screens.len(),
    ensures
        forall|i: int, j: int|
            0 <= i < j < physical_order(screens, count).len() ==> (#[trigger] physical_order(
                screens,
                count,
            )[i]) != (#[trigger] physical_order(screens, count)[j]) && !stands_before(
                screens[physical_order(screens, count)[j]].frame,
                screens[physical_order(screens, count)[i]].frame,
            ),
    decreases count,
{
    if count > 0 {
        let before = physical_order(screens, count - 1);
        let next = physical_order(screens, count);
        lemma_order_sorted(screens, count - 1);
        lemma_physical_order(screens, count - 1);
        lemma_insertion_point(screens, before, count - 1, 0);
        let at = insertion_point(screens, before, count - 1, 0);
        assert forall|i: int, j: int| 0 <= i < j < next.len() implies (#[trigger] next[i]) != (
        #[trigger] next[j]) && !stands_before(
            screens[next[j]].frame,
            screens[next[i]].frame,
        ) by {
            let i0 = if i < at { i } else { i - 1 };
            let j0 = if j < at { j } else { j - 1 };
            if i == at {
                assert(next[j] == before[j0]);
                if j0 > at {
                    assert(!stands_before(screens[before[j0]].frame, screens[before[at]].frame));
                }
            } else if j == at {
                assert(next[i] == before[i]);
            } else {
                assert(next[i] == before[i0]);
                assert(next[j] == before[j0]);
            }
        }
    }
}

/// No screen in a direction is nearer than the one chosen: none is less off the
/// line, and none equally off it is closer.
pub proof fn law_nearest_screen_is_nearest(
    screens: Seq<ScreenInfo>,
    origin: CGPoint,
    direction: Direction,
    j: int,
)
    requires
        0 <= j < screens.len(),
        directed(screens[j].frame, origin, direction) is Some,
    ensures
        nearest_screen(screens, origin, direction, screens.len() as int) matches Some(k) && {
            let (distance, off) = directed(screens[k].frame, origin, direction)->0;
            let (other_distance, other_off) = directed(screens[j].frame, origin, direction)->0;
            off < other_off || (off == other_off && distance <= other_distance)
        },
{
    lemma_nearest_is_minimal(screens, origin, direction, screens.len() as int, j);
}

proof fn lemma_nearest_is_minimal(
    screens: Seq<ScreenInfo>,
    origin: CGPoint,
    direction: Direction,
    count: int,
    j: int,
)
    requires
        0 <= j < count <= screens.len(),
        directed(screens[j].frame, origin, direction) is Some,
    ensures
        nearest_screen(screens, origin, direction, count) matches Some(k) && {
            let (distance, off) = directed(screens[k].frame, origin, direction)->0;
            let (other_distance, other_off) = directed(screens[j].frame, origin, direction)->0;
            off < other_off || (off == other_off && distance <= other_distance)
        },
    decreases count,
{
    if j < count - 1 {
        lemma_nearest_is_minimal(screens, origin, direction, count - 1, j);
    }
}

/// Workspace commands only ever go to a managed space that a screen shows.
pub proof fn law_command_target_is_active_and_shown(m: ReactorModel)
    ensures
        m.command_target() matches Some(space) ==> m.space_active(space)
            && m.world.shown_spaces.contains(space) && exists|i: int|
            #![trigger m.world.screens[i]]
            0 <= i < m.world.screens.len() && m.world.screens[i].space == Some(space),
{
    if let Some(space) = m.command_target() {
        let by_space = |s: ScreenInfo| s.space == Some(space);
        let shown = |s: ScreenInfo|
            s.space matches Some(t) && m.world.shown_spaces.contains(t);
        lemma_first_screen(m.world.screens);
        let found = if m.world.command_space == Some(space) && m.world.shown_spaces.contains(space)
            && m.screen_of_space(space) is Some {
            first_screen(m.world.screens, by_space, 0)->0
        } else {
            first_screen(m.world.screens, shown, 0)->0
        };
        assert(m.world.screens.contains(found));
        let i = choose|i: int| 0 <= i < m.world.screens.len() && m.world.screens[i] == found;
        assert(m.world.screens[i].space == Some(space));
    }
}

/// Native space ownership: a pending move outranks an observation that the live
/// report does not back; a live report that backs it makes it a newer move; and
/// without an observation the live report comes first, then the pending move,
/// then what was accepted last.
pub proof fn law_native_space_precedence(
    m: ReactorModel,
    wsid: WindowServerId,
    observed: SpaceId,
    target: SpaceId,
)
    requires
        m.pending_space(wsid) == Some(target),
        observed != target,
    ensures
        lookup(m.world.live_spaces, wsid) == Some(observed) ==> m.native_space(
            wsid,
            Some(observed),
        ) == Some(observed),
        lookup(m.world.live_spaces, wsid) != Some(observed) ==> m.native_space(
            wsid,
            Some(observed),
        ) == Some(target),
        lookup(m.world.live_spaces, wsid) is Some ==> m.native_space(wsid, None) == lookup(
            m.world.live_spaces,
            wsid,
        ),
        lookup(m.world.live_spaces, wsid) is None ==> m.native_space(wsid, None) == Some(target),
{
}

} // verus!
