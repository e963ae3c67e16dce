//! The tap: what it does on each event and request.

use vstd::prelude::*;

use crate::actor::event_tap::{
    CoordinateConverter, EventKind, FfmHover, LayoutMode, Request, ResolvedHotkey,
    STUCK_TICKS_LIMIT, TapAction, TapConfig, TapEvent, WmCommand,
};
use crate::actor::event_tap::state::{
    after_hover, after_key, after_move, after_reconcile, after_refresh, after_reset,
    build_event_mask, disable_hotkey_held, event_mask, event_window, hover_outcome, initial_state,
    is_key_event, mouse_move_sampling_profile, native_mission_control_hotkey, opens_mission_control,
    samples_move, sampling_profile, window_from_mouse_event, State, StateModel,
};
use crate::collections::{VecMap, VecSet};
use crate::ids::SpaceId;
use crate::sys::event::{mouse_code, set_mouse_state, MouseCell, MouseState};
use crate::sys::geometry::CGRect;
use crate::sys::hotkey::{CGEventFlags, Hotkey, KeyCode, Modifiers};

verus! {

/// The input processor.
#[derive(Debug)]
pub struct EventTap {
    pub state: State,
    /// The last button state seen.
    pub mouse: MouseCell,
    /// Mask of the tap that is installed.
    pub event_mask: u64,
    pub disable_hotkey: Option<Hotkey>,
    pub hotkey_specs: Vec<(String, WmCommand)>,
    /// Which command runs on which hotkey; no pair occurs twice, and the commands
    /// of one hotkey run in the order in which they stand here.
    pub hotkeys: Vec<(Hotkey, WmCommand)>,
    /// Work not yet done.
    pub outbox: Vec<TapAction>,
}

/// [`EventTap`] as a mathematical value.
#[verifier::ext_equal]
pub struct TapModel {
    pub state: StateModel,
    pub mouse: MouseCell,
    pub event_mask: u64,
    pub disable_hotkey: Option<Hotkey>,
    pub hotkey_specs: Seq<(Seq<char>, WmCommand)>,
    pub hotkeys: Seq<(Hotkey, WmCommand)>,
    pub outbox: Seq<TapAction>,
}

/// The descriptions and commands of a list of bindings.
pub open spec fn specs_view(specs: Seq<(String, WmCommand)>) -> Seq<(Seq<char>, WmCommand)> {
    specs.map_values(|b: (String, WmCommand)| (b.0@, b.1))
}

impl View for EventTap {
    type V = TapModel;

    open spec fn view(&self) -> TapModel {
        TapModel {
            state: self.state@,
            mouse: self.mouse,
            event_mask: self.event_mask,
            disable_hotkey: self.disable_hotkey,
            hotkey_specs: specs_view(self.hotkey_specs@),
            hotkeys: self.hotkeys@,
            outbox: self.outbox@,
        }
    }
}

/// `t` with one more action to do.
pub open spec fn emit(t: TapModel, action: TapAction) -> TapModel {
    TapModel { outbox: t.outbox.push(action), ..t }
}

/// `t` with another state.
pub open spec fn with_state(t: TapModel, state: StateModel) -> TapModel {
    TapModel { state, ..t }
}

pub open spec fn keyboard_handled(t: TapModel) -> bool {
    t.disable_hotkey is Some || t.hotkeys.len() > 0
}

pub open spec fn mouse_moves_handled(s: StateModel) -> bool {
    s.event_processing_enabled && (s.stack_line_enabled || (s.ffm_config_enabled && s.ffm_enabled))
}

pub open spec fn desired_mask(t: TapModel) -> u64 {
    event_mask(keyboard_handled(t), mouse_moves_handled(t.state))
}

/// A new tap is asked for exactly where the installed one has another mask.
pub open spec fn after_mask_check(t: TapModel) -> TapModel {
    if desired_mask(t) == t.event_mask {
        t
    } else {
        emit(t, TapAction::RebuildTap(desired_mask(t)))
    }
}

/// The cursor is hidden unless it is already, where focus changes hide it.
pub open spec fn after_warp_request(t: TapModel, action: TapAction) -> TapModel {
    let warped = emit(t, action);
    if t.state.mouse_hides_on_focus && !t.state.hidden {
        emit(
            with_state(warped, StateModel { hidden: true, ..t.state }),
            TapAction::HideMouse,
        )
    } else {
        warped
    }
}

/// The frames of screens that show a space, with it, in order.
pub open spec fn shown_spaces(screens: Seq<(CGRect, Option<SpaceId>)>) -> Seq<(CGRect, SpaceId)>
    decreases screens.len(),
{
    if screens.len() == 0 {
        Seq::empty()
    } else {
        let before = shown_spaces(screens.drop_last());
        match screens.last().1 {
            Some(space) => before.push((screens.last().0, space)),
            None => before,
        }
    }
}

/// The frames of a list of screens.
pub open spec fn frames_of(screens: Seq<(CGRect, Option<SpaceId>)>) -> Seq<CGRect> {
    screens.map_values(|s: (CGRect, Option<SpaceId>)| s.0)
}

/// Screens paired with spaces, as far as there are both.
pub open spec fn paired(screens: Seq<CGRect>, spaces: Seq<Option<SpaceId>>) -> Seq<
    (CGRect, Option<SpaceId>),
> {
    Seq::new(
        if screens.len() <= spaces.len() {
            screens.len()
        } else {
            spaces.len()
        },
        |i: int| (screens[i], spaces[i]),
    )
}

/// The modes of a list of spaces; of a space that occurs twice, the last.
pub open spec fn modes_map(modes: Seq<(SpaceId, LayoutMode)>) -> Map<SpaceId, LayoutMode>
    decreases modes.len(),
{
    if modes.len() == 0 {
        Map::empty()
    } else {
        modes_map(modes.drop_last()).insert(modes.last().0, modes.last().1)
    }
}

/// `table` with `command` bound to `hotkey`.
pub open spec fn with_binding(
    table: Seq<(Hotkey, WmCommand)>,
    hotkey: Hotkey,
    command: WmCommand,
) -> Seq<(Hotkey, WmCommand)> {
    if table.contains((hotkey, command)) {
        table
    } else {
        table.push((hotkey, command))
    }
}

/// `table` with `command` bound to the key under each of the modifier sets.
pub open spec fn with_expansions(
    table: Seq<(Hotkey, WmCommand)>,
    expansions: Seq<Modifiers>,
    key_code: KeyCode,
    command: WmCommand,
) -> Seq<(Hotkey, WmCommand)>
    decreases expansions.len(),
{
    if expansions.len() == 0 {
        table
    } else {
        with_binding(
            with_expansions(table, expansions.drop_last(), key_code, command),
            Hotkey { modifiers: expansions.last(), key_code },
            command,
        )
    }
}

/// `table` with one description's command bound to what the description means;
/// a description that means nothing is skipped.
pub open spec fn with_resolved(
    table: Seq<(Hotkey, WmCommand)>,
    resolved: Option<ResolvedHotkey>,
    command: WmCommand,
) -> Seq<(Hotkey, WmCommand)> {
    match resolved {
        None => table,
        Some(r) => match r.expansions {
            Some(expansions) => with_expansions(table, expansions@, r.hotkey.key_code, command),
            None => with_binding(table, r.hotkey, command),
        },
    }
}

/// The bindings of the first `count` descriptions. One without a resolution
/// means nothing.
pub open spec fn binding_table(
    specs: Seq<(Seq<char>, WmCommand)>,
    resolved: Seq<Option<ResolvedHotkey>>,
    count: int,
) -> Seq<(Hotkey, WmCommand)>
    decreases count,
{
    if count <= 0 {
        Seq::empty()
    } else {
        let before = binding_table(specs, resolved, count - 1);
        if count - 1 < resolved.len() {
            with_resolved(before, resolved[count - 1], specs[count - 1].1)
        } else {
            before
        }
    }
}

/// `t` with the bindings resolved anew.
pub open spec fn with_bindings(
    t: TapModel,
    specs: Seq<(Seq<char>, WmCommand)>,
    resolved: Seq<Option<ResolvedHotkey>>,
) -> TapModel {
    TapModel {
        hotkey_specs: specs,
        hotkeys: binding_table(specs, resolved, specs.len() as int),
        ..t
    }
}

/// `s` with the settings of `config`.
pub open spec fn with_settings(s: StateModel, config: TapConfig) -> StateModel {
    StateModel {
        ffm_dwell_ms: config.focus_follows_mouse_dwell_ms,
        mouse_hides_on_focus: config.mouse_hides_on_focus,
        ffm_config_enabled: config.focus_follows_mouse,
        stack_line_enabled: config.stack_line_enabled,
        default_layout_mode: config.layout_mode,
        ..s
    }
}

/// `t` under new settings. `held` are the modifiers held now.
pub open spec fn after_config(t: TapModel, config: TapConfig, held: Modifiers) -> TapModel {
    let configured = with_settings(t.state, config);
    let active = match config.focus_follows_mouse_disable_hotkey {
        Some(target) => disable_hotkey_held(configured, target, held),
        None => false,
    };
    let refreshed = StateModel { disable_hotkey_active: active, ..configured };
    let settled = if t.state.disable_hotkey_active && !active {
        after_reset(refreshed, true)
    } else {
        refreshed
    };
    let next = TapModel {
        disable_hotkey: config.focus_follows_mouse_disable_hotkey,
        state: settled,
        ..t
    };
    if t.state.mouse_hides_on_focus && !config.mouse_hides_on_focus {
        after_shown(next)
    } else {
        next
    }
}

/// `t` with the cursor hidden once more, where it should be.
pub open spec fn after_enforce_hidden(t: TapModel) -> TapModel {
    if t.state.mouse_hides_on_focus && t.state.hidden {
        emit(t, TapAction::HideMouse)
    } else {
        t
    }
}

/// `t` with other screens.
pub open spec fn after_screens(
    t: TapModel,
    screens: Seq<(CGRect, Option<SpaceId>)>,
    converter: CoordinateConverter,
) -> TapModel {
    with_state(
        t,
        StateModel {
            screens: frames_of(screens),
            screen_spaces: shown_spaces(screens),
            converter,
            ..t.state
        },
    )
}

/// `t` with other spaces on the same screens.
pub open spec fn after_spaces(t: TapModel, spaces: Seq<Option<SpaceId>>) -> TapModel {
    with_state(
        t,
        StateModel { screen_spaces: shown_spaces(paired(t.state.screens, spaces)), ..t.state },
    )
}

/// `t` with event processing switched.
pub open spec fn after_processing_set(t: TapModel, enabled: bool) -> TapModel {
    after_mask_check(
        with_state(
            t,
            after_reset(StateModel { event_processing_enabled: enabled, ..t.state }, enabled),
        ),
    )
}

/// `t` with focus follows mouse switched; setting what is set already changes
/// nothing.
pub open spec fn after_ffm_set(t: TapModel, enabled: bool) -> TapModel {
    if t.state.ffm_enabled != enabled {
        after_mask_check(
            with_state(t, after_reset(StateModel { ffm_enabled: enabled, ..t.state }, enabled)),
        )
    } else {
        t
    }
}

/// `t` with the power mode switched, which restarts sampling.
pub open spec fn after_power_mode(t: TapModel, enabled: bool) -> TapModel {
    if t.state.low_power_mode != enabled {
        with_state(
            t,
            StateModel { low_power_mode: enabled, last_loc: None, last_timestamp: 0, ..t.state },
        )
    } else {
        t
    }
}

/// `t` once `request` was handled. `held` are the modifiers held now.
pub open spec fn after_request(t: TapModel, request: Request, held: Modifiers) -> TapModel {
    match request {
        Request::Warp(point) => after_warp_request(t, TapAction::WarpMouse(point)),
        Request::WarpSilent(point) => after_warp_request(t, TapAction::WarpMouseSilent(point)),
        Request::EnforceHidden => after_enforce_hidden(t),
        Request::ScreenParametersChanged(screens, converter) => after_screens(
            t,
            screens@,
            converter,
        ),
        Request::SpaceChanged(spaces) => after_spaces(t, spaces@),
        Request::SetEventProcessing(enabled) => after_processing_set(t, enabled),
        Request::SetFocusFollowsMouseEnabled(enabled) => after_ffm_set(t, enabled),
        Request::SetHotkeys(bindings, resolved) => after_mask_check(
            with_bindings(t, specs_view(bindings@), resolved@),
        ),
        Request::KeyboardLayoutChanged(resolved) => after_mask_check(
            with_bindings(t, t.hotkey_specs, resolved@),
        ),
        Request::ConfigUpdated(config) => after_mask_check(after_config(t, config, held)),
        Request::LayoutModesChanged(modes) => with_state(
            t,
            StateModel { layout_modes: modes_map(modes@), ..t.state },
        ),
        Request::SetLowPowerMode(enabled) => after_power_mode(t, enabled),
    }
}

pub open spec fn is_button_down(kind: EventKind) -> bool {
    kind is LeftMouseDown || kind is RightMouseDown
}

pub open spec fn is_button_up(kind: EventKind) -> bool {
    kind is LeftMouseUp || kind is RightMouseUp
}

pub open spec fn is_drag(kind: EventKind) -> bool {
    kind is LeftMouseDragged || kind is RightMouseDragged
}

/// The button state that an event shows, if any.
pub open spec fn mouse_after(mouse: MouseCell, kind: EventKind) -> MouseCell {
    if is_button_down(kind) || is_drag(kind) {
        MouseCell { code: mouse_code(MouseState::Down) }
    } else if is_button_up(kind) {
        MouseCell { code: mouse_code(MouseState::Up) }
    } else {
        mouse
    }
}

/// Modifier tracking on an event that is no keyboard event: changed flags are
/// adopted, so that a lost key-up does not leave a modifier behind.
pub open spec fn after_flag_sync(t: TapModel, event: TapEvent, held: Modifiers) -> TapModel {
    if is_key_event(event.kind) || event.flags == t.state.current_flags {
        t
    } else {
        with_state(
            t,
            after_refresh(
                after_reconcile(StateModel { current_flags: event.flags, ..t.state }),
                t.disable_hotkey,
                held,
            ),
        )
    }
}

/// The commands of the first `count` bindings that `hotkey` runs, in order.
pub open spec fn bound_commands(
    table: Seq<(Hotkey, WmCommand)>,
    hotkey: Hotkey,
    count: int,
) -> Seq<TapAction>
    decreases count,
{
    if count <= 0 {
        Seq::empty()
    } else {
        let before = bound_commands(table, hotkey, count - 1);
        if table[count - 1].0 == hotkey {
            before.push(TapAction::RunCommand(table[count - 1].1))
        } else {
            before
        }
    }
}

/// The key and then the flags of a keyboard event: the key is noted against the
/// flags known before it.
pub open spec fn after_key_event(s: StateModel, event: TapEvent) -> StateModel {
    let noted = match event.key {
        Some(key) => after_key(s, event.kind, key),
        None => s,
    };
    StateModel { current_flags: event.flags, ..noted }
}

/// A hotkey that went down, and whether its event is passed on: it is not where
/// a command is bound to it.
pub open spec fn after_hotkey(t: TapModel, hotkey: Hotkey) -> (TapModel, bool) {
    let t1 = if opens_mission_control(hotkey) {
        emit(t, TapAction::SendMissionControlNativeEntered)
    } else {
        t
    };
    let commands = bound_commands(t.hotkeys, hotkey, t.hotkeys.len() as int);
    (TapModel { outbox: t1.outbox + commands, ..t1 }, commands.len() == 0)
}

/// A keyboard event, and whether it is passed on.
pub open spec fn after_keyboard_event(t: TapModel, event: TapEvent, held: Modifiers) -> (
    TapModel,
    bool,
) {
    let t1 = with_state(t, after_refresh(after_key_event(t.state, event), t.disable_hotkey, held));
    match event.key {
        Some(key) if event.kind is KeyDown => after_hotkey(
            t1,
            Hotkey { modifiers: held, key_code: key },
        ),
        _ => (t1, true),
    }
}

/// A mouse move once the cursor is shown.
pub open spec fn after_mouse_moved(t: TapModel, event: TapEvent) -> TapModel {
    let sampling = sampling_profile(t.state.low_power_mode);
    if !samples_move(t.state, event.location, event.timestamp, sampling) {
        t
    } else {
        let t1 = with_state(
            t,
            after_move(t.state, event.location, event.timestamp, sampling),
        );
        let t2 = if t.state.stack_line_enabled {
            emit(
                t1,
                TapAction::StackLineMouseMoved {
                    point: event.location,
                    hits_indicator: event.hits_indicator && !event.occluded,
                },
            )
        } else {
            t1
        };
        let t3 = emit(t2, TapAction::SendMouseMoved);
        if !(t.state.ffm_config_enabled && t.state.ffm_enabled && !t.state.disable_hotkey_active) {
            t3
        } else {
            match event_window(event.window_at_point, event.window_field) {
                None => t3,
                Some(wsid) => {
                    let hovered = with_state(t3, after_hover(t3.state, wsid));
                    match hover_outcome(t3.state, wsid) {
                        FfmHover::NoChange => hovered,
                        FfmHover::RaiseNow(w) => emit(
                            hovered,
                            TapAction::SendMouseMovedOverWindow(w),
                        ),
                        FfmHover::Armed(ms) => emit(hovered, TapAction::ArmDwellTimer(ms)),
                    }
                },
            }
        }
    }
}

/// A hidden cursor is shown.
pub open spec fn after_shown(t: TapModel) -> TapModel {
    if t.state.hidden {
        emit(with_state(t, StateModel { hidden: false, ..t.state }), TapAction::ShowMouse)
    } else {
        t
    }
}

/// Any input event, and whether it is passed on. `held` are the modifiers held
/// once the event's own key and flags are taken in.
pub open spec fn after_event(t: TapModel, event: TapEvent, held: Modifiers) -> (TapModel, bool) {
    let synced = after_flag_sync(t, event, held);
    let t1 = TapModel { mouse: mouse_after(t.mouse, event.kind), ..synced };
    if is_button_down(event.kind) && event.hits_indicator && !event.occluded {
        (emit(t1, TapAction::StackLineMouseDown(event.location)), false)
    } else if is_key_event(event.kind) {
        after_keyboard_event(t1, event, held)
    } else if !t1.state.event_processing_enabled {
        (t1, true)
    } else {
        let t2 = after_shown(t1);
        if is_button_down(event.kind) {
            (emit(t2, TapAction::SendMouseDown), true)
        } else if is_button_up(event.kind) {
            (emit(t2, TapAction::SendMouseUp), true)
        } else if event.kind is MouseMoved {
            (after_mouse_moved(t2, event), true)
        } else {
            (t2, true)
        }
    }
}

/// The tap was switched back on after the system had disabled it: keys released
/// meanwhile must not linger.
pub open spec fn after_reenabled(t: TapModel, flags: CGEventFlags, held: Modifiers) -> TapModel {
    with_state(
        t,
        after_refresh(
            StateModel { pressed_keys: Set::empty(), current_flags: flags, ..t.state },
            t.disable_hotkey,
            held,
        ),
    )
}

/// Mouse-move handling is suppressed, wrongly if it lasts.
pub open spec fn handling_suppressed(s: StateModel) -> bool {
    (s.ffm_config_enabled && !s.ffm_enabled) || !s.event_processing_enabled
}

pub open spec fn next_stuck_ticks(s: StateModel) -> u32 {
    if !handling_suppressed(s) {
        0
    } else if s.stuck_ticks < u32::MAX {
        (s.stuck_ticks + 1) as u32
    } else {
        s.stuck_ticks
    }
}

/// A watchdog tick: the tap is enabled again, stale modifiers are dropped, and
/// handling that stayed suppressed too long is forced back on.
pub open spec fn after_watchdog(t: TapModel) -> TapModel {
    let enabled = emit(t, TapAction::EnableTap);
    let reconciled = after_reconcile(t.state);
    let ticks = next_stuck_ticks(reconciled);
    if ticks >= STUCK_TICKS_LIMIT {
        after_mask_check(
            with_state(
                enabled,
                after_reset(
                    StateModel {
                        event_processing_enabled: true,
                        ffm_enabled: true,
                        stuck_ticks: 0,
                        ..reconciled
                    },
                    true,
                ),
            ),
        )
    } else {
        with_state(enabled, StateModel { stuck_ticks: ticks, ..reconciled })
    }
}

/// The dwell is over: the pending window is raised, once.
pub open spec fn after_dwell(t: TapModel) -> TapModel {
    match t.state.pending_ffm_raise {
        Some(wsid) => emit(
            with_state(t, StateModel { pending_ffm_raise: None, ..t.state }),
            TapAction::SendMouseMovedOverWindow(wsid),
        ),
        None => t,
    }
}

/// A warp that moved the cursor forgets what was hovered: the windows swept over
/// are not raised.
pub open spec fn after_warp(t: TapModel, succeeded: bool) -> TapModel {
    if succeeded {
        with_state(t, StateModel { above_window: None, pending_ffm_raise: None, ..t.state })
    } else {
        t
    }
}

/// The tap made for `config`. `held` are the modifiers held at the time.
pub open spec fn initial_tap(config: TapConfig, low_power_mode: bool, held: Modifiers) -> TapModel {
    let configured = with_settings(initial_state(low_power_mode), config);
    let disable_hotkey = config.focus_follows_mouse_disable_hotkey;
    let state = StateModel {
        disable_hotkey_active: match disable_hotkey {
            Some(target) => disable_hotkey_held(configured, target, held),
            None => false,
        },
        ..configured
    };
    TapModel {
        state,
        mouse: MouseCell { code: 0 },
        event_mask: event_mask(disable_hotkey is Some, mouse_moves_handled(state)),
        disable_hotkey,
        hotkey_specs: Seq::empty(),
        hotkeys: Seq::empty(),
        outbox: Seq::empty(),
    }
}

/// `read` tells the modifiers held from the event flags and the pressed keys,
/// always the same for the same.
pub open spec fn reads_modifiers<F>(read: F) -> bool where
    F: Fn(CGEventFlags, &VecSet<KeyCode>) -> Modifiers,
 {
    &&& forall|flags: CGEventFlags, keys: &VecSet<KeyCode>|
        #[trigger] call_requires(read, (flags, keys))
    &&& forall|flags: CGEventFlags, keys: &VecSet<KeyCode>, a: Modifiers, b: Modifiers|
        #[trigger] call_ensures(read, (flags, keys), a) && #[trigger] call_ensures(
            read,
            (flags, keys),
            b,
        ) ==> a == b
}

/// The modifiers that `read` tells.
pub open spec fn modifiers_read<F>(read: F, flags: CGEventFlags, keys: &VecSet<KeyCode>) -> Modifiers where
    F: Fn(CGEventFlags, &VecSet<KeyCode>) -> Modifiers,
 {
    choose|m: Modifiers| call_ensures(read, (flags, keys), m)
}

/// The modifiers held in a tap's present state.
pub open spec fn held_now<F>(read: F, tap: EventTap) -> Modifiers where
    F: Fn(CGEventFlags, &VecSet<KeyCode>) -> Modifiers,
 {
    modifiers_read(read, tap.state.current_flags, &tap.state.pressed_keys)
}

impl EventTap {
    pub open spec fn wf(&self) -> bool {
        self.state.wf()
    }

    fn held<F>(&self, read: &F) -> (m: Modifiers) where
        F: Fn(CGEventFlags, &VecSet<KeyCode>) -> Modifiers,

        requires
            reads_modifiers(*read),
        ensures
            m == held_now(*read, *self),
    {
        let m = read(self.state.current_flags, &self.state.pressed_keys);
        assert(call_ensures(read, (self.state.current_flags, &self.state.pressed_keys), m));
        m
    }

    /// A tap for `config`. The power mode is sampled, and `read` tells the
    /// modifiers held.
    pub fn new<F>(config: TapConfig, low_power_mode: bool, read: F) -> (tap: EventTap) where
        F: Fn(CGEventFlags, &VecSet<KeyCode>) -> Modifiers,

        requires
            reads_modifiers(read),
        ensures
            tap.wf(),
            tap@ == initial_tap(config, low_power_mode, held_now(read, tap)),
    {
        let mut state = State::new(low_power_mode);
        apply_settings(&mut state, config);
        let mut tap = EventTap {
            state,
            mouse: MouseCell::new(),
            event_mask: 0,
            disable_hotkey: config.focus_follows_mouse_disable_hotkey,
            hotkey_specs: Vec::new(),
            hotkeys: Vec::new(),
            outbox: Vec::new(),
        };
        let active = match tap.disable_hotkey {
            Some(target) => {
                let held = tap.held(&read);
                tap.state.compute_disable_hotkey_active(&target, held)
            },
            None => false,
        };
        tap.state.disable_hotkey_active = active;
        tap.event_mask = tap.desired_event_mask();
        proof {
            assert(specs_view(tap.hotkey_specs@) =~= Seq::empty());
        }
        tap
    }

    fn keyboard_handlers_enabled(&self) -> (b: bool)
        ensures
            b == keyboard_handled(self@),
    {
        self.disable_hotkey.is_some() || self.hotkeys.len() > 0
    }

    fn mouse_move_handlers_enabled(&self) -> (b: bool)
        ensures
            b == mouse_moves_handled(self@.state),
    {
        self.state.event_processing_enabled && (self.state.stack_line_enabled || (
        self.state.focus_follows_mouse_config_enabled && self.state.focus_follows_mouse_enabled))
    }

    fn desired_event_mask(&self) -> (m: u64)
        ensures
            m == desired_mask(self@),
    {
        build_event_mask(self.keyboard_handlers_enabled(), self.mouse_move_handlers_enabled())
    }

    fn rebuild_event_tap_mask_if_needed(&mut self)
        ensures
            final(self)@ == after_mask_check(old(self)@),
            final(self).state == old(self).state,
    {
        let next_mask: u64 = self.desired_event_mask();
        if next_mask == self.event_mask {
            return ;
        }
        self.outbox.push(TapAction::RebuildTap(next_mask));
    }

    /// A tap with this mask was installed.
    pub fn tap_rebuilt(&mut self, mask: u64)
        ensures
            final(self)@ == (TapModel { event_mask: mask, ..old(self)@ }),
            old(self).wf() ==> final(self).wf(),
    {
        self.event_mask = mask;
    }

    /// The first tap was installed.
    pub fn started(&mut self)
        ensures
            final(self)@ == (if old(self)@.state.mouse_hides_on_focus {
                emit(old(self)@, TapAction::AllowHideMouse)
            } else {
                old(self)@
            }),
            old(self).wf() ==> final(self).wf(),
    {
        if self.state.mouse_hides_on_focus {
            self.outbox.push(TapAction::AllowHideMouse);
        }
    }

    /// The warp last asked for was tried.
    pub fn warp_finished(&mut self, succeeded: bool)
        ensures
            final(self)@ == after_warp(old(self)@, succeeded),
            old(self).wf() ==> final(self).wf(),
    {
        if succeeded {
            self.state.above_window = None;
            self.state.pending_ffm_raise = None;
        }
    }

    /// The dwell timer fired.
    pub fn dwell_elapsed(&mut self)
        ensures
            final(self)@ == after_dwell(old(self)@),
            old(self).wf() ==> final(self).wf(),
    {
        let pending = self.state.pending_ffm_raise.take();
        if let Some(wsid) = pending {
            self.outbox.push(TapAction::SendMouseMovedOverWindow(wsid));
        }
    }

    /// The watchdog timer fired.
    pub fn watchdog_tick(&mut self)
        requires
            old(self).wf(),
        ensures
            final(self).wf(),
            final(self)@ == after_watchdog(old(self)@),
    {
        self.outbox.push(TapAction::EnableTap);
        self.state.reconcile_modifier_keys();
        let ffm_stuck = self.state.focus_follows_mouse_config_enabled
            && !self.state.focus_follows_mouse_enabled;
        let processing_stuck = !self.state.event_processing_enabled;
        if ffm_stuck || processing_stuck {
            if self.state.mouse_handling_stuck_ticks < u32::MAX {
                self.state.mouse_handling_stuck_ticks += 1;
            }
        } else {
            self.state.mouse_handling_stuck_ticks = 0;
        }
        if self.state.mouse_handling_stuck_ticks >= STUCK_TICKS_LIMIT {
            self.state.event_processing_enabled = true;
            self.state.focus_follows_mouse_enabled = true;
            self.state.mouse_handling_stuck_ticks = 0;
            self.state.reset(true);
            self.rebuild_event_tap_mask_if_needed();
        }
    }

    fn request_warp(&mut self, action: TapAction)
        ensures
            final(self)@ == after_warp_request(old(self)@, action),
            final(self).state.pressed_keys == old(self).state.pressed_keys,
            old(self).wf() ==> final(self).wf(),
    {
        self.outbox.push(action);
        if self.state.mouse_hides_on_focus && !self.state.hidden {
            self.outbox.push(TapAction::HideMouse);
            self.state.hidden = true;
        }
    }

    fn enforce_hidden(&mut self)
        ensures
            final(self)@ == after_enforce_hidden(old(self)@),
            old(self).wf() ==> final(self).wf(),
    {
        if self.state.mouse_hides_on_focus && self.state.hidden {
            self.outbox.push(TapAction::HideMouse);
        }
    }

    fn set_screens(&mut self, screens: &Vec<(CGRect, Option<SpaceId>)>, converter: CoordinateConverter)
        ensures
            final(self)@ == after_screens(old(self)@, screens@, converter),
            old(self).wf() ==> final(self).wf(),
    {
        self.state.screens = screen_frames(screens);
        self.state.screen_spaces = screens_with_space(screens);
        self.state.converter = converter;
    }

    fn set_spaces(&mut self, spaces: &Vec<Option<SpaceId>>)
        ensures
            final(self)@ == after_spaces(old(self)@, spaces@),
            old(self).wf() ==> final(self).wf(),
    {
        let screens = pair_screens(&self.state.screens, spaces);
        self.state.screen_spaces = screens_with_space(&screens);
    }

    fn set_event_processing(&mut self, enabled: bool)
        ensures
            final(self)@ == after_processing_set(old(self)@, enabled),
            old(self).wf() ==> final(self).wf(),
    {
        self.state.event_processing_enabled = enabled;
        self.state.reset(enabled);
        self.rebuild_event_tap_mask_if_needed();
    }

    /// Redundant sets arrive on every app activation. Resetting hover state on
    /// one would make the next move count as a fresh hover and raise the window
    /// under the cursor again.
    fn set_focus_follows_mouse_enabled(&mut self, enabled: bool)
        ensures
            final(self)@ == after_ffm_set(old(self)@, enabled),
            old(self).wf() ==> final(self).wf(),
    {
        if self.state.focus_follows_mouse_enabled != enabled {
            self.state.focus_follows_mouse_enabled = enabled;
            self.state.reset(enabled);
            self.rebuild_event_tap_mask_if_needed();
        }
    }

    fn set_low_power_mode(&mut self, enabled: bool)
        ensures
            final(self)@ == after_power_mode(old(self)@, enabled),
            old(self).wf() ==> final(self).wf(),
    {
        if self.state.low_power_mode != enabled {
            self.state.low_power_mode = enabled;
            self.state.last_mouse_move_loc = None;
            self.state.last_mouse_move_timestamp = 0;
        }
    }

    fn set_layout_modes(&mut self, modes: &Vec<(SpaceId, LayoutMode)>)
        requires
            old(self).wf(),
        ensures
            final(self).wf(),
            final(self)@ == with_state(
                old(self)@,
                StateModel { layout_modes: modes_map(modes@), ..old(self)@.state },
            ),
    {
        self.state.layout_mode_by_space = layout_modes(modes);
    }

    /// Handle a request. `read` tells the modifiers held.
    pub fn on_request<F>(&mut self, request: Request, read: F) where
        F: Fn(CGEventFlags, &VecSet<KeyCode>) -> Modifiers,

        requires
            old(self).wf(),
            reads_modifiers(read),
        ensures
            final(self).wf(),
            final(self)@ == after_request(old(self)@, request, held_now(read, *final(self))),
    {
        match request {
            Request::Warp(point) => self.request_warp(TapAction::WarpMouse(point)),
            Request::WarpSilent(point) => self.request_warp(TapAction::WarpMouseSilent(point)),
            Request::EnforceHidden => self.enforce_hidden(),
            Request::ScreenParametersChanged(screens, converter) => {
                self.set_screens(&screens, converter)
            },
            Request::SpaceChanged(spaces) => self.set_spaces(&spaces),
            Request::SetEventProcessing(enabled) => self.set_event_processing(enabled),
            Request::SetFocusFollowsMouseEnabled(enabled) => {
                self.set_focus_follows_mouse_enabled(enabled)
            },
            Request::SetHotkeys(bindings, resolved) => {
                self.hotkey_specs = bindings;
                self.rebuild_hotkeys_for_current_layout(&resolved);
                self.rebuild_event_tap_mask_if_needed();
            },
            Request::KeyboardLayoutChanged(resolved) => {
                self.rebuild_hotkeys_for_current_layout(&resolved);
                self.rebuild_event_tap_mask_if_needed();
            },
            Request::ConfigUpdated(config) => {
                self.update_config(config, &read);
                self.rebuild_event_tap_mask_if_needed();
            },
            Request::LayoutModesChanged(modes) => self.set_layout_modes(&modes),
            Request::SetLowPowerMode(enabled) => self.set_low_power_mode(enabled),
        }
    }

    fn update_config<F>(&mut self, config: TapConfig, read: &F) where
        F: Fn(CGEventFlags, &VecSet<KeyCode>) -> Modifiers,

        requires
            old(self).wf(),
            reads_modifiers(*read),
        ensures
            final(self).wf(),
            final(self)@ == after_config(old(self)@, config, held_now(*read, *final(self))),
    {
        let prev_mouse_hides_on_focus = self.state.mouse_hides_on_focus;
        self.disable_hotkey = config.focus_follows_mouse_disable_hotkey;
        apply_settings(&mut self.state, config);
        let prev_active = self.state.disable_hotkey_active;
        let active = match self.disable_hotkey {
            Some(target) => {
                let held = self.held(read);
                self.state.compute_disable_hotkey_active(&target, held)
            },
            None => false,
        };
        self.state.disable_hotkey_active = active;
        if prev_active && !active {
            self.state.reset(true);
        }
        if prev_mouse_hides_on_focus && !config.mouse_hides_on_focus {
            self.show_hidden_mouse();
        }
    }

    /// Bring the suspension of focus follows mouse up to date. `read` tells the
    /// modifiers held.
    pub fn refresh_disable_hotkey_state<F>(&mut self, read: &F) where
        F: Fn(CGEventFlags, &VecSet<KeyCode>) -> Modifiers,

        requires
            old(self).wf(),
            reads_modifiers(*read),
        ensures
            final(self).wf(),
            final(self).state.current_flags == old(self).state.current_flags,
            final(self).state.pressed_keys == old(self).state.pressed_keys,
            final(self)@ == with_state(
                old(self)@,
                after_refresh(
                    old(self)@.state,
                    old(self)@.disable_hotkey,
                    held_now(*read, *old(self)),
                ),
            ),
    {
        if let Some(target) = self.disable_hotkey {
            let prev_active = self.state.disable_hotkey_active;
            let held = self.held(read);
            let active = self.state.compute_disable_hotkey_active(&target, held);
            self.state.disable_hotkey_active = active;
            if prev_active && !active {
                self.state.reset(true);
            }
        }
    }

    /// The system had disabled the tap and it is on again; `flags` are those of
    /// the event that showed it.
    pub fn on_tap_reenabled<F>(&mut self, flags: CGEventFlags, read: F) where
        F: Fn(CGEventFlags, &VecSet<KeyCode>) -> Modifiers,

        requires
            old(self).wf(),
            reads_modifiers(read),
        ensures
            final(self).wf(),
            final(self)@ == after_reenabled(old(self)@, flags, held_now(read, *final(self))),
    {
        self.state.pressed_keys = VecSet::new();
        self.state.current_flags = flags;
        self.state.reconcile_modifier_keys();
        proof {
            assert(self.state@.pressed_keys =~= Set::empty());
        }
        self.refresh_disable_hotkey_state(&read);
    }

    /// Keep modifier-only hotkey state in sync even where a key-up or a flags
    /// change was dropped (common after system interruptions).
    fn sync_flags<F>(&mut self, event: TapEvent, read: &F) where
        F: Fn(CGEventFlags, &VecSet<KeyCode>) -> Modifiers,

        requires
            old(self).wf(),
            reads_modifiers(*read),
        ensures
            final(self).wf(),
            final(self)@ == after_flag_sync(old(self)@, event, held_now(*read, *final(self))),
    {
        let is_key = matches!(
            event.kind,
            EventKind::KeyDown | EventKind::KeyUp | EventKind::FlagsChanged
        );
        if !is_key && event.flags != self.state.current_flags {
            self.state.current_flags = event.flags;
            self.state.reconcile_modifier_keys();
            self.refresh_disable_hotkey_state(read);
        }
    }

    fn note_buttons(&mut self, kind: EventKind)
        ensures
            final(self)@ == (TapModel {
                mouse: mouse_after(old(self)@.mouse, kind),
                ..old(self)@
            }),
            final(self).state == old(self).state,
    {
        match kind {
            EventKind::LeftMouseDown | EventKind::RightMouseDown => {
                set_mouse_state(&mut self.mouse, MouseState::Down);
            },
            EventKind::LeftMouseDragged | EventKind::RightMouseDragged => {
                set_mouse_state(&mut self.mouse, MouseState::Down);
            },
            EventKind::LeftMouseUp | EventKind::RightMouseUp => {
                set_mouse_state(&mut self.mouse, MouseState::Up);
            },
            _ => {},
        }
    }

    fn show_hidden_mouse(&mut self)
        ensures
            final(self)@ == after_shown(old(self)@),
            final(self).state.current_flags == old(self).state.current_flags,
            final(self).state.pressed_keys == old(self).state.pressed_keys,
            old(self).wf() ==> final(self).wf(),
    {
        if self.state.hidden {
            self.outbox.push(TapAction::ShowMouse);
            self.state.hidden = false;
        }
    }

    fn push_action(&mut self, action: TapAction)
        ensures
            final(self)@ == emit(old(self)@, action),
            final(self).state == old(self).state,
    {
        self.outbox.push(action);
    }

    /// Handle an input event. Returns whether it is passed on. `read` tells the
    /// modifiers held.
    pub fn on_event<F>(&mut self, event: TapEvent, read: F) -> (pass: bool) where
        F: Fn(CGEventFlags, &VecSet<KeyCode>) -> Modifiers,

        requires
            old(self).wf(),
            reads_modifiers(read),
        ensures
            final(self).wf(),
            (final(self)@, pass) == after_event(
                old(self)@,
                event,
                held_now(read, *final(self)),
            ),
    {
        self.sync_flags(event, &read);
        self.note_buttons(event.kind);
        match event.kind {
            EventKind::LeftMouseDown | EventKind::RightMouseDown => {
                if event.hits_indicator && !event.occluded {
                    self.push_action(TapAction::StackLineMouseDown(event.location));
                    return false;
                }
            },
            EventKind::KeyDown | EventKind::KeyUp | EventKind::FlagsChanged => {
                return self.handle_keyboard_event(event, &read);
            },
            _ => {},
        }
        if !self.state.event_processing_enabled {
            return true;
        }
        self.show_hidden_mouse();
        match event.kind {
            EventKind::LeftMouseDown | EventKind::RightMouseDown => {
                self.push_action(TapAction::SendMouseDown);
            },
            EventKind::RightMouseUp | EventKind::LeftMouseUp => {
                self.push_action(TapAction::SendMouseUp);
            },
            EventKind::MouseMoved => {
                self.handle_mouse_moved(event);
            },
            _ => {},
        }
        true
    }

    fn handle_mouse_moved(&mut self, event: TapEvent)
        requires
            old(self).wf(),
        ensures
            final(self).wf(),
            final(self).state.current_flags == old(self).state.current_flags,
            final(self).state.pressed_keys == old(self).state.pressed_keys,
            final(self)@ == after_mouse_moved(old(self)@, event),
    {
        let sampling = mouse_move_sampling_profile(self.state.low_power_mode);
        if !self.state.should_sample_mouse_move(event.location, event.timestamp, sampling) {
            return ;
        }
        if self.state.stack_line_enabled {
            let hits_indicator = event.hits_indicator && !event.occluded;
            self.outbox.push(
                TapAction::StackLineMouseMoved { point: event.location, hits_indicator },
            );
        }
        self.outbox.push(TapAction::SendMouseMoved);
        if self.state.focus_follows_mouse_config_enabled && self.state.focus_follows_mouse_enabled
            && !self.state.disable_hotkey_active {
            if let Some(wsid) = window_from_mouse_event(event.window_at_point, event.window_field) {
                match self.state.note_ffm_hover(wsid) {
                    FfmHover::RaiseNow(wsid) => {
                        self.outbox.push(TapAction::SendMouseMovedOverWindow(wsid));
                    },
                    FfmHover::Armed(dwell_ms) => {
                        self.outbox.push(TapAction::ArmDwellTimer(dwell_ms));
                    },
                    FfmHover::NoChange => {},
                }
            }
        }
    }

    fn handle_keyboard_event<F>(&mut self, event: TapEvent, read: &F) -> (pass: bool) where
        F: Fn(CGEventFlags, &VecSet<KeyCode>) -> Modifiers,

        requires
            old(self).wf(),
            reads_modifiers(*read),
            is_key_event(event.kind),
        ensures
            final(self).wf(),
            (final(self)@, pass) == after_keyboard_event(
                old(self)@,
                event,
                held_now(*read, *final(self)),
            ),
    {
        self.note_key_event(event);
        self.refresh_disable_hotkey_state(read);
        if event.kind == EventKind::KeyDown {
            if let Some(key_code) = event.key {
                let held = self.held(read);
                return self.handle_hotkey(Hotkey::new(held, key_code));
            }
        }
        true
    }

    fn note_key_event(&mut self, event: TapEvent)
        requires
            old(self).wf(),
        ensures
            final(self).wf(),
            final(self)@ == with_state(old(self)@, after_key_event(old(self)@.state, event)),
    {
        if let Some(key_code) = event.key {
            self.state.note_key(event.kind, key_code);
        }
        self.state.current_flags = event.flags;
    }

    fn handle_hotkey(&mut self, hotkey: Hotkey) -> (pass: bool)
        requires
            old(self).wf(),
        ensures
            final(self).wf(),
            final(self).state == old(self).state,
            (final(self)@, pass) == after_hotkey(old(self)@, hotkey),
    {
        if native_mission_control_hotkey(&hotkey) {
            self.push_action(TapAction::SendMissionControlNativeEntered);
        }
        !self.run_bound_commands(hotkey)
    }

    /// Ask for every command bound to `hotkey`; says whether there is one.
    fn run_bound_commands(&mut self, hotkey: Hotkey) -> (any: bool)
        requires
            old(self).wf(),
        ensures
            final(self).wf(),
            final(self).state == old(self).state,
            ({
                let commands = bound_commands(
                    old(self)@.hotkeys,
                    hotkey,
                    old(self)@.hotkeys.len() as int,
                );
                &&& any == (commands.len() > 0)
                &&& final(self)@ == (TapModel {
                    outbox: old(self)@.outbox + commands,
                    ..old(self)@
                })
            }),
    {
        let mut any = false;
        let mut i: usize = 0;
        while i < self.hotkeys.len()
            invariant
                self.wf(),
                i <= self.hotkeys@.len(),
                self.state == old(self).state,
                self.mouse == old(self).mouse,
                self.event_mask == old(self).event_mask,
                self.disable_hotkey == old(self).disable_hotkey,
                self.hotkey_specs == old(self).hotkey_specs,
                self.hotkeys == old(self).hotkeys,
                self.outbox@ =~= old(self).outbox@ + bound_commands(
                    self.hotkeys@,
                    hotkey,
                    i as int,
                ),
                any == (bound_commands(self.hotkeys@, hotkey, i as int).len() > 0),
            decreases self.hotkeys@.len() - i,
        {
            let (bound, command) = self.hotkeys[i];
            if bound == hotkey {
                self.outbox.push(TapAction::RunCommand(command));
                any = true;
            }
            i += 1;
        }
        any
    }

    fn rebuild_hotkeys_for_current_layout(&mut self, resolved: &Vec<Option<ResolvedHotkey>>)
        ensures
            final(self)@ == with_bindings(old(self)@, old(self)@.hotkey_specs, resolved@),
            final(self).state == old(self).state,
    {
        let mut table: Vec<(Hotkey, WmCommand)> = Vec::new();
        let ghost specs = specs_view(self.hotkey_specs@);
        let mut i: usize = 0;
        while i < self.hotkey_specs.len()
            invariant
                *self == *old(self),
                i <= self.hotkey_specs@.len(),
                specs == specs_view(self.hotkey_specs@),
                table@ == binding_table(specs, resolved@, i as int),
            decreases self.hotkey_specs@.len() - i,
        {
            if i < resolved.len() {
                let command = self.hotkey_specs[i].1;
                assert(specs[i as int].1 == command);
                match &resolved[i] {
                    Some(r) => match &r.expansions {
                        Some(expansions) => {
                            bind_expansions(&mut table, expansions, r.hotkey.key_code, command);
                        },
                        None => {
                            bind(&mut table, r.hotkey, command);
                        },
                    },
                    None => {},
                }
            }
            i += 1;
        }
        self.hotkeys = table;
    }
}

fn apply_settings(state: &mut State, config: TapConfig)
    ensures
        final(state)@ == with_settings(old(state)@, config),
        final(state).current_flags == old(state).current_flags,
        final(state).pressed_keys == old(state).pressed_keys,
        old(state).wf() ==> final(state).wf(),
{
    state.ffm_dwell_ms = config.focus_follows_mouse_dwell_ms;
    state.mouse_hides_on_focus = config.mouse_hides_on_focus;
    state.focus_follows_mouse_config_enabled = config.focus_follows_mouse;
    state.stack_line_enabled = config.stack_line_enabled;
    state.default_layout_mode = config.layout_mode;
}

fn bind(table: &mut Vec<(Hotkey, WmCommand)>, hotkey: Hotkey, command: WmCommand)
    ensures
        final(table)@ == with_binding(old(table)@, hotkey, command),
{
    let mut i: usize = 0;
    while i < table.len()
        invariant
            i <= table@.len(),
            *table == *old(table),
            forall|j: int| 0 <= j < i ==> table@[j] != (hotkey, command),
        decreases table@.len() - i,
    {
        let (bound, known) = table[i];
        if bound == hotkey && known == command {
            assert(table@[i as int] == (hotkey, command));
            return ;
        }
        i += 1;
    }
    table.push((hotkey, command));
}

fn bind_expansions(
    table: &mut Vec<(Hotkey, WmCommand)>,
    expansions: &Vec<Modifiers>,
    key_code: KeyCode,
    command: WmCommand,
)
    ensures
        final(table)@ == with_expansions(old(table)@, expansions@, key_code, command),
{
    let mut i: usize = 0;
    assert(expansions@.take(0) =~= Seq::<Modifiers>::empty());
    while i < expansions.len()
        invariant
            i <= expansions@.len(),
            table@ == with_expansions(
                old(table)@,
                expansions@.take(i as int),
                key_code,
                command,
            ),
        decreases expansions@.len() - i,
    {
        assert(expansions@.take(i + 1).drop_last() =~= expansions@.take(i as int));
        bind(table, Hotkey::new(expansions[i], key_code), command);
        i += 1;
    }
    assert(expansions@.take(i as int) =~= expansions@);
}

fn screen_frames(screens: &Vec<(CGRect, Option<SpaceId>)>) -> (frames: Vec<CGRect>)
    ensures
        frames@ == frames_of(screens@),
{
    let mut frames: Vec<CGRect> = Vec::new();
    let mut i: usize = 0;
    while i < screens.len()
        invariant
            i <= screens@.len(),
            frames@ =~= frames_of(screens@.take(i as int)),
        decreases screens@.len() - i,
    {
        frames.push(screens[i].0);
        i += 1;
    }
    assert(screens@.take(i as int) =~= screens@);
    frames
}

fn screens_with_space(screens: &Vec<(CGRect, Option<SpaceId>)>) -> (shown: Vec<(CGRect, SpaceId)>)
    ensures
        shown@ == shown_spaces(screens@),
{
    let mut shown: Vec<(CGRect, SpaceId)> = Vec::new();
    let mut i: usize = 0;
    assert(screens@.take(0) =~= Seq::<(CGRect, Option<SpaceId>)>::empty());
    while i < screens.len()
        invariant
            i <= screens@.len(),
            shown@ == shown_spaces(screens@.take(i as int)),
        decreases screens@.len() - i,
    {
        assert(screens@.take(i + 1).drop_last() =~= screens@.take(i as int));
        let (frame, space) = screens[i];
        if let Some(space) = space {
            shown.push((frame, space));
        }
        i += 1;
    }
    assert(screens@.take(i as int) =~= screens@);
    shown
}

fn pair_screens(screens: &Vec<CGRect>, spaces: &Vec<Option<SpaceId>>) -> (pairs: Vec<
    (CGRect, Option<SpaceId>),
>)
    ensures
        pairs@ == paired(screens@, spaces@),
{
    let mut pairs: Vec<(CGRect, Option<SpaceId>)> = Vec::new();
    let mut i: usize = 0;
    while i < screens.len() && i < spaces.len()
        invariant
            i <= screens@.len(),
            i <= spaces@.len(),
            pairs@.len() == i,
            forall|j: int| 0 <= j < i ==> pairs@[j] == (screens@[j], spaces@[j]),
        decreases screens@.len() - i,
    {
        pairs.push((screens[i], spaces[i]));
        i += 1;
    }
    assert(pairs@ =~= paired(screens@, spaces@));
    pairs
}

fn layout_modes(modes: &Vec<(SpaceId, LayoutMode)>) -> (m: VecMap<SpaceId, LayoutMode>)
    ensures
        m.wf(),
        m@ == modes_map(modes@),
{
    let mut m: VecMap<SpaceId, LayoutMode> = VecMap::new();
    let mut i: usize = 0;
    assert(modes@.take(0) =~= Seq::<(SpaceId, LayoutMode)>::empty());
    while i < modes.len()
        invariant
            i <= modes@.len(),
            m.wf(),
            m@ == modes_map(modes@.take(i as int)),
        decreases modes@.len() - i,
    {
        assert(modes@.take(i + 1).drop_last() =~= modes@.take(i as int));
        let (space, mode) = modes[i];
        m.insert(space, mode);
        i += 1;
    }
    assert(modes@.take(i as int) =~= modes@);
    m
}

} // verus!
