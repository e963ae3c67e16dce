//! What the tap remembers between events.

use vstd::prelude::*;

use crate::actor::event_tap::{
    CoordinateConverter, EventKind, FfmHover, LayoutMode, MOUSE_MOVE_MIN_DISTANCE_SQ_LOW_POWER,
    MOUSE_MOVE_MIN_DISTANCE_SQ_NORMAL, MOUSE_MOVE_MIN_INTERVAL_NS_LOW_POWER,
    MOUSE_MOVE_MIN_INTERVAL_NS_NORMAL,
};
use crate::collections::{lemma_item, VecMap, VecSet};
use crate::ids::{SpaceId, WindowServerId};
use crate::sys::geometry::{imax, CGPoint, CGRect, CGRectExt};
use crate::sys::hotkey::{
    is_modifier_key, modifier_flag_for_key, CGEventFlags, Hotkey, KEY_ARROW_UP, KEY_F3, KeyCode,
    Modifiers,
};

verus! {

/// What the tap remembers between events.
#[derive(Debug)]
pub struct State {
    pub hidden: bool,
    pub above_window: Option<WindowServerId>,
    /// Window awaiting the dwell confirmation (replaced on every hover change, taken on fire).
    pub pending_ffm_raise: Option<WindowServerId>,
    /// Dwell (ms) before a raise; 0 raises at once.
    pub ffm_dwell_ms: u64,
    pub mouse_hides_on_focus: bool,
    pub focus_follows_mouse_config_enabled: bool,
    pub default_layout_mode: LayoutMode,
    pub converter: CoordinateConverter,
    pub screens: Vec<CGRect>,
    pub event_processing_enabled: bool,
    pub focus_follows_mouse_enabled: bool,
    pub stack_line_enabled: bool,
    pub disable_hotkey_active: bool,
    pub low_power_mode: bool,
    pub pressed_keys: VecSet<KeyCode>,
    pub current_flags: CGEventFlags,
    pub screen_spaces: Vec<(CGRect, SpaceId)>,
    pub layout_mode_by_space: VecMap<SpaceId, LayoutMode>,
    pub last_mouse_move_loc: Option<CGPoint>,
    pub last_mouse_move_timestamp: u64,
    /// Consecutive watchdog ticks observed with mouse-move handling suppressed.
    pub mouse_handling_stuck_ticks: u32,
}

/// [`State`] as a mathematical value.
#[verifier::ext_equal]
pub struct StateModel {
    pub hidden: bool,
    pub above_window: Option<WindowServerId>,
    pub pending_ffm_raise: Option<WindowServerId>,
    pub ffm_dwell_ms: u64,
    pub mouse_hides_on_focus: bool,
    pub ffm_config_enabled: bool,
    pub default_layout_mode: LayoutMode,
    pub converter: CoordinateConverter,
    pub screens: Seq<CGRect>,
    pub event_processing_enabled: bool,
    pub ffm_enabled: bool,
    pub stack_line_enabled: bool,
    pub disable_hotkey_active: bool,
    pub low_power_mode: bool,
    pub pressed_keys: Set<KeyCode>,
    pub current_flags: CGEventFlags,
    pub screen_spaces: Seq<(CGRect, SpaceId)>,
    pub layout_modes: Map<SpaceId, LayoutMode>,
    pub last_loc: Option<CGPoint>,
    pub last_timestamp: u64,
    pub stuck_ticks: u32,
}

impl View for State {
    type V = StateModel;

    open spec fn view(&self) -> StateModel {
        StateModel {
            hidden: self.hidden,
            above_window: self.above_window,
            pending_ffm_raise: self.pending_ffm_raise,
            ffm_dwell_ms: self.ffm_dwell_ms,
            mouse_hides_on_focus: self.mouse_hides_on_focus,
            ffm_config_enabled: self.focus_follows_mouse_config_enabled,
            default_layout_mode: self.default_layout_mode,
            converter: self.converter,
            screens: self.screens@,
            event_processing_enabled: self.event_processing_enabled,
            ffm_enabled: self.focus_follows_mouse_enabled,
            stack_line_enabled: self.stack_line_enabled,
            disable_hotkey_active: self.disable_hotkey_active,
            low_power_mode: self.low_power_mode,
            pressed_keys: self.pressed_keys@,
            current_flags: self.current_flags,
            screen_spaces: self.screen_spaces@,
            layout_modes: self.layout_mode_by_space@,
            last_loc: self.last_mouse_move_loc,
            last_timestamp: self.last_mouse_move_timestamp,
            stuck_ticks: self.mouse_handling_stuck_ticks,
        }
    }
}

/// Square of the distance between two points.
pub open spec fn travel_sq(a: CGPoint, b: CGPoint) -> int {
    (b.x - a.x) * (b.x - a.x) + (b.y - a.y) * (b.y - a.y)
}

/// A move to `loc` at `timestamp` is sampled: it is the first one, or both far
/// enough and late enough after the last sample.
pub open spec fn samples_move(
    s: StateModel,
    loc: CGPoint,
    timestamp: u64,
    sampling: (u64, u64),
) -> bool {
    match s.last_loc {
        None => true,
        Some(last) => travel_sq(last, loc) >= sampling.1 && imax(
            timestamp - s.last_timestamp,
            0,
        ) >= sampling.0,
    }
}

/// The state once a move was offered for sampling.
pub open spec fn after_move(
    s: StateModel,
    loc: CGPoint,
    timestamp: u64,
    sampling: (u64, u64),
) -> StateModel {
    if samples_move(s, loc, timestamp, sampling) {
        StateModel { last_loc: Some(loc), last_timestamp: timestamp, ..s }
    } else {
        s
    }
}

/// Hover state is forgotten; the pending raise always, the rest where handling
/// is switched on.
pub open spec fn after_reset(s: StateModel, enabled: bool) -> StateModel {
    if enabled {
        StateModel {
            pending_ffm_raise: None,
            above_window: None,
            last_loc: None,
            last_timestamp: 0,
            ..s
        }
    } else {
        StateModel { pending_ffm_raise: None, ..s }
    }
}

/// A key stays in the set of pressed keys under `flags`: it reports no flag, or
/// its flag is up.
pub open spec fn still_pressed(key: KeyCode, flags: CGEventFlags) -> bool {
    key.flag matches Some(flag) ==> flags.has(flag)
}

/// Keys whose flag is down are no longer pressed.
pub open spec fn after_reconcile(s: StateModel) -> StateModel {
    StateModel {
        pressed_keys: s.pressed_keys.filter(|k: KeyCode| still_pressed(k, s.current_flags)),
        ..s
    }
}

/// The modifier is held as the target wants it: on the side asked for, or on
/// either where both are.
pub open spec fn side_ok(
    want_left: bool,
    want_right: bool,
    held_left: bool,
    held_right: bool,
) -> bool {
    if want_left && want_right {
        held_left || held_right
    } else {
        (want_left ==> held_left) && (want_right ==> held_right)
    }
}

/// Every modifier of the target is held.
pub open spec fn modifiers_ok(target: Modifiers, held: Modifiers) -> bool {
    &&& side_ok(target.shift_left, target.shift_right, held.shift_left, held.shift_right)
    &&& side_ok(target.control_left, target.control_right, held.control_left, held.control_right)
    &&& side_ok(target.alt_left, target.alt_right, held.alt_left, held.alt_right)
    &&& side_ok(target.meta_left, target.meta_right, held.meta_left, held.meta_right)
}

/// The key is down: a modifier by its flag, any other key by the pressed set.
pub open spec fn key_held(s: StateModel, key: KeyCode) -> bool {
    if key.modifier {
        key.flag matches Some(flag) && s.current_flags.has(flag)
    } else {
        s.pressed_keys.contains(key)
    }
}

/// The hotkey that suspends focus follows mouse is held.
pub open spec fn disable_hotkey_held(s: StateModel, target: Hotkey, held: Modifiers) -> bool {
    modifiers_ok(target.modifiers, held) && key_held(s, target.key_code)
}

/// The suspension is brought up to date; its end forgets the hover state.
pub open spec fn after_refresh(
    s: StateModel,
    disable_hotkey: Option<Hotkey>,
    held: Modifiers,
) -> StateModel {
    match disable_hotkey {
        None => s,
        Some(target) => {
            let active = disable_hotkey_held(s, target, held);
            let next = StateModel { disable_hotkey_active: active, ..s };
            if s.disable_hotkey_active && !active {
                after_reset(next, true)
            } else {
                next
            }
        },
    }
}

/// A key that went down, up, or changed its flag.
pub open spec fn after_key(s: StateModel, kind: EventKind, key: KeyCode) -> StateModel {
    match kind {
        EventKind::KeyDown => StateModel { pressed_keys: s.pressed_keys.insert(key), ..s },
        EventKind::KeyUp => StateModel { pressed_keys: s.pressed_keys.remove(key), ..s },
        EventKind::FlagsChanged => after_flags_changed(s, key),
        _ => s,
    }
}

/// A modifier key follows its flag; other keys are left alone.
pub open spec fn after_flags_changed(s: StateModel, key: KeyCode) -> StateModel {
    if !key.modifier {
        s
    } else {
        match key.flag {
            None => s,
            Some(flag) => if s.current_flags.has(flag) {
                StateModel { pressed_keys: s.pressed_keys.insert(key), ..s }
            } else {
                StateModel { pressed_keys: s.pressed_keys.remove(key), ..s }
            },
        }
    }
}

/// What a hover over `wsid` does.
pub open spec fn hover_outcome(s: StateModel, wsid: WindowServerId) -> FfmHover {
    if s.above_window == Some(wsid) {
        FfmHover::NoChange
    } else if s.ffm_dwell_ms == 0 {
        FfmHover::RaiseNow(wsid)
    } else {
        FfmHover::Armed(s.ffm_dwell_ms)
    }
}

/// The state after a hover over `wsid`.
pub open spec fn after_hover(s: StateModel, wsid: WindowServerId) -> StateModel {
    match hover_outcome(s, wsid) {
        FfmHover::NoChange => s,
        FfmHover::RaiseNow(_) => StateModel { above_window: Some(wsid), ..s },
        FfmHover::Armed(_) => StateModel {
            above_window: Some(wsid),
            pending_ffm_raise: Some(wsid),
            ..s
        },
    }
}

/// The first screen under `loc` that shows a space, from index `from` on.
pub open spec fn space_at(spaces: Seq<(CGRect, SpaceId)>, loc: CGPoint, from: int) -> Option<SpaceId>
    decreases spaces.len() - from,
{
    if from >= spaces.len() {
        None
    } else if spaces[from].0.covers(loc) {
        Some(spaces[from].1)
    } else {
        space_at(spaces, loc, from + 1)
    }
}

/// The window a mouse event is over: the one at its location, else the one it
/// carries, where that is a window id.
pub open spec fn event_window(
    window_at_point: Option<WindowServerId>,
    field_value: i64,
) -> Option<WindowServerId> {
    if window_at_point is Some {
        window_at_point
    } else if 0 < field_value <= u32::MAX {
        Some(WindowServerId { raw: field_value as u32 })
    } else {
        None
    }
}

pub open spec fn sampling_profile(low_power_mode: bool) -> (u64, u64) {
    if low_power_mode {
        (MOUSE_MOVE_MIN_INTERVAL_NS_LOW_POWER, MOUSE_MOVE_MIN_DISTANCE_SQ_LOW_POWER)
    } else {
        (MOUSE_MOVE_MIN_INTERVAL_NS_NORMAL, MOUSE_MOVE_MIN_DISTANCE_SQ_NORMAL)
    }
}

/// F3, or the up arrow with a control key.
pub open spec fn opens_mission_control(hotkey: Hotkey) -> bool {
    hotkey.key_code.code == KEY_F3 || (hotkey.key_code.code == KEY_ARROW_UP && (
    hotkey.modifiers.control_left || hotkey.modifiers.control_right))
}

/// Event types always watched: buttons going down or up, and drags.
pub const BUTTON_EVENTS: u64 = 0xDE;

/// The mouse-moved event type.
pub const MOVE_EVENTS: u64 = 0x20;

/// Keys going down or up, and modifier changes.
pub const KEY_EVENTS: u64 = 0x1C00;

pub open spec fn event_mask(keyboard_enabled: bool, mouse_move_enabled: bool) -> u64 {
    (BUTTON_EVENTS + (if mouse_move_enabled {
        MOVE_EVENTS as int
    } else {
        0
    }) + (if keyboard_enabled {
        KEY_EVENTS as int
    } else {
        0
    })) as u64
}

/// Whether two points are less than the square root of `limit_sq` apart.
fn closer_than(a: CGPoint, b: CGPoint, limit_sq: u64) -> (near: bool)
    ensures
        near == (travel_sq(a, b) < limit_sq),
{
    let dx: i128 = b.x as i128 - a.x as i128;
    let dy: i128 = b.y as i128 - a.y as i128;
    proof {
        let x = dx as int;
        let y = dy as int;
        assert(x * x >= 0 && y * y >= 0) by (nonlinear_arith);
        assert(x * x > 0xffff_ffff_ffff_ffff || -0x1_0000_0000 < x < 0x1_0000_0000)
            by (nonlinear_arith);
        assert(y * y > 0xffff_ffff_ffff_ffff || -0x1_0000_0000 < y < 0x1_0000_0000)
            by (nonlinear_arith);
        if -0x1_0000_0000 < x < 0x1_0000_0000 && -0x1_0000_0000 < y < 0x1_0000_0000 {
            assert(x * x <= 0x1_0000_0000 * 0x1_0000_0000) by (nonlinear_arith)
                requires
                    -0x1_0000_0000 < x < 0x1_0000_0000,
            ;
            assert(y * y <= 0x1_0000_0000 * 0x1_0000_0000) by (nonlinear_arith)
                requires
                    -0x1_0000_0000 < y < 0x1_0000_0000,
            ;
        }
    }
    if dx <= -0x1_0000_0000 || dx >= 0x1_0000_0000 || dy <= -0x1_0000_0000 || dy >= 0x1_0000_0000 {
        return false;
    }
    dx * dx + dy * dy < limit_sq as i128
}

/// The window a mouse event is over. The id in the event can be stale after a
/// focus change across applications, so a hit-test at its location wins.
pub fn window_from_mouse_event(
    window_at_point: Option<WindowServerId>,
    field_value: i64,
) -> (r: Option<WindowServerId>)
    ensures
        r == event_window(window_at_point, field_value),
{
    if window_at_point.is_some() {
        return window_at_point;
    }
    if field_value > 0 && field_value <= u32::MAX as i64 {
        Some(WindowServerId::new(field_value as u32))
    } else {
        None
    }
}

pub fn native_mission_control_hotkey(hotkey: &Hotkey) -> (b: bool)
    ensures
        b == opens_mission_control(*hotkey),
{
    hotkey.key_code.code == KEY_F3 || (hotkey.key_code.code == KEY_ARROW_UP && (
    hotkey.modifiers.control_left || hotkey.modifiers.control_right))
}

pub fn mouse_move_sampling_profile(low_power_mode: bool) -> (p: (u64, u64))
    ensures
        p == sampling_profile(low_power_mode),
{
    if low_power_mode {
        (MOUSE_MOVE_MIN_INTERVAL_NS_LOW_POWER, MOUSE_MOVE_MIN_DISTANCE_SQ_LOW_POWER)
    } else {
        (MOUSE_MOVE_MIN_INTERVAL_NS_NORMAL, MOUSE_MOVE_MIN_DISTANCE_SQ_NORMAL)
    }
}

/// The bit set of the event types to watch, one bit per type number.
pub fn build_event_mask(keyboard_enabled: bool, mouse_move_enabled: bool) -> (m: u64)
    ensures
        m == event_mask(keyboard_enabled, mouse_move_enabled),
{
    let mut m: u64 = BUTTON_EVENTS;
    if mouse_move_enabled {
        m += MOVE_EVENTS;
    }
    if keyboard_enabled {
        m += KEY_EVENTS;
    }
    m
}

/// Number of an event type in the mask.
pub open spec fn event_number(kind: EventKind) -> u64 {
    match kind {
        EventKind::LeftMouseDown => 1,
        EventKind::LeftMouseUp => 2,
        EventKind::RightMouseDown => 3,
        EventKind::RightMouseUp => 4,
        EventKind::MouseMoved => 5,
        EventKind::LeftMouseDragged => 6,
        EventKind::RightMouseDragged => 7,
        EventKind::KeyDown => 10,
        EventKind::KeyUp => 11,
        EventKind::FlagsChanged => 12,
        EventKind::Other => 63,
    }
}

pub open spec fn is_key_event(kind: EventKind) -> bool {
    kind is KeyDown || kind is KeyUp || kind is FlagsChanged
}

/// The mask watches buttons and drags always, moves and keys where they are
/// handled, and nothing else.
pub proof fn law_mask_watches_what_is_handled(
    keyboard_enabled: bool,
    mouse_move_enabled: bool,
    kind: EventKind,
)
    ensures
        (event_mask(keyboard_enabled, mouse_move_enabled) >> event_number(kind)) & 1 == 1 <==> {
            if is_key_event(kind) {
                keyboard_enabled
            } else if kind is MouseMoved {
                mouse_move_enabled
            } else {
                !(kind is Other)
            }
        },
{
    let m = event_mask(keyboard_enabled, mouse_move_enabled);
    let n = event_number(kind);
    assert((0xDEu64 >> n) & 1 == 1 <==> (n == 1 || n == 2 || n == 3 || n == 4 || n == 6 || n == 7))
        by (bit_vector)
        requires
            n < 64,
    ;
    assert((0xFEu64 >> n) & 1 == 1 <==> (1 <= n && n <= 7)) by (bit_vector)
        requires
            n < 64,
    ;
    assert((0x1CDEu64 >> n) & 1 == 1 <==> (n == 1 || n == 2 || n == 3 || n == 4 || n == 6 || n == 7
        || n == 10 || n == 11 || n == 12)) by (bit_vector)
        requires
            n < 64,
    ;
    assert((0x1CFEu64 >> n) & 1 == 1 <==> ((1 <= n && n <= 7) || n == 10 || n == 11 || n == 12))
        by (bit_vector)
        requires
            n < 64,
    ;
}

impl State {
    /// Neither the pressed keys nor the layout modes hold anything twice.
    pub open spec fn wf(&self) -> bool {
        self.pressed_keys.wf() && self.layout_mode_by_space.wf()
    }

    /// The state before anything was seen; the power mode is sampled.
    pub fn new(low_power_mode: bool) -> (s: State)
        ensures
            s.wf(),
            s@ == initial_state(low_power_mode),
    {
        State {
            hidden: false,
            above_window: None,
            pending_ffm_raise: None,
            ffm_dwell_ms: 120,
            mouse_hides_on_focus: false,
            focus_follows_mouse_config_enabled: false,
            default_layout_mode: LayoutMode::Traditional,
            converter: CoordinateConverter { screen_height: None },
            screens: Vec::new(),
            event_processing_enabled: false,
            focus_follows_mouse_enabled: true,
            stack_line_enabled: false,
            disable_hotkey_active: false,
            low_power_mode,
            pressed_keys: VecSet::new(),
            current_flags: CGEventFlags::empty(),
            screen_spaces: Vec::new(),
            layout_mode_by_space: VecMap::new(),
            last_mouse_move_loc: None,
            last_mouse_move_timestamp: 0,
            mouse_handling_stuck_ticks: 0,
        }
    }

    /// Whether a move is sampled: the interval is a hard cap on the rate however
    /// fast the cursor travels, and a resting hand's jitter is skipped.
    pub fn should_sample_mouse_move(
        &mut self,
        loc: CGPoint,
        timestamp: u64,
        sampling: (u64, u64),
    ) -> (b: bool)
        ensures
            b == samples_move(old(self)@, loc, timestamp, sampling),
            final(self)@ == after_move(old(self)@, loc, timestamp, sampling),
            final(self).pressed_keys == old(self).pressed_keys,
            old(self).wf() ==> final(self).wf(),
    {
        if let Some(last_loc) = self.last_mouse_move_loc {
            let elapsed: u64 = if timestamp >= self.last_mouse_move_timestamp {
                timestamp - self.last_mouse_move_timestamp
            } else {
                0
            };
            if closer_than(last_loc, loc, sampling.1) || elapsed < sampling.0 {
                return false;
            }
        }
        self.last_mouse_move_loc = Some(loc);
        self.last_mouse_move_timestamp = timestamp;
        true
    }

    /// The layout mode of the space shown at `loc`.
    pub fn layout_mode_at_point(&self, loc: CGPoint) -> (r: Option<LayoutMode>)
        requires
            self.wf(),
            forall|i: int|
                0 <= i < self.screen_spaces@.len() ==> (#[trigger] self.screen_spaces@[i]).0.wide(),
        ensures
            r == (match space_at(self@.screen_spaces, loc, 0) {
                Some(space) if self@.layout_modes.dom().contains(space) => Some(
                    self@.layout_modes[space],
                ),
                _ => None,
            }),
    {
        let mut i: usize = 0;
        while i < self.screen_spaces.len()
            invariant
                self.wf(),
                forall|k: int|
                    0 <= k < self.screen_spaces@.len() ==> (#[trigger] self.screen_spaces@[k]).0.wide(),
                i <= self.screen_spaces@.len(),
                space_at(self.screen_spaces@, loc, 0) == space_at(
                    self.screen_spaces@,
                    loc,
                    i as int,
                ),
            decreases self.screen_spaces@.len() - i,
        {
            let (frame, space) = self.screen_spaces[i];
            if frame.contains(loc) {
                return match self.layout_mode_by_space.get(&space) {
                    Some(mode) => Some(*mode),
                    None => None,
                };
            }
            i += 1;
        }
        None
    }

    pub fn note_key(&mut self, kind: EventKind, key_code: KeyCode)
        requires
            old(self).wf(),
        ensures
            final(self).wf(),
            final(self)@ == after_key(old(self)@, kind, key_code),
    {
        match kind {
            EventKind::KeyDown => self.note_key_down(key_code),
            EventKind::KeyUp => self.note_key_up(key_code),
            EventKind::FlagsChanged => self.note_flags_changed(key_code),
            _ => {},
        }
    }

    pub fn note_key_down(&mut self, key_code: KeyCode)
        requires
            old(self).wf(),
        ensures
            final(self).wf(),
            final(self)@ == after_key(old(self)@, EventKind::KeyDown, key_code),
    {
        self.pressed_keys.insert(key_code);
    }

    pub fn note_key_up(&mut self, key_code: KeyCode)
        requires
            old(self).wf(),
        ensures
            final(self).wf(),
            final(self)@ == after_key(old(self)@, EventKind::KeyUp, key_code),
    {
        self.pressed_keys.remove(&key_code);
    }

    /// A modifier key is pressed or not as the flags known say, not as the tracked
    /// set does.
    pub fn note_flags_changed(&mut self, key_code: KeyCode)
        requires
            old(self).wf(),
        ensures
            final(self).wf(),
            final(self)@ == after_key(old(self)@, EventKind::FlagsChanged, key_code),
    {
        if !is_modifier_key(key_code) {
            return ;
        }
        if let Some(flag) = modifier_flag_for_key(key_code) {
            if self.current_flags.contains(flag) {
                self.pressed_keys.insert(key_code);
            } else {
                self.pressed_keys.remove(&key_code);
            }
        }
    }

    /// Drop pressed keys whose flag is down. Keys without a flag are kept.
    pub fn reconcile_modifier_keys(&mut self)
        requires
            old(self).wf(),
        ensures
            final(self).wf(),
            final(self)@ == after_reconcile(old(self)@),
    {
        let ghost before = self.pressed_keys.items@;
        let mut kept: VecSet<KeyCode> = VecSet::new();
        let mut i: usize = 0;
        while i < self.pressed_keys.items.len()
            invariant
                i <= before.len(),
                before == self.pressed_keys.items@,
                *self == *old(self),
                kept.wf(),
                forall|k: KeyCode|
                    #![trigger kept@.contains(k)]
                    kept@.contains(k) <==> (exists|j: int| 0 <= j < i && #[trigger] before[j] == k)
                        && still_pressed(k, self.current_flags),
            decreases before.len() - i,
        {
            let key = self.pressed_keys.items[i];
            let keep = match modifier_flag_for_key(key) {
                Some(flag) => self.current_flags.contains(flag),
                None => true,
            };
            let ghost had = kept@;
            if keep {
                kept.insert(key);
            }
            proof {
                assert forall|k: KeyCode|
                    #![trigger kept@.contains(k)]
                    kept@.contains(k) <==> (exists|j: int|
                        0 <= j < i + 1 && #[trigger] before[j] == k) && still_pressed(
                        k,
                        self.current_flags,
                    ) by {
                    if exists|j: int| 0 <= j < i + 1 && #[trigger] before[j] == k {
                        let j = choose|j: int| 0 <= j < i + 1 && #[trigger] before[j] == k;
                        if j < i {
                            assert(had.contains(k) == still_pressed(k, self.current_flags));
                        }
                    }
                    if had.contains(k) {
                        let j = choose|j: int| 0 <= j < i && #[trigger] before[j] == k;
                        assert(0 <= j < i + 1 && before[j] == k);
                    }
                    if k == key {
                        assert(before[i as int] == k);
                    }
                }
            }
            i += 1;
        }
        proof {
            assert forall|k: KeyCode| self.pressed_keys@.contains(k) == (exists|j: int|
                0 <= j < before.len() && #[trigger] before[j] == k) by {
                lemma_item(before, k);
                if self.pressed_keys@.contains(k) {
                    let j = choose|j: int| 0 <= j < before.len() && (#[trigger] before[j])@ == k;
                    assert(before[j] == k);
                }
                if exists|j: int| 0 <= j < before.len() && #[trigger] before[j] == k {
                    let j = choose|j: int| 0 <= j < before.len() && #[trigger] before[j] == k;
                    assert(before[j]@ == k);
                }
            }
            assert(kept@ =~= after_reconcile(self@).pressed_keys);
        }
        self.pressed_keys = kept;
    }

    /// Whether the suspending hotkey is held, given the modifiers held now.
    pub fn compute_disable_hotkey_active(&self, target: &Hotkey, active_mods: Modifiers) -> (b: bool)
        ensures
            b == disable_hotkey_held(self@, *target, active_mods),
    {
        Self::modifiers_held(target.modifiers, active_mods) && self.base_key_active(
            target.key_code,
        )
    }

    /// Whether every modifier wanted is held.
    fn modifiers_held(want: Modifiers, held: Modifiers) -> (b: bool)
        ensures
            b == modifiers_ok(want, held),
    {
        let shift_ok = Self::check_modifier(
            want.shift_left,
            want.shift_right,
            held.shift_left,
            held.shift_right,
        );
        let ctrl_ok = Self::check_modifier(
            want.control_left,
            want.control_right,
            held.control_left,
            held.control_right,
        );
        let alt_ok = Self::check_modifier(
            want.alt_left,
            want.alt_right,
            held.alt_left,
            held.alt_right,
        );
        let meta_ok = Self::check_modifier(
            want.meta_left,
            want.meta_right,
            held.meta_left,
            held.meta_right,
        );
        shift_ok && ctrl_ok && alt_ok && meta_ok
    }

    fn check_modifier(
        target_has_left: bool,
        target_has_right: bool,
        active_has_left: bool,
        active_has_right: bool,
    ) -> (b: bool)
        ensures
            b == side_ok(target_has_left, target_has_right, active_has_left, active_has_right),
    {
        if target_has_left && target_has_right {
            active_has_left || active_has_right
        } else if target_has_left {
            active_has_left
        } else if target_has_right {
            active_has_right
        } else {
            true
        }
    }

    pub fn base_key_active(&self, key_code: KeyCode) -> (b: bool)
        ensures
            b == key_held(self@, key_code),
    {
        if is_modifier_key(key_code) {
            match modifier_flag_for_key(key_code) {
                Some(flag) => self.current_flags.contains(flag),
                None => false,
            }
        } else {
            self.pressed_keys.contains(&key_code)
        }
    }

    /// Returns true if the window under the cursor changed.
    pub fn above_window_changed(&mut self, wsid: WindowServerId) -> (changed: bool)
        ensures
            changed == (old(self)@.above_window != Some(wsid)),
            final(self)@ == (StateModel { above_window: Some(wsid), ..old(self)@ }),
            final(self).pressed_keys == old(self).pressed_keys,
            old(self).wf() ==> final(self).wf(),
    {
        if let Some(above) = self.above_window {
            if above == wsid {
                return false;
            }
        }
        self.above_window = Some(wsid);
        true
    }

    /// The dwell decision for a hover sample. A fast sweep crosses many windows, and raising each
    /// of them would saturate the window server. So a hover only arms a raise; the dwell timer
    /// fires it if the cursor is still on that window when the dwell is over. Each hover change
    /// replaces the pending window and pushes the timer forward, so sweeping raises nothing until
    /// the cursor settles.
    pub fn note_ffm_hover(&mut self, wsid: WindowServerId) -> (r: FfmHover)
        ensures
            r == hover_outcome(old(self)@, wsid),
            final(self)@ == after_hover(old(self)@, wsid),
            final(self).pressed_keys == old(self).pressed_keys,
            old(self).wf() ==> final(self).wf(),
    {
        if !self.above_window_changed(wsid) {
            return FfmHover::NoChange;
        }
        if self.ffm_dwell_ms == 0 {
            return FfmHover::RaiseNow(wsid);
        }
        self.pending_ffm_raise = Some(wsid);
        FfmHover::Armed(self.ffm_dwell_ms)
    }

    /// Forget hover state. A toggle must never fire a stale raise.
    pub fn reset(&mut self, enabled: bool)
        ensures
            final(self)@ == after_reset(old(self)@, enabled),
            final(self).pressed_keys == old(self).pressed_keys,
            old(self).wf() ==> final(self).wf(),
    {
        self.pending_ffm_raise = None;
        if enabled {
            self.above_window = None;
            self.last_mouse_move_loc = None;
            self.last_mouse_move_timestamp = 0;
        }
    }
}

/// The state before anything was seen.
pub open spec fn initial_state(low_power_mode: bool) -> StateModel {
    StateModel {
        hidden: false,
        above_window: None,
        pending_ffm_raise: None,
        ffm_dwell_ms: 120,
        mouse_hides_on_focus: false,
        ffm_config_enabled: false,
        default_layout_mode: LayoutMode::Traditional,
        converter: CoordinateConverter { screen_height: None },
        screens: Seq::empty(),
        event_processing_enabled: false,
        ffm_enabled: true,
        stack_line_enabled: false,
        disable_hotkey_active: false,
        low_power_mode,
        pressed_keys: Set::empty(),
        current_flags: CGEventFlags { bits: 0 },
        screen_spaces: Seq::empty(),
        layout_modes: Map::empty(),
        last_loc: None,
        last_timestamp: 0,
        stuck_ticks: 0,
    }
}

} // verus!
