//! What each input event comes to, over the event and the tap's own fields.

use vstd::prelude::*;

use crate::actor::event_tap::state::{
    after_refresh, event_window, modifiers_ok, opens_mission_control, samples_move,
    sampling_profile, side_ok, space_at, StateModel,
};
use crate::actor::event_tap::tap::{
    after_dwell, after_event, after_flag_sync, after_key_event, after_keyboard_event,
    after_mouse_moved, after_reenabled, after_shown, after_warp, after_watchdog, bound_commands,
    mouse_after, TapModel,
};
use crate::actor::event_tap::{TapAction, TapEvent, WmCommand};
use crate::ids::{SpaceId, WindowServerId};
use crate::sys::event::MouseState;
use crate::sys::geometry::{CGPoint, CGRect};
use crate::sys::hotkey::{CGEventFlags, Hotkey, KeyCode, Modifiers};

verus! {

// ---------------------------------------------------------------------------
// Every event
// ---------------------------------------------------------------------------

/// After any event the flags known are those of the event.
pub proof fn law_flags_are_those_of_the_event(t: TapModel, event: TapEvent, held: Modifiers)
    ensures
        after_event(t, event, held).0.state.current_flags == event.flags,
{
}

/// An event is kept from the application only where it is a press on a stack-line
/// indicator that nothing covers, or a key press to which a command is bound.
pub proof fn law_what_is_swallowed(t: TapModel, event: TapEvent, held: Modifiers)
    ensures
        after_event(t, event, held).1 <==> !({
            ||| (event.kind is LeftMouseDown || event.kind is RightMouseDown)
                && event.hits_indicator && !event.occluded
            ||| event.kind is KeyDown && event.key is Some && exists|k: int|
                0 <= k < t.hotkeys.len() && (#[trigger] t.hotkeys[k]).0.key_code == event.key->0
                    && t.hotkeys[k].0.modifiers == held
        }),
{
    if event.kind is KeyDown && event.key is Some {
        crate::actor::event_tap::laws::law_bound_hotkeys_are_swallowed(t, event, held);
        let h = Hotkey { modifiers: held, key_code: event.key->0 };
        if exists|k: int|
            0 <= k < t.hotkeys.len() && (#[trigger] t.hotkeys[k]).0.key_code == event.key->0
                && t.hotkeys[k].0.modifiers == held {
            let k = choose|k: int|
                0 <= k < t.hotkeys.len() && (#[trigger] t.hotkeys[k]).0.key_code == event.key->0
                    && t.hotkeys[k].0.modifiers == held;
            assert(t.hotkeys[k].0 == h);
        }
    }
}

/// The button counts as down after a press or a drag, as up after a release, and
/// stays as it is on every other event.
pub proof fn law_button_state(t: TapModel, event: TapEvent, held: Modifiers)
    ensures
        event.kind is LeftMouseDown || event.kind is RightMouseDown || event.kind
            is LeftMouseDragged || event.kind is RightMouseDragged ==> after_event(
            t,
            event,
            held,
        ).0.mouse.state() == Some(MouseState::Down),
        event.kind is LeftMouseUp || event.kind is RightMouseUp ==> after_event(
            t,
            event,
            held,
        ).0.mouse.state() == Some(MouseState::Up),
        event.kind is MouseMoved || event.kind is KeyDown || event.kind is KeyUp || event.kind
            is FlagsChanged || event.kind is Other ==> after_event(t, event, held).0.mouse
            == t.mouse,
{
}

/// `b` has the settings and the screens of `a`.
pub open spec fn same_settings(a: StateModel, b: StateModel) -> bool {
    &&& b.event_processing_enabled == a.event_processing_enabled
    &&& b.ffm_enabled == a.ffm_enabled
    &&& b.ffm_config_enabled == a.ffm_config_enabled
    &&& b.ffm_dwell_ms == a.ffm_dwell_ms
    &&& b.mouse_hides_on_focus == a.mouse_hides_on_focus
    &&& b.stack_line_enabled == a.stack_line_enabled
    &&& b.low_power_mode == a.low_power_mode
    &&& b.screens == a.screens
    &&& b.screen_spaces == a.screen_spaces
    &&& b.layout_modes == a.layout_modes
    &&& b.stuck_ticks == a.stuck_ticks
}

/// No event changes the bindings, the settings, the screens or the installed mask.
#[verifier::spinoff_prover]
pub proof fn law_events_leave_the_settings(t: TapModel, event: TapEvent, held: Modifiers)
    ensures
        ({
            let after = after_event(t, event, held).0;
            &&& after.hotkeys == t.hotkeys
            &&& after.hotkey_specs == t.hotkey_specs
            &&& after.event_mask == t.event_mask
            &&& after.disable_hotkey == t.disable_hotkey
            &&& same_settings(t.state, after.state)
        }),
{
    let synced = after_flag_sync(t, event, held);
    let t1 = TapModel { mouse: mouse_after(t.mouse, event.kind), ..synced };
    lemma_sync_keeps(t, event, held);
    if event.kind is KeyDown || event.kind is KeyUp || event.kind is FlagsChanged {
        lemma_keyboard_keeps(t1, event, held);
    } else if event.kind is MouseMoved {
        lemma_move_keeps(after_shown(t1), event);
    }
}

proof fn lemma_sync_keeps(t: TapModel, event: TapEvent, held: Modifiers)
    ensures
        ({
            let after = after_flag_sync(t, event, held);
            &&& after == (TapModel { state: after.state, ..t })
            &&& same_settings(t.state, after.state)
            &&& after.state.hidden == t.state.hidden
        }),
{
}

proof fn lemma_keyboard_keeps(t: TapModel, event: TapEvent, held: Modifiers)
    ensures
        ({
            let after = after_keyboard_event(t, event, held).0;
            &&& after == (TapModel { state: after.state, outbox: after.outbox, ..t })
            &&& same_settings(t.state, after.state)
        }),
{
    let keyed = after_key_event(t.state, event);
    assert(same_settings(t.state, keyed));
    assert(same_settings(keyed, after_refresh(keyed, t.disable_hotkey, held)));
}

proof fn lemma_move_keeps(t: TapModel, event: TapEvent)
    ensures
        ({
            let after = after_mouse_moved(t, event);
            &&& after == (TapModel { state: after.state, outbox: after.outbox, ..t })
            &&& same_settings(t.state, after.state)
        }),
{
}

/// A keyboard event takes its key and then its flags in, and then sees whether focus
/// follows mouse is suspended.
proof fn lemma_keyboard_state(t: TapModel, event: TapEvent, held: Modifiers)
    requires
        event.kind is KeyDown || event.kind is KeyUp || event.kind is FlagsChanged,
    ensures
        after_event(t, event, held).0.state == after_refresh(
            after_key_event(t.state, event),
            t.disable_hotkey,
            held,
        ),
{
    assert(after_flag_sync(t, event, held) == t);
    let t1 = TapModel { mouse: mouse_after(t.mouse, event.kind), ..t };
    assert(after_event(t, event, held) == after_keyboard_event(t1, event, held));
}

proof fn lemma_noted_key(s: StateModel, event: TapEvent)
    ensures
        ({
            let keyed = after_key_event(s, event);
            &&& keyed.current_flags == event.flags
            &&& keyed.disable_hotkey_active == s.disable_hotkey_active
            &&& keyed.above_window == s.above_window
            &&& keyed.pending_ffm_raise == s.pending_ffm_raise
            &&& keyed.last_loc == s.last_loc
            &&& keyed.last_timestamp == s.last_timestamp
            &&& keyed.hidden == s.hidden
        }),
{
}

// ---------------------------------------------------------------------------
// Keys
// ---------------------------------------------------------------------------

/// A keyboard event that is no key press asks for nothing and is passed on; so is a
/// key press of an unknown key.
pub proof fn law_only_key_presses_run_commands(t: TapModel, event: TapEvent, held: Modifiers)
    requires
        event.kind is KeyUp || event.kind is FlagsChanged || (event.kind is KeyDown
            && event.key is None),
    ensures
        after_event(t, event, held).0.outbox == t.outbox,
        after_event(t, event, held).1,
{
}

/// A key press runs every command bound to it under the modifiers held, each once
/// and in the order bound. F3, and the up arrow with a control key, are reported as
/// opening the window overview first.
pub proof fn law_a_key_press_runs_what_is_bound(
    t: TapModel,
    event: TapEvent,
    held: Modifiers,
    key: KeyCode,
)
    requires
        event.kind is KeyDown,
        event.key == Some(key),
    ensures
        after_event(t, event, held).0.outbox == t.outbox + (if key.code == 99 || (key.code == 126
            && (held.control_left || held.control_right)) {
            seq![TapAction::SendMissionControlNativeEntered]
        } else {
            Seq::empty()
        }) + t.hotkeys.filter(
            |b: (Hotkey, WmCommand)| b.0.key_code == key && b.0.modifiers == held,
        ).map_values(|b: (Hotkey, WmCommand)| TapAction::RunCommand(b.1)),
{
    let f = |b: (Hotkey, WmCommand)| b.0.key_code == key && b.0.modifiers == held;
    let hotkey = Hotkey { modifiers: held, key_code: key };
    lemma_bound_commands(t.hotkeys, hotkey, t.hotkeys.len() as int, f);
    assert(t.hotkeys.take(t.hotkeys.len() as int) =~= t.hotkeys);
    let mission = if opens_mission_control(hotkey) {
        seq![TapAction::SendMissionControlNativeEntered]
    } else {
        Seq::empty()
    };
    assert(after_event(t, event, held).0.outbox =~= t.outbox + mission + bound_commands(
        t.hotkeys,
        hotkey,
        t.hotkeys.len() as int,
    ));
}

proof fn lemma_bound_commands(
    table: Seq<(Hotkey, WmCommand)>,
    hotkey: Hotkey,
    count: int,
    f: spec_fn((Hotkey, WmCommand)) -> bool,
)
    requires
        0 <= count <= table.len(),
        forall|b: (Hotkey, WmCommand)| #[trigger] f(b) <==> b.0 == hotkey,
    ensures
        bound_commands(table, hotkey, count) == table.take(count).filter(f).map_values(
            |b: (Hotkey, WmCommand)| TapAction::RunCommand(b.1),
        ),
    decreases count,
{
    reveal(Seq::filter);
    let g = |b: (Hotkey, WmCommand)| TapAction::RunCommand(b.1);
    if count > 0 {
        lemma_bound_commands(table, hotkey, count - 1, f);
        assert(table.take(count).drop_last() =~= table.take(count - 1));
        assert(f(table[count - 1]) <==> table[count - 1].0 == hotkey);
        assert(bound_commands(table, hotkey, count) =~= table.take(count).filter(f).map_values(g));
    } else {
        assert(table.take(0).filter(f).map_values(g) =~= Seq::empty());
    }
}

/// A key counts as pressed from its press to its release; no other key changes.
pub proof fn law_pressed_keys(
    t: TapModel,
    event: TapEvent,
    held: Modifiers,
    key: KeyCode,
    other: KeyCode,
)
    requires
        event.key == Some(key),
        other != key,
    ensures
        event.kind is KeyDown ==> after_event(t, event, held).0.state.pressed_keys.contains(key),
        event.kind is KeyUp ==> !after_event(t, event, held).0.state.pressed_keys.contains(key),
        event.kind is KeyDown || event.kind is KeyUp || event.kind is FlagsChanged ==> (
        after_event(t, event, held).0.state.pressed_keys.contains(other)
            <==> t.state.pressed_keys.contains(other)),
        event.kind is FlagsChanged && (!key.modifier || key.flag is None) ==> after_event(
            t,
            event,
            held,
        ).0.state.pressed_keys == t.state.pressed_keys,
{
    let keyed = after_key_event(t.state, event);
    assert(after_refresh(keyed, t.disable_hotkey, held).pressed_keys == keyed.pressed_keys);
}

/// A mouse event whose flags differ from those known drops every pressed key whose
/// flag is not among them, and no other key; one with the same flags drops none.
pub proof fn law_lost_releases_are_made_good(
    t: TapModel,
    event: TapEvent,
    held: Modifiers,
    key: KeyCode,
)
    requires
        !(event.kind is KeyDown || event.kind is KeyUp || event.kind is FlagsChanged),
    ensures
        event.flags != t.state.current_flags ==> (after_event(
            t,
            event,
            held,
        ).0.state.pressed_keys.contains(key) <==> t.state.pressed_keys.contains(key) && (
        key.flag is None || event.flags.bits & key.flag->0.bits == key.flag->0.bits)),
        event.flags == t.state.current_flags ==> after_event(t, event, held).0.state.pressed_keys
            == t.state.pressed_keys,
{
    let synced = after_flag_sync(t, event, held);
    assert(after_event(t, event, held).0.state.pressed_keys == synced.state.pressed_keys);
}

// ---------------------------------------------------------------------------
// Suspending focus follows mouse
// ---------------------------------------------------------------------------

/// A modifier is wanted on the left, on the right, on either side, or not at all:
/// it has to be held on the side wanted, on either side, or need not be held.
pub proof fn law_sides_of_a_modifier(held_left: bool, held_right: bool)
    ensures
        side_ok(false, false, held_left, held_right),
        side_ok(true, false, held_left, held_right) <==> held_left,
        side_ok(false, true, held_left, held_right) <==> held_right,
        side_ok(true, true, held_left, held_right) <==> held_left || held_right,
{
}

/// The modifiers of a hotkey are held where each of its four modifiers is.
pub proof fn law_all_four_modifiers_count(target: Modifiers, held: Modifiers)
    ensures
        modifiers_ok(target, held) <==> {
            &&& side_ok(target.shift_left, target.shift_right, held.shift_left, held.shift_right)
            &&& side_ok(
                target.control_left,
                target.control_right,
                held.control_left,
                held.control_right,
            )
            &&& side_ok(target.alt_left, target.alt_right, held.alt_left, held.alt_right)
            &&& side_ok(target.meta_left, target.meta_right, held.meta_left, held.meta_right)
        },
        modifiers_ok(target, target),
{
}

/// After a keyboard event focus follows mouse is suspended exactly while the hotkey
/// for it is held: its modifiers, and its key, a modifier key by the event's flags,
/// any other key by its press. Without such a hotkey nothing changes.
pub proof fn law_suspension_follows_the_hotkey(
    t: TapModel,
    event: TapEvent,
    held: Modifiers,
    target: Hotkey,
)
    requires
        event.kind is KeyDown || event.kind is KeyUp || event.kind is FlagsChanged,
    ensures
        t.disable_hotkey is None ==> after_event(t, event, held).0.state.disable_hotkey_active
            == t.state.disable_hotkey_active,
        t.disable_hotkey == Some(target) ==> {
            let after = after_event(t, event, held).0.state;
            let key = target.key_code;
            let key_down = if key.modifier {
                key.flag is Some && event.flags.bits & key.flag->0.bits == key.flag->0.bits
            } else {
                after.pressed_keys.contains(key)
            };
            after.disable_hotkey_active <==> modifiers_ok(target.modifiers, held) && key_down
        },
{
    lemma_keyboard_state(t, event, held);
    lemma_noted_key(t.state, event);
}

/// So it is after a mouse event that brings other flags; one that brings the same
/// leaves the suspension as it is.
pub proof fn law_suspension_follows_the_flags(
    t: TapModel,
    event: TapEvent,
    held: Modifiers,
    target: Hotkey,
)
    requires
        !(event.kind is KeyDown || event.kind is KeyUp || event.kind is FlagsChanged),
    ensures
        event.flags == t.state.current_flags || t.disable_hotkey is None ==> after_event(
            t,
            event,
            held,
        ).0.state.disable_hotkey_active == t.state.disable_hotkey_active,
        event.flags != t.state.current_flags && t.disable_hotkey == Some(target) ==> {
            let after = after_event(t, event, held).0.state;
            let key = target.key_code;
            let key_down = if key.modifier {
                key.flag is Some && event.flags.bits & key.flag->0.bits == key.flag->0.bits
            } else {
                after.pressed_keys.contains(key)
            };
            after.disable_hotkey_active <==> modifiers_ok(target.modifiers, held) && key_down
        },
{
    let synced = after_flag_sync(t, event, held);
    assert(after_event(t, event, held).0.state.pressed_keys == synced.state.pressed_keys);
    assert(after_event(t, event, held).0.state.disable_hotkey_active
        == synced.state.disable_hotkey_active);
}

/// When a suspension ends with a keyboard event, what was hovered is forgotten; while
/// it lasts, or starts, it is not.
pub proof fn law_end_of_a_suspension(t: TapModel, event: TapEvent, held: Modifiers)
    requires
        event.kind is KeyDown || event.kind is KeyUp || event.kind is FlagsChanged,
    ensures
        ({
            let after = after_event(t, event, held).0.state;
            let ended = t.state.disable_hotkey_active && !after.disable_hotkey_active;
            &&& ended ==> after.above_window is None && after.pending_ffm_raise is None
                && after.last_loc is None && after.last_timestamp == 0
            &&& !ended ==> after.above_window == t.state.above_window && after.pending_ffm_raise
                == t.state.pending_ffm_raise && after.last_loc == t.state.last_loc
                && after.last_timestamp == t.state.last_timestamp
            &&& after.hidden == t.state.hidden
        }),
{
    lemma_keyboard_state(t, event, held);
    lemma_noted_key(t.state, event);
}

/// When a suspension ends with a mouse event that is no move, what was hovered is
/// forgotten; else it is not.
pub proof fn law_end_of_a_suspension_by_flags(t: TapModel, event: TapEvent, held: Modifiers)
    requires
        !(event.kind is KeyDown || event.kind is KeyUp || event.kind is FlagsChanged || event.kind
            is MouseMoved),
    ensures
        ({
            let after = after_event(t, event, held).0.state;
            let ended = t.state.disable_hotkey_active && !after.disable_hotkey_active;
            &&& ended ==> after.above_window is None && after.pending_ffm_raise is None
                && after.last_loc is None && after.last_timestamp == 0
            &&& !ended ==> after.above_window == t.state.above_window && after.pending_ffm_raise
                == t.state.pending_ffm_raise && after.last_loc == t.state.last_loc
                && after.last_timestamp == t.state.last_timestamp
        }),
{
    let synced = after_flag_sync(t, event, held);
    let after = after_event(t, event, held).0.state;
    assert(after == (StateModel { hidden: after.hidden, ..synced.state }));
}

/// A mouse event that brings other flags is handled as it would be with these flags
/// known before.
pub proof fn law_flags_come_before_the_event(t: TapModel, event: TapEvent, held: Modifiers)
    requires
        !(event.kind is KeyDown || event.kind is KeyUp || event.kind is FlagsChanged),
    ensures
        ({
            let known = after_flag_sync(t, event, held);
            &&& known.state.current_flags == event.flags
            &&& known.outbox == t.outbox
            &&& same_settings(t.state, known.state)
            &&& after_event(t, event, held) == after_event(known, event, held)
        }),
{
    lemma_sync_keeps(t, event, held);
    let known = after_flag_sync(t, event, held);
    assert(after_flag_sync(known, event, held) == known);
}

// ---------------------------------------------------------------------------
// The mouse
// ---------------------------------------------------------------------------

/// A press on an indicator that nothing covers goes to the stack line and nowhere
/// else, also while events are not processed.
pub proof fn law_indicator_presses_go_to_the_stack_line(
    t: TapModel,
    event: TapEvent,
    held: Modifiers,
)
    requires
        event.kind is LeftMouseDown || event.kind is RightMouseDown,
        event.hits_indicator,
        !event.occluded,
    ensures
        after_event(t, event, held).0.outbox == t.outbox.push(
            TapAction::StackLineMouseDown(event.location),
        ),
        !after_event(t, event, held).1,
        after_event(t, event, held).0.state.hidden == t.state.hidden,
{
}

/// While events are not processed, any other mouse event asks for nothing.
pub proof fn law_unprocessed_events_ask_for_nothing(t: TapModel, event: TapEvent, held: Modifiers)
    requires
        !t.state.event_processing_enabled,
        !(event.kind is KeyDown || event.kind is KeyUp || event.kind is FlagsChanged),
        !((event.kind is LeftMouseDown || event.kind is RightMouseDown) && event.hits_indicator
            && !event.occluded),
    ensures
        after_event(t, event, held).0.outbox == t.outbox,
        after_event(t, event, held).1,
        after_event(t, event, held).0.state.hidden == t.state.hidden,
        event.flags == t.state.current_flags ==> after_event(t, event, held).0.state == t.state,
{
}

/// A mouse event that is processed shows a hidden cursor first. A press or a release
/// is then reported, a drag is not.
pub proof fn law_processed_buttons(t: TapModel, event: TapEvent, held: Modifiers)
    requires
        t.state.event_processing_enabled,
        !(event.kind is KeyDown || event.kind is KeyUp || event.kind is FlagsChanged || event.kind
            is MouseMoved),
        !((event.kind is LeftMouseDown || event.kind is RightMouseDown) && event.hits_indicator
            && !event.occluded),
    ensures
        ({
            let after = after_event(t, event, held).0;
            let shown = if t.state.hidden {
                t.outbox.push(TapAction::ShowMouse)
            } else {
                t.outbox
            };
            &&& !after.state.hidden
            &&& event.kind is LeftMouseDown || event.kind is RightMouseDown ==> after.outbox
                == shown.push(TapAction::SendMouseDown)
            &&& event.kind is LeftMouseUp || event.kind is RightMouseUp ==> after.outbox
                == shown.push(TapAction::SendMouseUp)
            &&& event.kind is LeftMouseDragged || event.kind is RightMouseDragged || event.kind
                is Other ==> after.outbox == shown
            &&& after_event(t, event, held).1
        }),
{
}

/// A move is sampled where it is the first, or where both 8 milliseconds have passed
/// and the cursor has travelled two pixels since the last sample; on battery saver
/// 16 milliseconds and three pixels. A pixel is 48 units.
pub proof fn law_which_moves_are_sampled(s: StateModel, loc: CGPoint, timestamp: u64)
    ensures
        ({
            let sampled = samples_move(s, loc, timestamp, sampling_profile(s.low_power_mode));
            &&& s.last_loc is None ==> sampled
            &&& s.last_loc matches Some(last) ==> {
                let dx = loc.x - last.x;
                let dy = loc.y - last.y;
                &&& !s.low_power_mode ==> (sampled <==> dx * dx + dy * dy >= 9216 && timestamp
                    >= s.last_timestamp + 8_000_000)
                &&& s.low_power_mode ==> (sampled <==> dx * dx + dy * dy >= 20736 && timestamp
                    >= s.last_timestamp + 16_000_000)
            }
        }),
{
}

/// A move that is not sampled only shows a hidden cursor.
pub proof fn law_moves_between_samples(t: TapModel, event: TapEvent, held: Modifiers)
    requires
        t.state.event_processing_enabled,
        event.kind is MouseMoved,
        event.flags == t.state.current_flags,
        !samples_move(
            t.state,
            event.location,
            event.timestamp,
            sampling_profile(t.state.low_power_mode),
        ),
    ensures
        ({
            let after = after_event(t, event, held).0;
            &&& after.outbox == (if t.state.hidden {
                t.outbox.push(TapAction::ShowMouse)
            } else {
                t.outbox
            })
            &&& after.state == (StateModel { hidden: false, ..t.state })
        }),
{
    lemma_sampling_ignores_hidden(t.state, event);
}

proof fn lemma_sampling_ignores_hidden(s: StateModel, event: TapEvent)
    ensures
        samples_move(
            StateModel { hidden: false, ..s },
            event.location,
            event.timestamp,
            sampling_profile(s.low_power_mode),
        ) == samples_move(
            s,
            event.location,
            event.timestamp,
            sampling_profile(s.low_power_mode),
        ),
{
}

/// A sampled move is remembered and asks for these, in this order: a hidden cursor
/// is shown; the stack line, where it is on, is told, with an indicator only where
/// nothing covers it; the move is reported; and, where focus follows mouse is
/// configured, switched on and not suspended, a window newly hovered is raised at
/// once without a dwell, or the timer is armed with it.
pub proof fn law_sampled_moves(t: TapModel, event: TapEvent, held: Modifiers)
    requires
        t.state.event_processing_enabled,
        event.kind is MouseMoved,
        event.flags == t.state.current_flags,
        samples_move(
            t.state,
            event.location,
            event.timestamp,
            sampling_profile(t.state.low_power_mode),
        ),
    ensures
        ({
            let after = after_event(t, event, held).0;
            let window = event_window(event.window_at_point, event.window_field);
            let follows = t.state.ffm_config_enabled && t.state.ffm_enabled
                && !t.state.disable_hotkey_active && window is Some && t.state.above_window
                != window;
            &&& after.outbox == t.outbox + (if t.state.hidden {
                seq![TapAction::ShowMouse]
            } else {
                Seq::empty()
            }) + (if t.state.stack_line_enabled {
                seq![
                    TapAction::StackLineMouseMoved {
                        point: event.location,
                        hits_indicator: event.hits_indicator && !event.occluded,
                    },
                ]
            } else {
                Seq::empty()
            }) + seq![TapAction::SendMouseMoved] + (if follows && t.state.ffm_dwell_ms == 0 {
                seq![TapAction::SendMouseMovedOverWindow(window->0)]
            } else if follows {
                seq![TapAction::ArmDwellTimer(t.state.ffm_dwell_ms)]
            } else {
                Seq::empty()
            })
            &&& after.state.last_loc == Some(event.location)
            &&& after.state.last_timestamp == event.timestamp
            &&& !after.state.hidden
            &&& follows ==> after.state.above_window == window
            &&& !follows ==> after.state.above_window == t.state.above_window
            &&& follows && t.state.ffm_dwell_ms > 0 ==> after.state.pending_ffm_raise == window
            &&& !(follows && t.state.ffm_dwell_ms > 0) ==> after.state.pending_ffm_raise
                == t.state.pending_ffm_raise
        }),
{
    lemma_sampling_ignores_hidden(t.state, event);
    let after = after_event(t, event, held).0;
    let window = event_window(event.window_at_point, event.window_field);
    let follows = t.state.ffm_config_enabled && t.state.ffm_enabled
        && !t.state.disable_hotkey_active && window is Some && t.state.above_window != window;
    assert(after.outbox =~= t.outbox + (if t.state.hidden {
        seq![TapAction::ShowMouse]
    } else {
        Seq::empty()
    }) + (if t.state.stack_line_enabled {
        seq![
            TapAction::StackLineMouseMoved {
                point: event.location,
                hits_indicator: event.hits_indicator && !event.occluded,
            },
        ]
    } else {
        Seq::empty()
    }) + seq![TapAction::SendMouseMoved] + (if follows && t.state.ffm_dwell_ms == 0 {
        seq![TapAction::SendMouseMovedOverWindow(window->0)]
    } else if follows {
        seq![TapAction::ArmDwellTimer(t.state.ffm_dwell_ms)]
    } else {
        Seq::empty()
    }));
}

/// The window an event is over is the one found at its location; only where none is
/// found there, the one it carries, where that is a window id.
pub proof fn law_window_of_an_event(at_point: WindowServerId, field: i64)
    ensures
        event_window(Some(at_point), field) == Some(at_point),
        1 <= field <= 0xffff_ffff ==> event_window(None, field) == Some(
            WindowServerId { raw: field as u32 },
        ),
        field < 1 || field > 0xffff_ffff ==> event_window(None, field) is None,
{
}

/// The space at a location is that of the first screen with a space whose frame holds
/// it, border counted in.
pub proof fn law_space_at_a_location(spaces: Seq<(CGRect, SpaceId)>, loc: CGPoint, i: int)
    requires
        0 <= i <= spaces.len(),
        forall|j: int|
            0 <= j < i ==> {
                let f = (#[trigger] spaces[j]).0;
                loc.x < f.origin.x || loc.x > f.origin.x + f.size.width || loc.y < f.origin.y
                    || loc.y > f.origin.y + f.size.height
            },
    ensures
        i == spaces.len() ==> space_at(spaces, loc, 0) is None,
        i < spaces.len() && spaces[i].0.origin.x <= loc.x <= spaces[i].0.origin.x
            + spaces[i].0.size.width && spaces[i].0.origin.y <= loc.y <= spaces[i].0.origin.y
            + spaces[i].0.size.height ==> space_at(spaces, loc, 0) == Some(spaces[i].1),
{
    lemma_space_at(spaces, loc, 0, i);
}

proof fn lemma_space_at(spaces: Seq<(CGRect, SpaceId)>, loc: CGPoint, from: int, i: int)
    requires
        0 <= from <= i <= spaces.len(),
        forall|j: int| 0 <= j < i ==> !(#[trigger] spaces[j]).0.covers(loc),
    ensures
        i == spaces.len() ==> space_at(spaces, loc, from) is None,
        i < spaces.len() && spaces[i].0.covers(loc) ==> space_at(spaces, loc, from) == Some(
            spaces[i].1,
        ),
    decreases i - from,
{
    if from < i {
        assert(!spaces[from].0.covers(loc));
        lemma_space_at(spaces, loc, from + 1, i);
    }
}

// ---------------------------------------------------------------------------
// Timers and reports
// ---------------------------------------------------------------------------

/// When the dwell is over the window that waited is raised and waits no longer;
/// where none waits nothing happens.
pub proof fn law_end_of_the_dwell(t: TapModel, wsid: WindowServerId)
    ensures
        t.state.pending_ffm_raise == Some(wsid) ==> after_dwell(t) == (TapModel {
            state: StateModel { pending_ffm_raise: None, ..t.state },
            outbox: t.outbox.push(TapAction::SendMouseMovedOverWindow(wsid)),
            ..t
        }),
        t.state.pending_ffm_raise is None ==> after_dwell(t) == t,
{
}

/// A warp that worked forgets what was hovered, so that the window under the cursor
/// is taken in anew; one that failed changes nothing.
pub proof fn law_end_of_a_warp(t: TapModel)
    ensures
        after_warp(t, true) == (TapModel {
            state: StateModel { above_window: None, pending_ffm_raise: None, ..t.state },
            ..t
        }),
        after_warp(t, false) == t,
{
}

/// A tap that is on again has no key pressed and the flags reported with it; with a
/// hotkey that suspends focus follows mouse, a suspension by an ordinary key is over.
pub proof fn law_tap_that_is_on_again(
    t: TapModel,
    flags: CGEventFlags,
    held: Modifiers,
    target: Hotkey,
)
    ensures
        after_reenabled(t, flags, held).state.pressed_keys == Set::<KeyCode>::empty(),
        after_reenabled(t, flags, held).state.current_flags == flags,
        after_reenabled(t, flags, held).outbox == t.outbox,
        t.disable_hotkey == Some(target) && !target.key_code.modifier ==> !after_reenabled(
            t,
            flags,
            held,
        ).state.disable_hotkey_active,
        t.disable_hotkey == Some(target) && target.key_code.modifier ==> (after_reenabled(
            t,
            flags,
            held,
        ).state.disable_hotkey_active <==> modifiers_ok(target.modifiers, held)
            && target.key_code.flag is Some && flags.bits & target.key_code.flag->0.bits
            == target.key_code.flag->0.bits),
        t.disable_hotkey is None ==> after_reenabled(t, flags, held).state.disable_hotkey_active
            == t.state.disable_hotkey_active,
{
}

/// A suspension that ended while the tap was off forgets what was hovered.
pub proof fn law_suspension_that_ended_while_off(t: TapModel, flags: CGEventFlags, held: Modifiers)
    ensures
        ({
            let after = after_reenabled(t, flags, held).state;
            let ended = t.state.disable_hotkey_active && !after.disable_hotkey_active;
            &&& ended ==> after.above_window is None && after.pending_ffm_raise is None
                && after.last_loc is None
            &&& !ended ==> after.above_window == t.state.above_window && after.pending_ffm_raise
                == t.state.pending_ffm_raise && after.last_loc == t.state.last_loc
        }),
{
}

/// A watchdog tick enables the tap and drops pressed keys whose flag is not among
/// those known.
pub proof fn law_watchdog_enables_the_tap(t: TapModel, key: KeyCode)
    ensures
        after_watchdog(t).outbox.len() > t.outbox.len(),
        after_watchdog(t).outbox[t.outbox.len() as int] == TapAction::EnableTap,
        after_watchdog(t).state.pressed_keys.contains(key) <==> t.state.pressed_keys.contains(key)
            && (key.flag is None || t.state.current_flags.bits & key.flag->0.bits
            == key.flag->0.bits),
{
}

/// The watchdog counts ticks on which events are not processed, or focus follows
/// mouse is configured but off; a tick without either starts the count anew. Before
/// the third such tick it switches nothing.
pub proof fn law_watchdog_counts(t: TapModel)
    ensures
        ({
            let after = after_watchdog(t);
            let stuck = !t.state.event_processing_enabled || (t.state.ffm_config_enabled
                && !t.state.ffm_enabled);
            &&& !stuck ==> after.state.stuck_ticks == 0
            &&& stuck && t.state.stuck_ticks < 2 ==> after.state.stuck_ticks == t.state.stuck_ticks
                + 1
            &&& !stuck || t.state.stuck_ticks < 2 ==> after.state.event_processing_enabled
                == t.state.event_processing_enabled && after.state.ffm_enabled
                == t.state.ffm_enabled && after.outbox == t.outbox.push(TapAction::EnableTap)
                && after.state.above_window == t.state.above_window
                && after.state.pending_ffm_raise == t.state.pending_ffm_raise
        }),
{
}

/// On the third such tick both are switched on, the count starts anew, what was
/// hovered is forgotten, and a tap with the mask then wanted is asked for, unless it
/// is the one installed.
pub proof fn law_watchdog_switches_handling_on(t: TapModel)
    requires
        !t.state.event_processing_enabled || (t.state.ffm_config_enabled && !t.state.ffm_enabled),
        t.state.stuck_ticks >= 2,
    ensures
        ({
            let after = after_watchdog(t);
            let mask = 0xDE + (if t.state.stack_line_enabled || t.state.ffm_config_enabled {
                0x20int
            } else {
                0
            }) + (if t.disable_hotkey is Some || t.hotkeys.len() > 0 {
                0x1C00int
            } else {
                0
            });
            &&& after.state.event_processing_enabled
            &&& after.state.ffm_enabled
            &&& after.state.stuck_ticks == 0
            &&& after.state.above_window is None
            &&& after.state.pending_ffm_raise is None
            &&& after.state.last_loc is None
            &&& after.state == (StateModel {
                event_processing_enabled: true,
                ffm_enabled: true,
                stuck_ticks: 0,
                above_window: None,
                pending_ffm_raise: None,
                last_loc: None,
                last_timestamp: 0,
                pressed_keys: after.state.pressed_keys,
                ..t.state
            })
            &&& t.event_mask == mask ==> after.outbox == t.outbox.push(TapAction::EnableTap)
            &&& t.event_mask != mask ==> after.outbox == t.outbox.push(TapAction::EnableTap).push(
                TapAction::RebuildTap(mask as u64),
            )
        }),
{
}

} // verus!
