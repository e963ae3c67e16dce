//! What holds of the tap across events and requests.

use vstd::prelude::*;

use crate::actor::event_tap::{Request, ResolvedHotkey, TapAction, TapConfig, TapEvent, WmCommand};
use crate::actor::event_tap::state::{
    after_hover, after_move, after_reconcile, after_refresh, event_mask, hover_outcome,
    is_key_event, samples_move, StateModel,
};
use crate::actor::event_tap::tap::{
    after_dwell, after_event, after_ffm_set, after_flag_sync, after_key_event,
    after_keyboard_event, after_mask_check, after_mouse_moved, after_processing_set,
    after_reenabled, after_request, after_shown, after_warp, after_watchdog,
    binding_table, bound_commands, desired_mask, handling_suppressed, initial_tap, mouse_after,
    with_expansions, TapModel,
};
use crate::ids::WindowServerId;
use crate::sys::geometry::CGPoint;
use crate::sys::hotkey::{CGEventFlags, Hotkey, KeyCode, Modifiers};

verus! {

/// The state after a series of moves was offered for sampling.
pub open spec fn after_moves(
    s: StateModel,
    moves: Seq<(CGPoint, u64)>,
    sampling: (u64, u64),
) -> StateModel
    decreases moves.len(),
{
    if moves.len() == 0 {
        s
    } else {
        after_move(
            after_moves(s, moves.drop_last(), sampling),
            moves.last().0,
            moves.last().1,
            sampling,
        )
    }
}

/// How many of a series of moves are sampled.
pub open spec fn samples_taken(
    s: StateModel,
    moves: Seq<(CGPoint, u64)>,
    sampling: (u64, u64),
) -> nat
    decreases moves.len(),
{
    if moves.len() == 0 {
        0
    } else {
        samples_taken(s, moves.drop_last(), sampling) + (if samples_move(
            after_moves(s, moves.drop_last(), sampling),
            moves.last().0,
            moves.last().1,
            sampling,
        ) {
            1nat
        } else {
            0nat
        })
    }
}

/// However fast and far the cursor travels, between one sample and the `n`-th
/// after it lie at least `n` intervals.
pub proof fn law_sample_rate_is_capped(
    s: StateModel,
    moves: Seq<(CGPoint, u64)>,
    sampling: (u64, u64),
)
    requires
        s.last_loc is Some,
        sampling.0 > 0,
    ensures
        s.last_timestamp + samples_taken(s, moves, sampling) * sampling.0 <= after_moves(
            s,
            moves,
            sampling,
        ).last_timestamp,
        after_moves(s, moves, sampling).last_loc is Some,
    decreases moves.len(),
{
    if moves.len() > 0 {
        law_sample_rate_is_capped(s, moves.drop_last(), sampling);
        let n = samples_taken(s, moves.drop_last(), sampling) as int;
        let interval = sampling.0 as int;
        assert((n + 1) * interval == n * interval + interval) by (nonlinear_arith);
        assert(samples_taken(s, moves, sampling) == n || samples_taken(s, moves, sampling) == n + 1);
    } else {
        assert(samples_taken(s, moves, sampling) * sampling.0 == 0) by (nonlinear_arith)
            requires
                samples_taken(s, moves, sampling) == 0,
        ;
    }
}

/// The state after the cursor crossed a series of windows.
pub open spec fn after_hovers(s: StateModel, windows: Seq<WindowServerId>) -> StateModel
    decreases windows.len(),
{
    if windows.len() == 0 {
        s
    } else {
        after_hover(after_hovers(s, windows.drop_last()), windows.last())
    }
}

/// With a dwell, a sweep over any windows raises none of them; only the last one
/// is left to be raised.
pub proof fn law_sweep_leaves_only_the_last_window_pending(
    s: StateModel,
    windows: Seq<WindowServerId>,
)
    requires
        s.ffm_dwell_ms > 0,
        s.above_window is None,
        windows.len() > 0,
    ensures
        after_hovers(s, windows).pending_ffm_raise == Some(windows.last()),
        !(hover_outcome(after_hovers(s, windows.drop_last()), windows.last()) is RaiseNow),
    decreases windows.len(),
{
    lemma_sweep(s, windows.drop_last());
    lemma_sweep(s, windows);
}

proof fn lemma_sweep(s: StateModel, windows: Seq<WindowServerId>)
    requires
        s.ffm_dwell_ms > 0,
        s.above_window is None,
    ensures
        after_hovers(s, windows).ffm_dwell_ms == s.ffm_dwell_ms,
        windows.len() > 0 ==> after_hovers(s, windows).above_window == Some(windows.last())
            && after_hovers(s, windows).pending_ffm_raise == Some(windows.last()),
        windows.len() == 0 ==> after_hovers(s, windows) == s,
    decreases windows.len(),
{
    if windows.len() > 0 {
        lemma_sweep(s, windows.drop_last());
    }
}

/// Some action from position `from` on raises a window.
pub open spec fn raises_from(actions: Seq<TapAction>, from: int) -> bool {
    exists|i: int|
        from <= i < actions.len() && (#[trigger] actions[i]) is SendMouseMovedOverWindow
}

proof fn lemma_bound_commands_run(table: Seq<(Hotkey, WmCommand)>, hotkey: Hotkey, count: int)
    requires
        count <= table.len(),
    ensures
        forall|i: int|
            0 <= i < bound_commands(table, hotkey, count).len() ==> (#[trigger] bound_commands(
                table,
                hotkey,
                count,
            )[i]) is RunCommand,
        bound_commands(table, hotkey, count).len() > 0 <==> exists|k: int|
            0 <= k < count && (#[trigger] table[k]).0 == hotkey,
    decreases count,
{
    if count > 0 {
        lemma_bound_commands_run(table, hotkey, count - 1);
        if table[count - 1].0 == hotkey {
            assert(0 <= count - 1 < count && table[count - 1].0 == hotkey);
        }
    }
}

/// With a dwell, no input event raises a window; that is left to the timer.
pub proof fn law_events_never_raise_with_a_dwell(t: TapModel, event: TapEvent, held: Modifiers)
    requires
        t.state.ffm_dwell_ms > 0,
    ensures
        !raises_from(after_event(t, event, held).0.outbox, t.outbox.len() as int),
{
    lemma_event_outbox(t, event, held);
}

/// While focus follows mouse is off or suspended, no mouse event that leaves the
/// modifiers as they are raises a window or arms a raise, whatever the dwell.
pub proof fn law_suspended_focus_never_raises(t: TapModel, event: TapEvent, held: Modifiers)
    requires
        event.flags == t.state.current_flags,
        !(t.state.ffm_config_enabled && t.state.ffm_enabled && !t.state.disable_hotkey_active),
        !is_key_event(event.kind),
    ensures
        !raises_from(after_event(t, event, held).0.outbox, t.outbox.len() as int),
        after_event(t, event, held).0.state.pending_ffm_raise == t.state.pending_ffm_raise,
{
}

proof fn lemma_event_outbox(t: TapModel, event: TapEvent, held: Modifiers)
    requires
        t.state.ffm_dwell_ms > 0,
    ensures
        !raises_from(after_event(t, event, held).0.outbox, t.outbox.len() as int),
{
    let synced = after_flag_sync(t, event, held);
    assert(synced.outbox == t.outbox);
    assert(synced.state.ffm_dwell_ms == t.state.ffm_dwell_ms);
    if is_key_event(event.kind) {
        let t1 = TapModel { mouse: mouse_after(t.mouse, event.kind), ..synced };
        assert(after_event(t, event, held) == after_keyboard_event(t1, event, held));
        if event.key is Some && event.kind is KeyDown {
            let hotkey = Hotkey { modifiers: held, key_code: event.key->0 };
            lemma_bound_commands_run(t.hotkeys, hotkey, t.hotkeys.len() as int);
        }
    }
}

/// A key press is kept from the application exactly where a command is bound to
/// it.
pub proof fn law_bound_hotkeys_are_swallowed(t: TapModel, event: TapEvent, held: Modifiers)
    requires
        event.kind is KeyDown,
        event.key is Some,
    ensures
        after_event(t, event, held).1 <==> !(exists|k: int|
            0 <= k < t.hotkeys.len() && (#[trigger] t.hotkeys[k]).0 == (Hotkey {
                modifiers: held,
                key_code: event.key->0,
            })),
{
    let hotkey = Hotkey { modifiers: held, key_code: event.key->0 };
    lemma_bound_commands_run(t.hotkeys, hotkey, t.hotkeys.len() as int);
}

/// Switching focus follows mouse or event processing never leaves a stale raise
/// pending.
pub proof fn law_toggles_clear_the_pending_raise(t: TapModel, enabled: bool)
    ensures
        after_processing_set(t, enabled).state.pending_ffm_raise is None,
        t.state.ffm_enabled != enabled ==> after_ffm_set(
            t,
            enabled,
        ).state.pending_ffm_raise is None,
        after_warp(t, true).state.pending_ffm_raise is None,
{
}

/// Setting focus follows mouse to what it is changes nothing and asks for
/// nothing.
pub proof fn law_redundant_toggle_changes_nothing(t: TapModel, held: Modifiers)
    ensures
        after_request(t, Request::SetFocusFollowsMouseEnabled(t.state.ffm_enabled), held) == t,
{
}

/// The dwell raises a window once: fired again with no hover in between, it does
/// nothing.
pub proof fn law_dwell_raises_once(t: TapModel)
    ensures
        after_dwell(after_dwell(t)) == after_dwell(t),
{
}

/// Mouse handling that stays suppressed is back on after three watchdog ticks.
pub proof fn law_watchdog_recovers_in_three_ticks(t: TapModel)
    requires
        handling_suppressed(t.state),
        t.state.stuck_ticks == 0,
    ensures
        handling_suppressed(after_watchdog(t).state),
        handling_suppressed(after_watchdog(after_watchdog(t)).state),
        !handling_suppressed(after_watchdog(after_watchdog(after_watchdog(t))).state),
{
}

/// A watchdog tick on healthy handling switches nothing and starts the count
/// anew.
pub proof fn law_watchdog_leaves_healthy_handling_alone(t: TapModel)
    requires
        !handling_suppressed(t.state),
    ensures
        after_watchdog(t).state == (StateModel {
            stuck_ticks: 0,
            ..after_reconcile(t.state)
        }),
        after_watchdog(t).outbox == t.outbox.push(TapAction::EnableTap),
{
}

/// Once the tap asked for is installed, no other is asked for.
pub proof fn law_installed_mask_settles(t: TapModel)
    ensures
        after_mask_check(TapModel { event_mask: desired_mask(t), ..t }) == (TapModel {
            event_mask: desired_mask(t),
            ..t
        }),
{
}

/// Reconciling twice is reconciling once.
pub proof fn law_reconcile_is_idempotent(s: StateModel)
    ensures
        after_reconcile(after_reconcile(s)) == after_reconcile(s),
{
    let once = after_reconcile(s);
    assert(after_reconcile(once).pressed_keys =~= once.pressed_keys);
}

/// After reconciling, no key whose flag is down counts as pressed.
pub proof fn law_reconcile_leaves_no_phantom_modifier(s: StateModel, key: KeyCode)
    requires
        after_reconcile(s).pressed_keys.contains(key),
        key.flag is Some,
    ensures
        s.current_flags.has(key.flag->0),
        s.pressed_keys.contains(key),
{
}

/// What holds between events: the window that waits for the dwell is the one
/// hovered last, and the cursor is only hidden where that is configured.
pub open spec fn consistent(s: StateModel) -> bool {
    &&& s.pending_ffm_raise is Some ==> s.above_window == s.pending_ffm_raise
    &&& s.hidden ==> s.mouse_hides_on_focus
}

/// A new tap is consistent.
pub proof fn law_new_tap_is_consistent(config: TapConfig, low_power_mode: bool, held: Modifiers)
    ensures
        consistent(initial_tap(config, low_power_mode, held).state),
{
}

/// With a dwell, every input event keeps the tap consistent. (Without one a
/// window is raised at once, and one that waited before stays behind.)
pub proof fn law_events_keep_the_tap_consistent(t: TapModel, event: TapEvent, held: Modifiers)
    requires
        consistent(t.state),
        t.state.ffm_dwell_ms > 0,
    ensures
        consistent(after_event(t, event, held).0.state),
{
    let synced = after_flag_sync(t, event, held);
    assert(consistent(synced.state) && synced.state.ffm_dwell_ms > 0);
    let t1 = TapModel { mouse: mouse_after(t.mouse, event.kind), ..synced };
    if is_key_event(event.kind) {
        lemma_keyboard_keeps_consistent(t1, event, held);
    } else if event.kind is MouseMoved {
        lemma_mouse_moved_keeps_consistent(after_shown(t1), event);
    }
}

proof fn lemma_keyboard_keeps_consistent(t: TapModel, event: TapEvent, held: Modifiers)
    requires
        consistent(t.state),
    ensures
        consistent(after_keyboard_event(t, event, held).0.state),
{
    let keyed = after_key_event(t.state, event);
    assert(keyed.pending_ffm_raise == t.state.pending_ffm_raise);
    assert(keyed.above_window == t.state.above_window);
    assert(consistent(keyed));
    assert(consistent(after_refresh(keyed, t.disable_hotkey, held)));
}

proof fn lemma_mouse_moved_keeps_consistent(t: TapModel, event: TapEvent)
    requires
        consistent(t.state),
        t.state.ffm_dwell_ms > 0,
    ensures
        consistent(after_mouse_moved(t, event).state),
{
}

/// Once its change was seen, a modifier key counts as pressed exactly where the
/// flags known before that event say so; the event's own flags are known from
/// then on.
pub proof fn law_modifiers_follow_the_flags_known(
    t: TapModel,
    event: TapEvent,
    held: Modifiers,
    key: KeyCode,
    flag: CGEventFlags,
)
    requires
        event.kind is FlagsChanged,
        event.key == Some(key),
        key.modifier,
        key.flag == Some(flag),
    ensures
        after_event(t, event, held).0.state.pressed_keys.contains(key)
            <==> t.state.current_flags.has(flag),
        after_event(t, event, held).0.state.current_flags == event.flags,
{
    let keyed = after_key_event(t.state, event);
    assert(after_refresh(keyed, t.disable_hotkey, held).pressed_keys == keyed.pressed_keys);
}

/// Every request keeps the tap consistent.
pub proof fn law_requests_keep_the_tap_consistent(t: TapModel, request: Request, held: Modifiers)
    requires
        consistent(t.state),
    ensures
        consistent(after_request(t, request, held).state),
{
}

/// So do the timers, a warp, and a tap that is switched back on.
pub proof fn law_reports_keep_the_tap_consistent(
    t: TapModel,
    succeeded: bool,
    flags: CGEventFlags,
    held: Modifiers,
)
    requires
        consistent(t.state),
    ensures
        consistent(after_watchdog(t).state),
        consistent(after_dwell(t).state),
        consistent(after_warp(t, succeeded).state),
        consistent(after_reenabled(t, flags, held).state),
{
}

/// No command is bound to one hotkey twice.
pub proof fn law_bindings_are_distinct(
    specs: Seq<(Seq<char>, WmCommand)>,
    resolved: Seq<Option<ResolvedHotkey>>,
)
    ensures
        binding_table(specs, resolved, specs.len() as int).no_duplicates(),
{
    lemma_binding_table_distinct(specs, resolved, specs.len() as int);
}

proof fn lemma_binding_table_distinct(
    specs: Seq<(Seq<char>, WmCommand)>,
    resolved: Seq<Option<ResolvedHotkey>>,
    count: int,
)
    ensures
        binding_table(specs, resolved, count).no_duplicates(),
    decreases count,
{
    if count > 0 {
        lemma_binding_table_distinct(specs, resolved, count - 1);
        let before = binding_table(specs, resolved, count - 1);
        if count - 1 < resolved.len() {
            let command = specs[count - 1].1;
            if let Some(r) = resolved[count - 1] {
                if let Some(expansions) = r.expansions {
                    lemma_expansions_distinct(before, expansions@, r.hotkey.key_code, command);
                }
            }
        }
    }
}

proof fn lemma_expansions_distinct(
    table: Seq<(Hotkey, WmCommand)>,
    expansions: Seq<Modifiers>,
    key_code: KeyCode,
    command: WmCommand,
)
    requires
        table.no_duplicates(),
    ensures
        with_expansions(table, expansions, key_code, command).no_duplicates(),
    decreases expansions.len(),
{
    if expansions.len() > 0 {
        lemma_expansions_distinct(table, expansions.drop_last(), key_code, command);
    }
}

} // verus!
