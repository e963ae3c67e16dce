use rift::actor::event_tap::{
    build_event_mask, mouse_move_sampling_profile, native_mission_control_hotkey,
    window_from_mouse_event, CoordinateConverter, EventKind, EventTap, FfmHover, LayoutMode,
    Request, ResolvedHotkey, State, TapAction, TapConfig, TapEvent, WmCommand,
    MOUSE_MOVE_MIN_DISTANCE_SQ_LOW_POWER, MOUSE_MOVE_MIN_DISTANCE_SQ_NORMAL,
    MOUSE_MOVE_MIN_INTERVAL_NS_LOW_POWER, MOUSE_MOVE_MIN_INTERVAL_NS_NORMAL,
};
use rift::collections::VecSet;
use rift::ids::{SpaceId, WindowServerId};
use rift::sys::event::{get_mouse_state, MouseState};
use rift::sys::geometry::{CGPoint, CGRect, PX};
use rift::sys::hotkey::{CGEventFlags, Hotkey, KeyCode, Modifiers, KEY_ARROW_UP, KEY_F3};

const SHIFT_FLAG: u64 = 0x2_0000;

fn px(x: i64, y: i64) -> CGPoint {
    CGPoint::new(x * PX, y * PX)
}

fn key(code: u16) -> KeyCode {
    KeyCode { code, modifier: false, flag: None }
}

fn shift_key() -> KeyCode {
    KeyCode { code: 56, modifier: true, flag: Some(CGEventFlags { bits: SHIFT_FLAG }) }
}

/// Reads shift from the flags: its left side.
fn read(flags: CGEventFlags, _keys: &VecSet<KeyCode>) -> Modifiers {
    let mut m = Modifiers::empty();
    m.shift_left = flags.contains(CGEventFlags { bits: SHIFT_FLAG });
    m
}

fn config() -> TapConfig {
    TapConfig {
        mouse_hides_on_focus: false,
        focus_follows_mouse: true,
        focus_follows_mouse_dwell_ms: 120,
        focus_follows_mouse_disable_hotkey: None,
        stack_line_enabled: false,
        layout_mode: LayoutMode::Traditional,
    }
}

fn event(kind: EventKind) -> TapEvent {
    TapEvent {
        kind,
        flags: CGEventFlags::empty(),
        location: px(0, 0),
        timestamp: 0,
        key: None,
        hits_indicator: false,
        occluded: false,
        window_at_point: None,
        window_field: 0,
    }
}

fn moved(x: i64, ms: u64, window: u32) -> TapEvent {
    let mut e = event(EventKind::MouseMoved);
    e.location = px(x, 0);
    e.timestamp = ms * 1_000_000;
    e.window_at_point = Some(WindowServerId::new(window));
    e
}

/// A tap that handles mouse moves, its outbox empty.
fn running(config: TapConfig) -> EventTap {
    let mut tap = EventTap::new(config, false, read);
    tap.on_request(Request::SetEventProcessing(true), read);
    if let Some(TapAction::RebuildTap(mask)) = tap.outbox.first().copied() {
        tap.tap_rebuilt(mask);
    }
    tap.outbox.clear();
    tap
}

#[test]
fn layout_mode_at_point_uses_space_mapping() {
    let mut state = State::new(false);
    let left = CGRect::from_px(0, 0, 100, 100);
    let right = CGRect::from_px(100, 0, 100, 100);

    let left_space = SpaceId::new(1);
    let right_space = SpaceId::new(2);
    state.screen_spaces = vec![(left, left_space), (right, right_space)];
    state.layout_mode_by_space.insert(left_space, LayoutMode::Traditional);
    state.layout_mode_by_space.insert(right_space, LayoutMode::Scrolling);

    assert_eq!(state.layout_mode_at_point(px(50, 50)), Some(LayoutMode::Traditional));
    assert_eq!(state.layout_mode_at_point(px(150, 50)), Some(LayoutMode::Scrolling));
}

// A torrent of large moves that each come too soon must stay time-capped: only about one sample per
// interval passes, however fast and far the cursor travels.
#[test]
fn fast_movement_is_time_capped() {
    let mut state = State::new(false);
    let sampling = (MOUSE_MOVE_MIN_INTERVAL_NS_NORMAL, MOUSE_MOVE_MIN_DISTANCE_SQ_NORMAL);
    // First move always samples (no prior reference) and arms the clock at t=0.
    assert!(state.should_sample_mouse_move(px(0, 0), 0, sampling));

    let mut sampled = 0;
    for i in 1..=50u64 {
        let x = (i as i64) * 200;
        if state.should_sample_mouse_move(px(x, 0), i * 1_000_000, sampling) {
            sampled += 1;
        }
    }
    assert!((1..=7).contains(&sampled), "capped to about 125 Hz, got {sampled}");
}

// Sweeping across windows must only arm (replacing the pending window), never raise directly; the
// same window twice is a no-op.
#[test]
fn ffm_hover_arms_and_replaces_instead_of_raising() {
    let mut state = State::new(false);
    state.ffm_dwell_ms = 120;
    let a = WindowServerId::new(1);
    let b = WindowServerId::new(2);
    assert_eq!(state.note_ffm_hover(a), FfmHover::Armed(120));
    assert_eq!(state.pending_ffm_raise, Some(a));
    assert_eq!(state.note_ffm_hover(a), FfmHover::NoChange, "same window: no re-arm");
    assert_eq!(state.note_ffm_hover(b), FfmHover::Armed(120), "sweep: replace pending");
    assert_eq!(state.pending_ffm_raise, Some(b), "only the LAST hovered window can be raised");
    state.reset(true);
    assert_eq!(state.pending_ffm_raise, None, "ffm toggle clears any pending raise");
}

#[test]
fn ffm_hover_zero_dwell_raises_immediately() {
    let mut state = State::new(false);
    state.ffm_dwell_ms = 0;
    let a = WindowServerId::new(7);
    assert_eq!(state.note_ffm_hover(a), FfmHover::RaiseNow(a));
    assert_eq!(state.pending_ffm_raise, None);
}

// A move past the interval but with negligible distance (resting-hand jitter) is still skipped.
#[test]
fn slow_jitter_below_distance_floor_is_skipped() {
    let mut state = State::new(false);
    let sampling = (MOUSE_MOVE_MIN_INTERVAL_NS_NORMAL, MOUSE_MOVE_MIN_DISTANCE_SQ_NORMAL);
    assert!(state.should_sample_mouse_move(px(100, 100), 0, sampling));
    // 20ms later (well past the cap) but only 1px away: below the 2px floor.
    assert!(!state.should_sample_mouse_move(px(101, 100), 20_000_000, sampling));
    // A real 3px move after the interval samples.
    assert!(state.should_sample_mouse_move(px(104, 100), 40_000_000, sampling));
}

#[test]
fn sampling_bounds_are_inclusive() {
    let sampling = (MOUSE_MOVE_MIN_INTERVAL_NS_NORMAL, MOUSE_MOVE_MIN_DISTANCE_SQ_NORMAL);
    let mut state = State::new(false);
    assert!(state.should_sample_mouse_move(px(0, 0), 0, sampling));
    assert!(!state.should_sample_mouse_move(px(2, 0), 7_999_999, sampling));
    assert!(!state.should_sample_mouse_move(CGPoint::new(2 * PX - 1, 0), 8_000_000, sampling));
    assert!(state.should_sample_mouse_move(px(2, 0), 8_000_000, sampling));
    // a clock that went backwards counts as no time at all
    assert!(!state.should_sample_mouse_move(px(500, 0), 1, sampling));
    // far jumps do not overflow
    let mut far = State::new(false);
    assert!(far.should_sample_mouse_move(CGPoint::new(i64::MIN, i64::MIN), 0, sampling));
    assert!(far.should_sample_mouse_move(CGPoint::new(i64::MAX, i64::MAX), 8_000_000, sampling));
}

#[test]
fn low_power_samples_less() {
    assert_eq!(mouse_move_sampling_profile(false), (8_000_000, 4 * 48 * 48));
    assert_eq!(
        mouse_move_sampling_profile(true),
        (MOUSE_MOVE_MIN_INTERVAL_NS_LOW_POWER, MOUSE_MOVE_MIN_DISTANCE_SQ_LOW_POWER)
    );
    assert_eq!(mouse_move_sampling_profile(true), (16_000_000, 9 * 48 * 48));
}

#[test]
fn masks_have_a_bit_per_event_type() {
    let buttons = 1u64 << 1 | 1 << 2 | 1 << 3 | 1 << 4 | 1 << 6 | 1 << 7;
    let moves = 1u64 << 5;
    let keys = 1u64 << 10 | 1 << 11 | 1 << 12;
    assert_eq!(build_event_mask(false, false), buttons);
    assert_eq!(build_event_mask(false, true), buttons | moves);
    assert_eq!(build_event_mask(true, false), buttons | keys);
    assert_eq!(build_event_mask(true, true), buttons | moves | keys);
}

#[test]
fn the_hit_test_wins_over_the_event_field() {
    let hit = WindowServerId::new(9);
    assert_eq!(window_from_mouse_event(Some(hit), 5), Some(hit));
    assert_eq!(window_from_mouse_event(None, 5), Some(WindowServerId::new(5)));
    assert_eq!(window_from_mouse_event(None, 0), None);
    assert_eq!(window_from_mouse_event(None, -1), None);
    assert_eq!(window_from_mouse_event(None, u32::MAX as i64 + 1), None);
    assert_eq!(window_from_mouse_event(None, u32::MAX as i64), Some(WindowServerId::new(u32::MAX)));
}

#[test]
fn mission_control_hotkeys() {
    let mut control = Modifiers::empty();
    control.control_right = true;
    assert!(native_mission_control_hotkey(&Hotkey::new(Modifiers::empty(), key(KEY_F3))));
    assert!(native_mission_control_hotkey(&Hotkey::new(control, key(KEY_ARROW_UP))));
    assert!(!native_mission_control_hotkey(&Hotkey::new(Modifiers::empty(), key(KEY_ARROW_UP))));
    assert!(!native_mission_control_hotkey(&Hotkey::new(control, key(1))));
}

#[test]
fn a_new_tap_takes_its_settings() {
    let mut c = config();
    c.mouse_hides_on_focus = true;
    c.focus_follows_mouse_dwell_ms = 7;
    let mut tap = EventTap::new(c, true, read);
    assert!(tap.state.low_power_mode);
    assert_eq!(tap.state.ffm_dwell_ms, 7);
    assert_eq!(tap.event_mask, build_event_mask(false, false));
    assert!(tap.outbox.is_empty());
    tap.started();
    assert_eq!(tap.outbox, vec![TapAction::AllowHideMouse]);
    let mut plain = EventTap::new(config(), false, read);
    plain.started();
    assert!(plain.outbox.is_empty());
}

#[test]
fn a_warp_hides_the_cursor_and_forgets_the_hover() {
    let mut c = config();
    c.mouse_hides_on_focus = true;
    let mut tap = running(c);
    tap.on_event(moved(0, 10, 3), read);
    assert_eq!(tap.state.pending_ffm_raise, Some(WindowServerId::new(3)));
    tap.outbox.clear();
    tap.on_request(Request::Warp(px(5, 5)), read);
    assert_eq!(tap.outbox, vec![TapAction::WarpMouse(px(5, 5)), TapAction::HideMouse]);
    tap.warp_finished(false);
    assert_eq!(tap.state.pending_ffm_raise, Some(WindowServerId::new(3)), "a failed warp moved nothing");
    tap.warp_finished(true);
    assert_eq!(tap.state.pending_ffm_raise, None);
    assert_eq!(tap.state.above_window, None);
    tap.outbox.clear();
    tap.on_request(Request::WarpSilent(px(6, 6)), read);
    assert_eq!(tap.outbox, vec![TapAction::WarpMouseSilent(px(6, 6))], "already hidden");
    tap.outbox.clear();
    tap.on_request(Request::EnforceHidden, read);
    assert_eq!(tap.outbox, vec![TapAction::HideMouse]);
}

#[test]
fn a_hidden_cursor_is_shown_on_the_next_mouse_event() {
    let mut c = config();
    c.mouse_hides_on_focus = true;
    let mut tap = running(c);
    tap.on_request(Request::Warp(px(0, 0)), read);
    tap.outbox.clear();
    assert!(tap.on_event(event(EventKind::LeftMouseUp), read));
    assert_eq!(tap.outbox, vec![TapAction::ShowMouse, TapAction::SendMouseUp]);
    tap.outbox.clear();
    tap.on_request(Request::EnforceHidden, read);
    assert!(tap.outbox.is_empty());
}

#[test]
fn screens_and_spaces_are_paired() {
    let mut tap = running(config());
    let a = CGRect::from_px(0, 0, 10, 10);
    let b = CGRect::from_px(10, 0, 10, 10);
    let converter = CoordinateConverter { screen_height: Some(800) };
    tap.on_request(
        Request::ScreenParametersChanged(vec![(a, None), (b, Some(SpaceId::new(2)))], converter),
        read,
    );
    assert_eq!(tap.state.screens, vec![a, b]);
    assert_eq!(tap.state.screen_spaces, vec![(b, SpaceId::new(2))]);
    assert_eq!(tap.state.converter, converter);
    tap.on_request(Request::SpaceChanged(vec![Some(SpaceId::new(5))]), read);
    assert_eq!(tap.state.screen_spaces, vec![(a, SpaceId::new(5))], "as far as there are spaces");
    tap.on_request(
        Request::LayoutModesChanged(vec![
            (SpaceId::new(5), LayoutMode::Traditional),
            (SpaceId::new(5), LayoutMode::Scrolling),
        ]),
        read,
    );
    assert_eq!(tap.state.layout_mode_at_point(px(1, 1)), Some(LayoutMode::Scrolling), "the last one counts");
    assert_eq!(tap.state.layout_mode_at_point(px(50, 50)), None);
}

#[test]
fn a_redundant_toggle_changes_nothing() {
    let mut tap = running(config());
    tap.on_event(moved(0, 10, 3), read);
    tap.outbox.clear();
    tap.on_request(Request::SetFocusFollowsMouseEnabled(true), read);
    assert!(tap.outbox.is_empty());
    assert_eq!(tap.state.pending_ffm_raise, Some(WindowServerId::new(3)));
    tap.on_request(Request::SetFocusFollowsMouseEnabled(false), read);
    assert_eq!(tap.state.pending_ffm_raise, None);
    assert_eq!(tap.outbox, vec![TapAction::RebuildTap(build_event_mask(false, false))]);
}

#[test]
fn the_mask_is_rebuilt_until_installed() {
    let mut tap = EventTap::new(config(), false, read);
    let wanted = TapAction::RebuildTap(build_event_mask(false, true));
    tap.on_request(Request::SetEventProcessing(true), read);
    assert_eq!(tap.outbox, vec![wanted]);
    tap.on_request(Request::SetEventProcessing(true), read);
    assert_eq!(tap.outbox, vec![wanted, wanted], "not installed yet");
    tap.tap_rebuilt(build_event_mask(false, true));
    tap.outbox.clear();
    tap.on_request(Request::SetEventProcessing(true), read);
    assert!(tap.outbox.is_empty());
}

#[test]
fn a_hover_raises_only_after_the_dwell_and_once() {
    let mut tap = running(config());
    tap.on_event(moved(0, 10, 1), read);
    tap.on_event(moved(100, 20, 2), read);
    tap.on_event(moved(200, 30, 3), read);
    let arm = TapAction::ArmDwellTimer(120);
    assert_eq!(
        tap.outbox,
        vec![TapAction::SendMouseMoved, arm, TapAction::SendMouseMoved, arm, TapAction::SendMouseMoved, arm]
    );
    tap.outbox.clear();
    tap.dwell_elapsed();
    assert_eq!(tap.outbox, vec![TapAction::SendMouseMovedOverWindow(WindowServerId::new(3))]);
    tap.dwell_elapsed();
    assert_eq!(tap.outbox.len(), 1);
}

#[test]
fn without_a_dwell_a_hover_raises_at_once() {
    let mut c = config();
    c.focus_follows_mouse_dwell_ms = 0;
    let mut tap = running(c);
    tap.on_event(moved(0, 10, 1), read);
    assert_eq!(
        tap.outbox,
        vec![TapAction::SendMouseMoved, TapAction::SendMouseMovedOverWindow(WindowServerId::new(1))]
    );
}

#[test]
fn a_click_on_an_indicator_is_swallowed() {
    let mut tap = running(config());
    let mut down = event(EventKind::LeftMouseDown);
    down.location = px(3, 4);
    down.hits_indicator = true;
    assert!(!tap.on_event(down, read));
    assert_eq!(tap.outbox, vec![TapAction::StackLineMouseDown(px(3, 4))]);
    assert_eq!(get_mouse_state(&tap.mouse), Some(MouseState::Down));
    tap.outbox.clear();
    down.occluded = true;
    assert!(tap.on_event(down, read));
    assert_eq!(tap.outbox, vec![TapAction::SendMouseDown]);
    assert!(tap.on_event(event(EventKind::RightMouseUp), read));
    assert_eq!(get_mouse_state(&tap.mouse), Some(MouseState::Up));
    assert!(tap.on_event(event(EventKind::LeftMouseDragged), read));
    assert_eq!(get_mouse_state(&tap.mouse), Some(MouseState::Down));
}

#[test]
fn stack_lines_hear_of_moves() {
    let mut c = config();
    c.stack_line_enabled = true;
    c.focus_follows_mouse = false;
    let mut tap = running(c);
    let mut e = moved(8, 10, 1);
    e.hits_indicator = true;
    assert!(tap.on_event(e, read));
    assert_eq!(
        tap.outbox,
        vec![
            TapAction::StackLineMouseMoved { point: px(8, 0), hits_indicator: true },
            TapAction::SendMouseMoved
        ]
    );
}

#[test]
fn nothing_is_sent_while_processing_is_off() {
    let mut tap = EventTap::new(config(), false, read);
    assert!(tap.on_event(event(EventKind::LeftMouseDown), read));
    assert!(tap.on_event(moved(0, 10, 1), read));
    assert!(tap.outbox.is_empty());
}

fn hotkey_request(command: u64) -> Request {
    let mut shifted = Modifiers::empty();
    shifted.shift_left = true;
    let mut right = Modifiers::empty();
    right.shift_right = true;
    Request::SetHotkeys(
        vec![
            ("shift + a".to_string(), WmCommand { id: command }),
            ("b".to_string(), WmCommand { id: command + 1 }),
            ("nonsense".to_string(), WmCommand { id: command + 2 }),
            ("shift + a".to_string(), WmCommand { id: command + 3 }),
            ("b".to_string(), WmCommand { id: command + 1 }),
        ],
        vec![
            Some(ResolvedHotkey { hotkey: Hotkey::new(shifted, key(1)), expansions: Some(vec![shifted, right]) }),
            Some(ResolvedHotkey { hotkey: Hotkey::new(Modifiers::empty(), key(2)), expansions: None }),
            None,
            Some(ResolvedHotkey { hotkey: Hotkey::new(shifted, key(1)), expansions: None }),
            Some(ResolvedHotkey { hotkey: Hotkey::new(Modifiers::empty(), key(2)), expansions: None }),
        ],
    )
}

fn key_down(code: u16, flags: u64) -> TapEvent {
    let mut e = event(EventKind::KeyDown);
    e.key = Some(key(code));
    e.flags = CGEventFlags { bits: flags };
    e
}

#[test]
fn bound_hotkeys_run_and_are_swallowed() {
    let mut tap = running(config());
    tap.on_request(hotkey_request(10), read);
    assert_eq!(tap.outbox, vec![TapAction::RebuildTap(build_event_mask(true, true))]);
    assert_eq!(tap.hotkeys.len(), 4, "two expansions, one plain, one more command");
    tap.outbox.clear();
    assert!(!tap.on_event(key_down(1, SHIFT_FLAG), read));
    assert_eq!(
        tap.outbox,
        vec![
            TapAction::RunCommand(WmCommand { id: 10 }),
            TapAction::RunCommand(WmCommand { id: 13 })
        ]
    );
    tap.outbox.clear();
    assert!(tap.on_event(key_down(1, 0), read), "not bound without shift");
    assert!(!tap.on_event(key_down(2, 0), read));
    assert_eq!(tap.outbox, vec![TapAction::RunCommand(WmCommand { id: 11 })]);
    tap.outbox.clear();
    // on the next layout only the second description means anything
    tap.on_request(
        Request::KeyboardLayoutChanged(vec![
            None,
            Some(ResolvedHotkey { hotkey: Hotkey::new(Modifiers::empty(), key(9)), expansions: None }),
        ]),
        read,
    );
    assert_eq!(tap.hotkeys, vec![(Hotkey::new(Modifiers::empty(), key(9)), WmCommand { id: 11 })]);
}

#[test]
fn mission_control_keys_are_reported_and_passed_on() {
    let mut tap = running(config());
    assert!(tap.on_event(key_down(KEY_F3, 0), read));
    assert_eq!(tap.outbox, vec![TapAction::SendMissionControlNativeEntered]);
}

#[test]
fn the_disable_hotkey_suspends_focus_follows_mouse() {
    let mut c = config();
    c.focus_follows_mouse_disable_hotkey = Some(Hotkey::new(Modifiers::empty(), shift_key()));
    let mut tap = running(c);
    tap.on_event(moved(0, 10, 1), read);
    assert_eq!(tap.state.pending_ffm_raise, Some(WindowServerId::new(1)));
    let mut held = moved(100, 20, 2);
    held.flags = CGEventFlags { bits: SHIFT_FLAG };
    tap.outbox.clear();
    tap.on_event(held, read);
    assert!(tap.state.disable_hotkey_active);
    assert_eq!(tap.outbox, vec![TapAction::SendMouseMoved], "no raise while held");
    // letting go forgets the hover, so that the window underneath counts as new
    tap.on_event(moved(200, 30, 1), read);
    assert!(!tap.state.disable_hotkey_active);
    assert_eq!(tap.state.pending_ffm_raise, Some(WindowServerId::new(1)));
}

#[test]
fn either_side_satisfies_a_two_sided_hotkey() {
    let mut both = Modifiers::empty();
    both.shift_left = true;
    both.shift_right = true;
    let mut left = Modifiers::empty();
    left.shift_left = true;
    let mut right = Modifiers::empty();
    right.shift_right = true;
    let mut state = State::new(false);
    state.note_key_down(key(4));
    let wants_both = Hotkey::new(both, key(4));
    let wants_left = Hotkey::new(left, key(4));
    assert!(state.compute_disable_hotkey_active(&wants_both, left));
    assert!(state.compute_disable_hotkey_active(&wants_both, right));
    assert!(!state.compute_disable_hotkey_active(&wants_both, Modifiers::empty()));
    assert!(state.compute_disable_hotkey_active(&wants_left, left));
    assert!(!state.compute_disable_hotkey_active(&wants_left, right));
    state.note_key_up(key(4));
    assert!(!state.compute_disable_hotkey_active(&wants_left, left), "the key itself is up");
}

#[test]
fn reconciling_drops_phantom_modifiers() {
    let mut state = State::new(false);
    state.note_key_down(shift_key());
    state.note_key_down(key(4));
    state.reconcile_modifier_keys();
    assert!(!state.pressed_keys.contains(&shift_key()));
    assert!(state.pressed_keys.contains(&key(4)));
    state.reconcile_modifier_keys();
    assert_eq!(state.pressed_keys.len(), 1);
    state.current_flags = CGEventFlags { bits: SHIFT_FLAG };
    state.note_flags_changed(shift_key());
    assert!(state.pressed_keys.contains(&shift_key()));
    state.note_flags_changed(key(5));
    assert!(!state.pressed_keys.contains(&key(5)), "not a modifier");
}

#[test]
fn a_reenabled_tap_forgets_pressed_keys() {
    let mut tap = running(config());
    tap.on_event(key_down(2, 0), read);
    assert_eq!(tap.state.pressed_keys.len(), 1);
    tap.on_tap_reenabled(CGEventFlags { bits: 4 }, read);
    assert_eq!(tap.state.pressed_keys.len(), 0);
    assert_eq!(tap.state.current_flags, CGEventFlags { bits: 4 });
}

#[test]
fn the_watchdog_recovers_stuck_handling_in_three_ticks() {
    let mut tap = running(config());
    tap.on_request(Request::SetFocusFollowsMouseEnabled(false), read);
    tap.tap_rebuilt(build_event_mask(false, false));
    tap.outbox.clear();
    tap.watchdog_tick();
    tap.watchdog_tick();
    assert!(!tap.state.focus_follows_mouse_enabled);
    tap.watchdog_tick();
    assert!(tap.state.focus_follows_mouse_enabled);
    assert_eq!(
        tap.outbox,
        vec![
            TapAction::EnableTap,
            TapAction::EnableTap,
            TapAction::EnableTap,
            TapAction::RebuildTap(build_event_mask(false, true))
        ]
    );
    assert_eq!(tap.state.mouse_handling_stuck_ticks, 0);
}

#[test]
fn the_watchdog_starts_over_once_handling_is_healthy() {
    let mut tap = running(config());
    tap.on_request(Request::SetEventProcessing(false), read);
    tap.watchdog_tick();
    tap.watchdog_tick();
    tap.on_request(Request::SetEventProcessing(true), read);
    tap.watchdog_tick();
    assert_eq!(tap.state.mouse_handling_stuck_ticks, 0);
}

#[test]
fn turning_off_mouse_hiding_shows_the_cursor() {
    let mut c = config();
    c.mouse_hides_on_focus = true;
    let mut tap = running(c);
    tap.on_request(Request::Warp(px(0, 0)), read);
    tap.outbox.clear();
    let mut next = config();
    next.focus_follows_mouse_dwell_ms = 3;
    next.layout_mode = LayoutMode::Scrolling;
    tap.on_request(Request::ConfigUpdated(next), read);
    assert_eq!(tap.outbox, vec![TapAction::ShowMouse]);
    assert_eq!(tap.state.ffm_dwell_ms, 3);
    assert_eq!(tap.state.default_layout_mode, LayoutMode::Scrolling);
    assert!(!tap.state.hidden);
}

#[test]
fn the_power_mode_restarts_sampling() {
    let mut tap = running(config());
    tap.on_event(moved(0, 10, 1), read);
    assert!(tap.state.last_mouse_move_loc.is_some());
    tap.on_request(Request::SetLowPowerMode(false), read);
    assert!(tap.state.last_mouse_move_loc.is_some(), "no change");
    tap.on_request(Request::SetLowPowerMode(true), read);
    assert_eq!(tap.state.last_mouse_move_loc, None);
    assert_eq!(tap.state.last_mouse_move_timestamp, 0);
}

#[test]
fn what_waits_for_the_dwell_is_what_is_hovered() {
    let mut tap = running(config());
    for (i, window) in [4u32, 5, 5, 6].iter().enumerate() {
        tap.on_event(moved(100 * i as i64, 10 * (i as u64 + 1), *window), read);
        assert_eq!(tap.state.pending_ffm_raise, tap.state.above_window);
    }
    tap.on_request(Request::SetEventProcessing(false), read);
    assert_eq!(tap.state.pending_ffm_raise, None);
    tap.dwell_elapsed();
    assert!(!tap.outbox.contains(&TapAction::SendMouseMovedOverWindow(WindowServerId::new(6))));
}

#[test]
fn a_modifier_is_pressed_as_the_flags_known_say() {
    let mut tap = running(config());
    let mut change = event(EventKind::FlagsChanged);
    change.key = Some(shift_key());
    change.flags = CGEventFlags { bits: SHIFT_FLAG };
    assert!(tap.on_event(change, read));
    assert!(!tap.state.pressed_keys.contains(&shift_key()), "no flag was known");
    assert_eq!(tap.state.current_flags, CGEventFlags { bits: SHIFT_FLAG });
    change.flags = CGEventFlags::empty();
    assert!(tap.on_event(change, read));
    assert!(tap.state.pressed_keys.contains(&shift_key()), "the flag was known");
    assert_eq!(tap.state.current_flags, CGEventFlags::empty());
    assert!(tap.on_event(change, read));
    assert!(!tap.state.pressed_keys.contains(&shift_key()), "no flag was known again");
}
