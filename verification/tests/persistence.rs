use std::collections::BTreeSet;

use rift::actor::reactor::persistence::{
    AdoptionTable, AppRuleAssignment, AppRuleResult, ADOPTION_SETTLE_TIMEOUT_NS, SAVE_DEBOUNCE_NS,
};
use rift::actor::reactor::{AppState, Config, Effect, Reactor, ScreenInfo, WindowState};
use rift::collections::VecMap;
use rift::common::time::Instant;
use rift::ids::{SpaceId, VirtualWorkspaceId, WindowId, WindowServerId};
use rift::layout_engine::engine::{LayoutEngine, Placement};
use rift::layout_engine::snapshot::{Loaded, Snapshot, WindowIdentity, SNAPSHOT_VERSION};
use rift::sys::geometry::CGRect;

const RELAYOUT: Effect = Effect::UpdateLayout { is_resize: false, is_workspace_switch: false };

fn new_reactor() -> Reactor {
    let config = Config { keys: vec![], focus_follows_mouse: true, default_disable: false };
    Reactor::new(config, false, LayoutEngine::new())
}

/// Put `wids` on `space` in its one workspace, as a restored engine would arrive.
fn place_in_engine(reactor: &mut Reactor, space: SpaceId, wids: &[WindowId]) {
    let workspace = VirtualWorkspaceId::new(space.get() * 10);
    reactor.layout_engine.expose_space(space, None);
    reactor.layout_engine.set_active_workspace(space, workspace);
    for (i, wid) in wids.iter().enumerate() {
        let index = i as u32;
        reactor.layout_engine.place_window(*wid, Placement { space, workspace, index });
    }
}

fn window(server: u32) -> WindowState {
    WindowState {
        frame_monotonic: CGRect::from_px(0, 0, 10, 10),
        sys_id: Some(WindowServerId::new(server)),
        title: format!("win-{server}"),
        ax_role: Some("AXWindow".to_string()),
        bundle_id: Some("com.example".to_string()),
    }
}

/// Register a live (rediscovered) window.
fn register_live(reactor: &mut Reactor, wid: WindowId, server: u32) {
    reactor.world.windows.insert(wid, window(server));
}

fn screen(x: i32, space: Option<SpaceId>, uuid: &str) -> ScreenInfo {
    ScreenInfo { frame: CGRect::from_px(x, 0, 1000, 1000), space, display_uuid: uuid.to_string() }
}

/// A single screen on the display `test-display-0`.
fn one_screen(space: SpaceId) -> Vec<ScreenInfo> {
    vec![screen(0, Some(space), "test-display-0")]
}

fn identity(server: u32) -> WindowIdentity {
    WindowIdentity {
        server_id: WindowServerId::new(server),
        bundle_id: "com.example".to_string(),
        title: format!("win-{server}"),
        ax_role: "AXWindow".to_string(),
        frame: CGRect::from_px(0, 0, 10, 10),
    }
}

fn sorted(mut v: Vec<WindowId>) -> Vec<WindowId> {
    v.sort();
    v
}

fn staged(entries: &[(WindowId, u32)]) -> AdoptionTable {
    let mut windows = VecMap::new();
    for (wid, server) in entries {
        windows.insert(*wid, identity(*server));
    }
    AdoptionTable::from_windows(windows)
}

#[test]
fn adoption_table_matches_by_server_id_and_claims_once() {
    let old_a = WindowId::new(1, 1);
    let old_b = WindowId::new(1, 2);
    let mut table = staged(&[(old_a, 101), (old_b, 102)]);

    // Exact server-id match returns the pre-restart id without consuming it.
    assert_eq!(table.peek(WindowServerId::new(101)), Some(old_a));
    assert_eq!(table.peek(WindowServerId::new(101)), Some(old_a), "peek does not consume");
    // Unknown server id: no match (fall-through to normal assignment).
    assert_eq!(table.peek(WindowServerId::new(999)), None);

    // Claim consumes exactly one entry.
    table.claim(WindowServerId::new(101));
    assert_eq!(table.peek(WindowServerId::new(101)), None, "claimed entry is gone");
    assert_eq!(table.peek(WindowServerId::new(102)), Some(old_b), "other entry untouched");
}

#[test]
fn adoption_table_prunes_by_pid_and_drains_the_rest() {
    let mut table =
        staged(&[(WindowId::new(1, 1), 101), (WindowId::new(1, 2), 102), (WindowId::new(2, 1), 201)]);

    // Per-app prune drops every unclaimed entry whose pre-restart pid matches.
    let pruned = sorted(table.prune_pid(1));
    assert_eq!(pruned, vec![WindowId::new(1, 1), WindowId::new(1, 2)]);
    assert_eq!(table.peek(WindowServerId::new(101)), None);
    assert_eq!(table.peek(WindowServerId::new(201)), Some(WindowId::new(2, 1)));

    // The global settle drain empties whatever remains.
    assert_eq!(sorted(table.drain_all()), vec![WindowId::new(2, 1)]);
    assert!(table.is_empty());
}

#[test]
fn try_adopt_window_rewrites_matched_ids_and_falls_through_otherwise() {
    let space = SpaceId::new(1);
    let mut reactor = new_reactor();
    // The restored engine arrives pre-populated with the pre-restart ids.
    let old1 = WindowId::new(1, 1);
    let old2 = WindowId::new(1, 2);
    place_in_engine(&mut reactor, space, &[old1, old2]);

    // Stage the durable identities as the restore path would.
    reactor.install_restore_state(staged(&[(old1, 101), (old2, 102)]), VecMap::new());

    // Window 1 reappears under a NEW pid (post-restart) but the same server id.
    let new1 = WindowId::new(2, 1);
    register_live(&mut reactor, new1, 101);
    let adopted = reactor.try_adopt_window(new1, space);
    assert!(
        matches!(adopted, Some(Ok(AppRuleResult::Managed(_)))),
        "server-id match adopts the window: {adopted:?}",
    );
    let engine = &reactor.layout_engine;
    // The pre-restart id was rewritten onto the live one, in place.
    assert!(engine.workspace_for_window_any(old1).is_none(), "old id rewritten away");
    assert!(engine.workspace_for_window_any(new1).is_some(), "live id inherits the slot");
    // The still-unmatched window keeps its pre-restart id, awaiting its own event.
    assert!(engine.workspace_for_window_any(old2).is_some());

    // No-match: a window whose server id is not staged falls through (None), so
    // the caller runs normal assignment.
    let stranger = WindowId::new(3, 9);
    register_live(&mut reactor, stranger, 999);
    assert!(reactor.try_adopt_window(stranger, space).is_none(), "unknown server id falls through");

    // Claim-once: server 101 was already consumed, so a second window carrying
    // it also falls through instead of double-adopting.
    let dup = WindowId::new(2, 5);
    register_live(&mut reactor, dup, 101);
    assert!(reactor.try_adopt_window(dup, space).is_none(), "claimed entry is not reused");
}

#[test]
fn remap_restored_spaces_migrates_state_to_the_live_space_id() {
    let saved_space = SpaceId::new(1);
    let live_space = SpaceId::new(42);
    let mut reactor = new_reactor();
    let w = WindowId::new(1, 1);
    place_in_engine(&mut reactor, saved_space, &[w]);

    // Live screen: same display uuid (test-display-0), but a different SpaceId.
    reactor.world.screens = one_screen(live_space);
    let mut saved = VecMap::new();
    saved.insert(saved_space, ("test-display-0".to_string(), 0u32));
    reactor.install_restore_state(AdoptionTable::new(), saved);

    reactor.remap_restored_spaces();

    // The window's per-space engine state moved from the saved id onto the live
    // one, resolved via (uuid, ordinal).
    assert!(
        reactor.layout_engine.workspace_for_window(live_space, w).is_some(),
        "state migrated onto the live space"
    );
    assert!(
        reactor.layout_engine.workspace_for_window(saved_space, w).is_none(),
        "nothing left on the saved space id"
    );
    assert_eq!(reactor.layout_engine.active_workspace(live_space), Some(VirtualWorkspaceId::new(10)));
    assert_eq!(reactor.layout_engine.active_workspace(saved_space), None);
}

#[test]
fn prune_app_adoptions_evicts_windows_the_app_did_not_bring_back() {
    let space = SpaceId::new(1);
    let mut reactor = new_reactor();
    reactor.world.screens = one_screen(space);
    let keep = WindowId::new(1, 1);
    let dead = WindowId::new(1, 2);
    place_in_engine(&mut reactor, space, &[keep, dead]);
    reactor.install_restore_state(staged(&[(keep, 101), (dead, 102)]), VecMap::new());

    // Only `keep` comes back (same pid: a plain restart); it is claimed.
    register_live(&mut reactor, keep, 101);
    let _ = reactor.try_adopt_window(keep, space);

    // The app's discovery pass finishes: its still-unclaimed entry (`dead`) is a
    // window that no longer exists and gets pruned from the engine.
    reactor.prune_app_adoptions(1);

    let engine = &reactor.layout_engine;
    assert!(engine.workspace_for_window_any(keep).is_some(), "claimed window kept");
    assert!(engine.workspace_for_window_any(dead).is_none(), "unreturned window pruned, no zombie");
    assert_eq!(reactor.outbox, vec![RELAYOUT]);
    assert_eq!(reactor.persistence.settle_deadline, None, "nothing is waited for any more");
}

#[test]
fn assembled_snapshot_carries_identities_and_reloads() {
    let space = SpaceId::new(1);
    let mut reactor = new_reactor();
    reactor.world.screens = one_screen(space);
    let w1 = WindowId::new(1, 1);
    let w2 = WindowId::new(1, 2);
    place_in_engine(&mut reactor, space, &[w1, w2]);
    register_live(&mut reactor, w1, 101);
    register_live(&mut reactor, w2, 102);

    // The assembler joins engine state with the reactor's durable identities.
    let snapshot = reactor.assemble_single_snapshot();
    let key = "test-display-0".to_string();
    let arrangement = snapshot.arrangements.get(&key).expect("arrangement for the live fingerprint");
    let servers: BTreeSet<u32> =
        arrangement.windows.entries.iter().map(|(_, w)| w.server_id.as_u32()).collect();
    assert_eq!(servers, [101, 102].into_iter().collect(), "both server ids captured");
    assert_eq!(arrangement.spaces.len(), 1, "the single live space was recorded");
    assert_eq!(
        arrangement.spaces.get(&space),
        Some(&("test-display-0".to_string(), 0)),
        "on the display that shows it"
    );

    // What was written loads again.
    let loaded = Snapshot::load_or_default(Loaded::Parsed(snapshot));
    assert!(loaded.arrangements.contains_key(&key), "assembler output is loadable");
}

#[test]
fn an_identity_falls_back_to_the_application_and_to_nothing() {
    let space = SpaceId::new(1);
    let mut reactor = new_reactor();
    reactor.world.screens = one_screen(space);
    let wids = [WindowId::new(1, 1), WindowId::new(2, 1), WindowId::new(3, 1), WindowId::new(4, 1)];
    place_in_engine(&mut reactor, space, &wids);
    register_live(&mut reactor, wids[0], 101);
    let mut bare = window(102);
    bare.bundle_id = None;
    bare.ax_role = None;
    reactor.world.windows.insert(wids[1], bare);
    reactor.world.apps.insert(2, AppState { bundle_id: Some("com.app".to_string()) });
    let mut nothing = window(103);
    nothing.bundle_id = None;
    reactor.world.windows.insert(wids[2], nothing);
    let mut unnumbered = window(104);
    unnumbered.sys_id = None;
    reactor.world.windows.insert(wids[3], unnumbered);
    reactor.world.topmost_windows = vec![wids[0]];

    let a = reactor.assemble_arrangement();
    assert_eq!(a.windows.get(&wids[0]), Some(&identity(101)));
    assert_eq!(a.windows.get(&wids[1]).unwrap().bundle_id, "com.app");
    assert_eq!(a.windows.get(&wids[1]).unwrap().ax_role, "");
    assert_eq!(a.windows.get(&wids[2]).unwrap().bundle_id, "");
    assert_eq!(a.windows.get(&wids[3]), None, "no server id, no identity");
    assert_eq!(a.topmost, vec![wids[0]]);
    assert_eq!(a.engine.all_window_ids(), wids.to_vec());
}

#[test]
fn the_fingerprint_is_sorted_and_without_repeats() {
    let mut reactor = new_reactor();
    assert_eq!(reactor.current_fingerprint(), "");
    reactor.world.screens = vec![screen(0, None, "b"), screen(1, None, ""), screen(2, None, "a"), screen(3, None, "b")];
    assert_eq!(reactor.current_fingerprint(), "a+b");
    reactor.world.screens = vec![screen(0, None, "a"), screen(1, None, "b")];
    assert_eq!(reactor.current_fingerprint(), "a+b", "the order of the screens does not matter");
    reactor.world.screens = vec![screen(0, None, "ab"), screen(1, None, "a"), screen(2, None, "B")];
    assert_eq!(reactor.current_fingerprint(), "B+a+ab");
}

#[test]
fn ordinals_count_the_spaces_of_one_display() {
    let mut reactor = new_reactor();
    reactor.world.screens = vec![
        screen(0, Some(SpaceId::new(9)), "a"),
        screen(1, Some(SpaceId::new(3)), "a"),
        screen(2, Some(SpaceId::new(1)), "b"),
    ];
    let a = "a".to_string();
    assert_eq!(reactor.space_ordinal(SpaceId::new(3), &a), 0);
    assert_eq!(reactor.space_ordinal(SpaceId::new(9), &a), 1);
    assert_eq!(reactor.space_ordinal(SpaceId::new(5), &a), 0, "not shown there");
}

#[test]
fn saves_are_debounced() {
    let mut reactor = new_reactor();
    reactor.mark_layout_dirty();
    reactor.world.clock = Instant::from_nanos(10 * SAVE_DEBOUNCE_NS);
    reactor.persistence_tick();
    assert!(reactor.outbox.is_empty(), "persistence is off");

    reactor.enable_persistence("layout.ron".to_string(), Loaded::ReadFailed);
    reactor.mark_layout_dirty();
    reactor.world.clock = Instant::from_nanos(11 * SAVE_DEBOUNCE_NS - 1);
    reactor.persistence_tick();
    assert!(reactor.outbox.is_empty(), "too soon");
    reactor.world.clock = Instant::from_nanos(11 * SAVE_DEBOUNCE_NS);
    reactor.persistence_tick();
    assert_eq!(reactor.outbox, vec![Effect::FlushSnapshot]);
    reactor.persistence_tick();
    assert_eq!(reactor.outbox.len(), 1, "once");
}

#[test]
fn windows_that_never_come_back_are_given_up() {
    let space = SpaceId::new(1);
    let mut reactor = new_reactor();
    reactor.enable_persistence("layout.ron".to_string(), Loaded::ReadFailed);
    let gone = WindowId::new(1, 1);
    place_in_engine(&mut reactor, space, &[gone]);
    reactor.install_restore_state(staged(&[(gone, 101)]), VecMap::new());
    reactor.world.clock = Instant::from_nanos(ADOPTION_SETTLE_TIMEOUT_NS - 1);
    reactor.persistence_tick();
    assert!(reactor.layout_engine.workspace_for_window_any(gone).is_some());
    reactor.world.clock = Instant::from_nanos(ADOPTION_SETTLE_TIMEOUT_NS);
    reactor.persistence_tick();
    assert!(reactor.layout_engine.workspace_for_window_any(gone).is_none());
    assert!(reactor.persistence.adoption.is_empty());
    assert_eq!(reactor.persistence.settle_deadline, None);
    assert!(reactor.persistence.debouncer.is_dirty(), "the pruned state is saved");
    assert_eq!(reactor.outbox, vec![RELAYOUT]);
}

#[test]
fn a_saved_layout_is_restored_on_the_same_displays() {
    let space = SpaceId::new(1);
    let mut before = new_reactor();
    before.world.screens = one_screen(space);
    let w1 = WindowId::new(1, 1);
    let w2 = WindowId::new(1, 2);
    place_in_engine(&mut before, space, &[w1, w2]);
    before.layout_engine.set_floating(w2, true);
    register_live(&mut before, w1, 101);
    register_live(&mut before, w2, 102);
    let (path, written) = before.save_snapshot_now("layout.ron".to_string(), Loaded::ReadFailed);
    assert_eq!(path, "layout.ron");
    assert_eq!(written.version, SNAPSHOT_VERSION);

    let mut after = new_reactor();
    after.enable_persistence(path, Loaded::Parsed(written));
    after.activate_restore_if_ready();
    assert!(!after.persistence.activated, "no screen is known yet");
    after.world.screens = one_screen(space);
    after.activate_restore_if_ready();
    assert!(after.persistence.activated);
    assert_eq!(after.outbox, vec![Effect::RehydrateEngine]);
    assert_eq!(after.layout_engine.all_window_ids(), vec![w1, w2]);
    assert!(after.layout_engine.is_window_floating(w2));
    assert_eq!(after.persistence.adoption.peek(WindowServerId::new(101)), Some(w1));
    assert_eq!(after.persistence.adoption.peek(WindowServerId::new(102)), Some(w2));

    // the second window comes back under another id and keeps its slot
    let live = WindowId::new(7, 4);
    register_live(&mut after, live, 102);
    assert_eq!(
        after.try_adopt_window(live, SpaceId::new(8)),
        None,
        "its slot is on another space"
    );
    assert_eq!(
        after.try_adopt_window(live, space),
        Some(Ok(AppRuleResult::Managed(AppRuleAssignment {
            workspace_id: VirtualWorkspaceId::new(10),
            floating: true,
            prev_rule_decision: false,
        })))
    );
    assert!(after.layout_engine.is_window_floating(live));
    assert_eq!(after.layout_engine.find_window_by_idx(space, 1), Some(live));

    // activating again does nothing
    let effects = after.outbox.len();
    after.activate_restore_if_ready();
    assert_eq!(after.outbox.len(), effects);
}

#[test]
fn other_displays_start_fresh() {
    let space = SpaceId::new(1);
    let mut before = new_reactor();
    before.world.screens = one_screen(space);
    place_in_engine(&mut before, space, &[WindowId::new(1, 1)]);
    let written = before.assemble_single_snapshot();

    let mut after = new_reactor();
    after.enable_persistence("layout.ron".to_string(), Loaded::Parsed(written));
    after.world.screens = vec![screen(0, Some(space), "another-display")];
    after.activate_restore_if_ready();
    assert!(after.persistence.activated);
    assert!(after.outbox.is_empty());
    assert!(after.layout_engine.all_window_ids().is_empty());
}

#[test]
fn flushing_keeps_the_arrangements_of_other_displays() {
    let mut docked = new_reactor();
    docked.world.screens = vec![screen(0, Some(SpaceId::new(1)), "big")];
    let on_disk = docked.assemble_single_snapshot();

    let mut reactor = new_reactor();
    assert!(reactor.flush_snapshot(Loaded::ReadFailed).is_none(), "persistence is off");
    reactor.enable_persistence("layout.ron".to_string(), Loaded::ReadFailed);
    reactor.world.screens = vec![screen(0, Some(SpaceId::new(1)), "small")];
    let (path, merged) = reactor.flush_snapshot(Loaded::Parsed(on_disk)).unwrap();
    assert_eq!(path, "layout.ron");
    assert_eq!(merged.arrangements.len(), 2);
    assert!(merged.arrangements.contains_key(&"big".to_string()));
    assert!(merged.arrangements.contains_key(&"small".to_string()));
}

#[test]
fn a_save_holds_what_stood_when_it_came_due() {
    let space = SpaceId::new(1);
    let mut reactor = new_reactor();
    reactor.world.screens = one_screen(space);
    reactor.enable_persistence("layout.ron".to_string(), Loaded::ReadFailed);
    let gone = WindowId::new(1, 1);
    place_in_engine(&mut reactor, space, &[gone]);
    reactor.install_restore_state(staged(&[(gone, 101)]), VecMap::new());
    reactor.mark_layout_dirty();
    let key = reactor.current_fingerprint();

    // the save is due and the wait is over: the window is given up, but still saved
    reactor.world.clock = Instant::from_nanos(ADOPTION_SETTLE_TIMEOUT_NS + SAVE_DEBOUNCE_NS);
    reactor.persistence_tick();
    assert_eq!(reactor.outbox, vec![Effect::FlushSnapshot, RELAYOUT]);
    assert!(reactor.layout_engine.workspace_for_window_any(gone).is_none());
    let (_, first) = reactor.flush_snapshot(Loaded::ReadFailed).unwrap();
    assert_eq!(first.arrangements.get(&key).unwrap().engine.all_window_ids(), vec![gone]);
    assert!(reactor.persistence.due_saves.is_empty(), "it is written once");

    // the next save no longer holds it
    reactor.world.clock = Instant::from_nanos(ADOPTION_SETTLE_TIMEOUT_NS + 2 * SAVE_DEBOUNCE_NS);
    reactor.persistence_tick();
    let (_, second) = reactor.flush_snapshot(Loaded::Parsed(first)).unwrap();
    assert!(second.arrangements.get(&key).unwrap().engine.all_window_ids().is_empty());
}

#[test]
fn saves_that_wait_are_written_in_turn() {
    let mut reactor = new_reactor();
    reactor.enable_persistence("layout.ron".to_string(), Loaded::ReadFailed);
    for (step, display) in [(1, "big"), (2, "small")] {
        reactor.world.screens = vec![screen(0, Some(SpaceId::new(1)), display)];
        reactor.mark_layout_dirty();
        reactor.world.clock = Instant::from_nanos(step * SAVE_DEBOUNCE_NS);
        reactor.persistence_tick();
    }
    assert_eq!(reactor.outbox, vec![Effect::FlushSnapshot, Effect::FlushSnapshot]);
    let (_, first) = reactor.flush_snapshot(Loaded::ReadFailed).unwrap();
    assert_eq!(first.arrangements.len(), 1);
    assert!(first.arrangements.contains_key(&"big".to_string()));
    let (_, second) = reactor.flush_snapshot(Loaded::Parsed(first)).unwrap();
    assert_eq!(second.arrangements.len(), 2);
    assert!(second.arrangements.contains_key(&"small".to_string()));
}

#[test]
fn remapping_twice_is_remapping_once() {
    let mut reactor = new_reactor();
    let w = WindowId::new(1, 1);
    place_in_engine(&mut reactor, SpaceId::new(1), &[w]);
    let mut saved = VecMap::new();
    saved.insert(SpaceId::new(1), ("d".to_string(), 0u32));
    saved.insert(SpaceId::new(2), ("unplugged".to_string(), 0u32));
    reactor.install_restore_state(AdoptionTable::new(), saved);
    reactor.world.screens = vec![screen(0, Some(SpaceId::new(5)), "d"), screen(1, Some(SpaceId::new(6)), "")];
    reactor.remap_restored_spaces();
    assert_eq!(reactor.persistence.saved_spaces.len(), 1, "the unplugged display still waits");
    reactor.remap_restored_spaces();
    assert_eq!(reactor.persistence.saved_spaces.len(), 1);
    assert!(reactor.layout_engine.workspace_for_window(SpaceId::new(5), w).is_some());
}

#[test]
fn a_space_shown_under_its_saved_id_stays() {
    let mut reactor = new_reactor();
    let w = WindowId::new(1, 1);
    place_in_engine(&mut reactor, SpaceId::new(4), &[w]);
    let mut saved = VecMap::new();
    saved.insert(SpaceId::new(4), ("d".to_string(), 0u32));
    reactor.install_restore_state(AdoptionTable::new(), saved);
    reactor.world.screens = vec![screen(0, Some(SpaceId::new(4)), "d")];
    reactor.remap_restored_spaces();
    assert!(reactor.persistence.saved_spaces.is_empty());
    assert!(reactor.layout_engine.workspace_for_window(SpaceId::new(4), w).is_some());
}
