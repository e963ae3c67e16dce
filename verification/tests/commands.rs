use rift::actor::event_tap::WmCommand;
use rift::actor::reactor::border::{border_process, border_target_line};
use rift::actor::reactor::command::CommandEventHandler;
use rift::actor::reactor::{
    AppState, Command, Config, Direction, DisplaySelector, Effect, LayoutCommand, LayoutEvent,
    MetricsCommand, PendingWarp, Reactor, ReactorCommand, ResponseOf, ScreenInfo,
    SpaceActivationConfig, WindowState, WmCmd, WorkspaceKey, WorkspaceSwitchOrigin,
};
use rift::common::time::Instant;
use rift::ids::{SpaceId, VirtualWorkspaceId, WindowId, WindowServerId};
use rift::layout_engine::engine::{LayoutEngine, Placement};
use rift::layout_engine::snapshot::Loaded;
use rift::sys::geometry::{CGPoint, CGRect, CGSize, PX};
use rift::sys::hotkey::{Hotkey, KeyCode, Modifiers};

const RELAYOUT: Effect = Effect::UpdateLayout { is_resize: false, is_workspace_switch: false };

fn px(x: i64, y: i64) -> CGPoint {
    CGPoint::new(x * PX, y * PX)
}

fn space(n: u64) -> SpaceId {
    SpaceId::new(n)
}

fn wid(n: u32) -> WindowId {
    WindowId::new(1, n)
}

fn wsid(n: u32) -> WindowServerId {
    WindowServerId::new(n)
}

fn config() -> Config {
    Config { keys: vec![], focus_follows_mouse: true, default_disable: true }
}

/// Two displays side by side, on spaces 1 and 2, both managed, with one tiled
/// window of a known application on each. Commands go to space 1.
fn desktop() -> Reactor {
    let mut r = Reactor::new(config(), false, LayoutEngine::new());
    for n in [1u64, 2] {
        r.world.screens.push(ScreenInfo {
            frame: CGRect::from_px(1000 * (n as i32 - 1), 0, 1000, 800),
            space: Some(space(n)),
            display_uuid: format!("display-{n}"),
        });
        r.world.known_spaces.push(space(n));
        r.world.shown_spaces.insert(space(n));
        r.world.active_spaces.insert(space(n));
        let workspace = VirtualWorkspaceId::new(n * 10);
        r.layout_engine.set_active_workspace(space(n), workspace);
        let w = wid(n as u32);
        r.layout_engine.place_window(w, Placement { space: space(n), workspace, index: 0 });
        r.world.window_ids.insert(wsid(n as u32), w);
        r.world.visible.insert(wsid(n as u32));
        r.world.windows.insert(
            w,
            WindowState {
                frame_monotonic: CGRect::from_px(1000 * (n as i32 - 1) + 100, 100, 200, 100),
                sys_id: Some(wsid(n as u32)),
                title: String::new(),
                ax_role: None,
                bundle_id: None,
            },
        );
    }
    r.world.apps.insert(1, AppState { bundle_id: None });
    r.world.command_space = Some(space(1));
    r.world.main_window = Some(wid(1));
    r.world.channels.event_tap = true;
    r.world.channels.events = true;
    r
}

fn run(r: &mut Reactor, command: ReactorCommand) {
    CommandEventHandler::handle_command(r, Command::Reactor(command));
}

fn right() -> DisplaySelector {
    DisplaySelector::Direction(Direction::Right)
}

fn focused(n: u64) -> Effect {
    Effect::LayoutEvent(LayoutEvent::WindowFocused(space(n), wid(n as u32)))
}

#[test]
fn a_tiled_window_moves_to_the_next_display() {
    let mut r = desktop();
    r.world.clock = Instant::from_nanos(1_000);
    run(&mut r, ReactorCommand::MoveWindowToDisplay { selector: right(), window_id: None });
    assert_eq!(
        r.outbox,
        vec![
            Effect::MoveWindowToSpace {
                source: space(1),
                target: space(2),
                size: CGSize::new(1000 * PX, 800 * PX),
                window: wid(1),
            },
            Effect::LayoutEvent(LayoutEvent::WindowFocused(space(2), wid(1))),
            RELAYOUT,
            Effect::RaiseWindow { window: wid(1), app_known: true, quiet: false, warp: None },
            Effect::PokeBorder(wsid(1)),
            Effect::ScheduleReassert { window: wid(1), delay_ms: 200 },
            Effect::ScheduleReassert { window: wid(1), delay_ms: 450 },
            Effect::ScheduleReassert { window: wid(1), delay_ms: 800 },
        ]
    );
    assert_eq!(
        r.pending_display_move_warp,
        Some(PendingWarp {
            window: wid(1),
            display: CGRect::from_px(1000, 0, 1000, 800),
            deadline: Instant::from_nanos(600_001_000),
        })
    );
}

#[test]
fn a_floating_window_gets_its_frame_first() {
    let mut r = desktop();
    r.layout_engine.set_floating(wid(1), true);
    run(&mut r, ReactorCommand::MoveWindowToDisplay { selector: right(), window_id: None });
    // centred on the second display
    let frame = CGRect::from_px(1400, 350, 200, 100);
    assert_eq!(
        r.outbox[0],
        Effect::SetWindowFrame {
            window: wid(1),
            frame,
            transaction_for: Some(wsid(1)),
            requested: true,
        }
    );
    assert!(matches!(r.outbox[1], Effect::MoveWindowToSpace { .. }));
    assert_eq!(r.outbox.len(), 6, "nothing is asserted again");
    assert_eq!(r.world.windows.get(&wid(1)).unwrap().frame_monotonic, frame);
}

#[test]
fn a_window_wider_than_the_display_ends_at_its_far_edge() {
    let mut r = desktop();
    r.layout_engine.set_floating(wid(1), true);
    let mut state = r.world.windows.remove(&wid(1)).unwrap();
    state.frame_monotonic = CGRect::from_px(0, 0, 1200, 100);
    r.world.windows.insert(wid(1), state);
    run(&mut r, ReactorCommand::MoveWindowToDisplay { selector: right(), window_id: None });
    assert_eq!(
        r.world.windows.get(&wid(1)).unwrap().frame_monotonic,
        CGRect::from_px(800, 350, 1200, 100)
    );
}

#[test]
fn refused_moves_change_nothing() {
    let refuse = |mut r: Reactor, selector: DisplaySelector, window_id: Option<u32>| {
        run(&mut r, ReactorCommand::MoveWindowToDisplay { selector, window_id });
        assert!(r.outbox.is_empty(), "{:?}", r.outbox);
        assert_eq!(r.pending_display_move_warp, None);
    };
    let mut dragging = desktop();
    dragging.world.in_drag = true;
    refuse(dragging, right(), None);
    // no such window
    refuse(desktop(), right(), Some(7));
    // no display on the left
    refuse(desktop(), DisplaySelector::Direction(Direction::Left), None);
    // already there
    refuse(desktop(), DisplaySelector::Uuid("display-1".to_string()), None);
    let mut unmanaged = desktop();
    unmanaged.world.active_spaces.remove(&space(2));
    refuse(unmanaged, right(), None);
    let mut empty = desktop();
    empty.world.screens[1].space = None;
    refuse(empty, right(), None);
    let mut unknown = desktop();
    unknown.world.windows.remove(&wid(1));
    refuse(unknown, right(), None);
    let mut nothing = desktop();
    nothing.world.main_window = None;
    nothing.world.command_space = None;
    nothing.world.active_spaces.remove(&space(1));
    nothing.world.active_spaces.remove(&space(2));
    refuse(nothing, right(), None);
}

#[test]
fn the_window_to_move_is_found_by_number_or_hover() {
    // number 0 exists on the command space
    let mut r = desktop();
    r.world.main_window = Some(wid(2));
    run(&mut r, ReactorCommand::MoveWindowToDisplay { selector: right(), window_id: Some(0) });
    assert!(matches!(r.outbox[0], Effect::MoveWindowToSpace { window, .. } if window == wid(1)));
    // without a main window the hovered one moves
    let mut r = desktop();
    r.world.main_window = None;
    r.world.window_under_cursor = Some(wsid(2));
    run(
        &mut r,
        ReactorCommand::MoveWindowToDisplay {
            selector: DisplaySelector::Direction(Direction::Left),
            window_id: None,
        },
    );
    assert!(matches!(r.outbox[0], Effect::MoveWindowToSpace { window, target, .. }
        if window == wid(2) && target == space(1)));
    // else the first of the command space
    let mut r = desktop();
    r.world.main_window = None;
    run(&mut r, ReactorCommand::MoveWindowToDisplay { selector: right(), window_id: None });
    assert!(matches!(r.outbox[0], Effect::MoveWindowToSpace { window, .. } if window == wid(1)));
    // a number that only another active space has
    let mut r = desktop();
    r.layout_engine.place_window(
        wid(2),
        Placement { space: space(2), workspace: VirtualWorkspaceId::new(20), index: 5 },
    );
    run(
        &mut r,
        ReactorCommand::MoveWindowToDisplay { selector: DisplaySelector::Index(0), window_id: Some(5) },
    );
    assert!(matches!(r.outbox[0], Effect::MoveWindowToSpace { window, .. } if window == wid(2)));
}

#[test]
fn reasserting_restores_the_reported_frame() {
    let mut r = desktop();
    let real = CGRect::from_px(10, 10, 50, 50);
    r.world.server_frames.insert(wsid(1), real);
    r.world.target_frames.insert(wsid(1), CGRect::from_px(0, 0, 99, 99));
    CommandEventHandler::handle_reassert_display_move(&mut r, wid(1));
    assert_eq!(r.world.windows.get(&wid(1)).unwrap().frame_monotonic, real);
    assert!(!r.world.target_frames.contains_key(&wsid(1)));
    assert_eq!(r.outbox, vec![RELAYOUT]);
    CommandEventHandler::handle_reassert_display_move(&mut r, wid(1));
    assert_eq!(r.world.windows.get(&wid(1)).unwrap().frame_monotonic, real);
    assert_eq!(r.outbox, vec![RELAYOUT, RELAYOUT]);
    CommandEventHandler::handle_reassert_display_move(&mut r, wid(9));
    assert_eq!(r.outbox.len(), 2, "unknown window");
    // without a reported frame the held one stays
    let held = r.world.windows.get(&wid(2)).unwrap().frame_monotonic;
    CommandEventHandler::handle_reassert_display_move(&mut r, wid(2));
    assert_eq!(r.world.windows.get(&wid(2)).unwrap().frame_monotonic, held);
    assert_eq!(r.outbox.len(), 3);
}

#[test]
fn a_workspace_switch_keeps_what_it_would_lose() {
    let mut r = desktop();
    r.layout_engine.set_floating(wid(1), true);
    r.world.cursor = Some(px(5, 6));
    let command = LayoutCommand::NextWorkspace(None);
    CommandEventHandler::handle_command(&mut r, Command::Layout(command));
    assert_eq!(
        r.outbox,
        vec![
            Effect::StoreFloatingPosition {
                space: space(1),
                window: wid(1),
                frame: CGRect::from_px(100, 100, 200, 100),
            },
            Effect::WorkspaceCommand { space: space(1), command },
            Effect::HandleLayoutResponse {
                response: ResponseOf::EngineCall,
                workspace_space: Some(space(1)),
            },
            Effect::UpdateEventTapLayoutMode,
        ]
    );
    assert_eq!(r.workspace_switch, Some(WorkspaceSwitchOrigin::Manual));
    let key = WorkspaceKey { space: space(1), workspace: VirtualWorkspaceId::new(10) };
    assert_eq!(r.saved_workspace_cursors.get(&key), Some(&px(5, 6)));
}

#[test]
fn creating_a_workspace_is_no_switch() {
    let mut r = desktop();
    r.workspace_switch = Some(WorkspaceSwitchOrigin::Auto);
    r.world.cursor = Some(px(5, 6));
    CommandEventHandler::handle_command_layout(&mut r, LayoutCommand::CreateWorkspace);
    assert_eq!(r.workspace_switch, None);
    assert!(r.saved_workspace_cursors.is_empty());
    assert_eq!(r.outbox.len(), 3);
}

#[test]
fn workspace_commands_without_a_space_answer_nothing() {
    let mut r = desktop();
    r.world.active_spaces.remove(&space(1));
    r.world.active_spaces.remove(&space(2));
    CommandEventHandler::handle_command_layout(&mut r, LayoutCommand::SwitchToWorkspace(3));
    assert_eq!(
        r.outbox,
        vec![
            Effect::HandleLayoutResponse { response: ResponseOf::Nothing, workspace_space: None },
            Effect::UpdateEventTapLayoutMode,
        ]
    );
    // any other command is dropped
    let mut r = desktop();
    r.world.active_spaces.remove(&space(1));
    r.world.active_spaces.remove(&space(2));
    CommandEventHandler::handle_command_layout(&mut r, LayoutCommand::Other(4));
    assert!(r.outbox.is_empty());
}

#[test]
fn other_layout_commands_go_to_the_visible_spaces() {
    let mut r = desktop();
    CommandEventHandler::handle_command_layout(&mut r, LayoutCommand::Other(4));
    assert_eq!(
        r.outbox,
        vec![
            Effect::LayoutCommand {
                command_space: Some(space(1)),
                visible: vec![(space(1), px(500, 400)), (space(2), px(1500, 400))],
                command: LayoutCommand::Other(4),
            },
            Effect::HandleLayoutResponse { response: ResponseOf::EngineCall, workspace_space: None },
        ]
    );
    assert_eq!(
        r.visible_spaces_for_layout(false),
        vec![(space(1), px(500, 400)), (space(2), px(1500, 400))]
    );
    r.world.active_spaces.remove(&space(1));
    assert_eq!(r.visible_spaces_for_layout(false), vec![(space(2), px(1500, 400))]);
    assert_eq!(r.visible_spaces_for_layout(true).len(), 2);
}

#[test]
fn moving_a_numbered_window_goes_to_its_space() {
    let mut r = desktop();
    r.layout_engine.place_window(
        wid(2),
        Placement { space: space(2), workspace: VirtualWorkspaceId::new(20), index: 5 },
    );
    let command = LayoutCommand::MoveWindowToWorkspace { workspace: 1, window_id: Some(5) };
    CommandEventHandler::handle_command_layout(&mut r, command);
    assert_eq!(r.outbox[0], Effect::WorkspaceCommand { space: space(2), command });
    let command = LayoutCommand::MoveWindowToWorkspace { workspace: 1, window_id: None };
    CommandEventHandler::handle_command_layout(&mut r, command);
    assert_eq!(r.outbox[2], Effect::WorkspaceCommand { space: space(1), command });
}

#[test]
fn a_new_configuration_is_announced() {
    let mut r = desktop();
    r.world.channels.stack_line = true;
    r.world.channels.menu_bar = true;
    r.world.channels.wm = true;
    CommandEventHandler::handle_config_updated(&mut r, config());
    assert_eq!(
        r.outbox,
        vec![
            Effect::SetLayoutSettings,
            Effect::UpdateVirtualWorkspaceSettings,
            Effect::UpdateDragConfig,
            Effect::StackLineConfigUpdated,
            Effect::MenuBarConfigUpdated,
            Effect::UpdateLayout { is_resize: false, is_workspace_switch: true },
        ]
    );
    r.outbox.clear();
    let mut changed = config();
    let key_code = KeyCode { code: 1, modifier: false, flag: None };
    changed.keys = vec![(Hotkey::new(Modifiers::empty(), key_code), WmCommand { id: 1 })];
    CommandEventHandler::handle_config_updated(&mut r, changed);
    assert_eq!(r.outbox.last(), Some(&Effect::WmConfigUpdated), "the keys changed");
    assert_eq!(r.config.keys.len(), 1);
    r.world.channels.stack_line = false;
    r.world.channels.menu_bar = false;
    r.world.channels.wm = false;
    r.outbox.clear();
    CommandEventHandler::handle_config_updated(&mut r, config());
    assert_eq!(r.outbox.len(), 4, "nobody else listens");
}

#[test]
fn focusing_a_window_needs_an_active_space() {
    let mut r = desktop();
    run(&mut r, ReactorCommand::FocusWindow { window_id: wid(2), window_server_id: None });
    let raise = Effect::RaiseWindow { window: wid(2), app_known: true, quiet: false, warp: None };
    assert_eq!(r.outbox, vec![focused(2), raise]);
    r.outbox.clear();
    r.world.active_spaces.remove(&space(2));
    run(&mut r, ReactorCommand::FocusWindow { window_id: wid(2), window_server_id: None });
    assert!(r.outbox.is_empty());
    run(&mut r, ReactorCommand::FocusWindow { window_id: wid(9), window_server_id: Some(wsid(9)) });
    assert_eq!(r.outbox, vec![Effect::MakeKeyWindow { pid: 1, window: wsid(9) }]);
    run(&mut r, ReactorCommand::FocusWindow { window_id: wid(9), window_server_id: None });
    assert_eq!(r.outbox.len(), 1);
}

#[test]
fn the_mouse_moves_to_a_display_and_focuses_there() {
    let mut r = desktop();
    run(&mut r, ReactorCommand::MoveMouseToDisplay(right()));
    assert_eq!(r.outbox, vec![Effect::WarpMouse(px(1500, 400)), focused(2)]);
    r.outbox.clear();
    r.world.active_spaces.remove(&space(2));
    run(&mut r, ReactorCommand::MoveMouseToDisplay(right()));
    assert!(r.outbox.is_empty());
}

#[test]
fn focusing_a_display_warps_only_where_there_is_no_window() {
    let mut r = desktop();
    run(&mut r, ReactorCommand::FocusDisplay(DisplaySelector::Index(1)));
    assert_eq!(r.outbox, vec![focused(2)]);
    r.outbox.clear();
    r.layout_engine.prune_window(wid(2));
    run(&mut r, ReactorCommand::FocusDisplay(DisplaySelector::Uuid("display-2".to_string())));
    assert_eq!(r.outbox, vec![Effect::WarpMouse(px(1500, 400))]);
    r.outbox.clear();
    run(&mut r, ReactorCommand::FocusDisplay(DisplaySelector::Index(2)));
    assert!(r.outbox.is_empty(), "no such display");
}

#[test]
fn the_last_focused_window_comes_first_while_visible() {
    let mut r = desktop();
    let workspace = VirtualWorkspaceId::new(20);
    r.layout_engine.place_window(wid(3), Placement { space: space(2), workspace, index: 1 });
    let mut state = r.world.windows.remove(&wid(2)).unwrap();
    state.sys_id = Some(wsid(3));
    r.world.windows.insert(wid(3), state);
    r.world.window_ids.insert(wsid(3), wid(3));
    r.world.visible.insert(wsid(3));
    r.layout_engine.set_last_focused(workspace, wid(3));
    assert_eq!(r.last_focused_window_in_space(space(2)), Some(wid(3)));
    run(&mut r, ReactorCommand::FocusDisplay(right()));
    assert_eq!(r.outbox, vec![Effect::LayoutEvent(LayoutEvent::WindowFocused(space(2), wid(3)))]);
    r.world.visible.remove(&wsid(3));
    assert_eq!(r.last_focused_window_in_space(space(2)), None);
}

#[test]
fn toggling_asks_the_policy_about_the_space_under_the_cursor() {
    let mut r = desktop();
    r.world.cursor = Some(px(1200, 10));
    run(&mut r, ReactorCommand::ToggleSpaceActivated);
    let asked = |n: u64| Effect::ToggleSpaceActivated {
        config: SpaceActivationConfig { default_disable: true, one_space: false },
        space: space(n),
        display_uuid: Some(format!("display-{n}")),
    };
    assert_eq!(r.outbox, vec![asked(2), Effect::RecomputeActiveSpaces]);
    r.outbox.clear();
    r.world.cursor = None;
    run(&mut r, ReactorCommand::ToggleSpaceActivated);
    assert_eq!(r.outbox[0], asked(1), "else the first known space");
    r.outbox.clear();
    r.world.known_spaces.clear();
    run(&mut r, ReactorCommand::ToggleSpaceActivated);
    assert!(r.outbox.is_empty());
}

#[test]
fn mission_control_commands_go_to_the_controller() {
    let mut r = desktop();
    r.world.channels.wm = true;
    run(&mut r, ReactorCommand::ShowMissionControlAll);
    run(&mut r, ReactorCommand::ShowMissionControlCurrent);
    run(&mut r, ReactorCommand::DismissMissionControl);
    assert_eq!(
        r.outbox,
        vec![
            Effect::WmCommand(WmCmd::ShowMissionControlAll),
            Effect::WmCommand(WmCmd::ShowMissionControlCurrent),
            Effect::WmCommand(WmCmd::DismissMissionControl),
        ]
    );
}

#[test]
fn without_a_controller_dismissing_ends_mission_control() {
    let mut r = desktop();
    r.mission_control_active = true;
    run(&mut r, ReactorCommand::ShowMissionControlAll);
    assert!(r.outbox.is_empty());
    run(&mut r, ReactorCommand::DismissMissionControl);
    assert!(!r.mission_control_active);
    assert_eq!(r.outbox, vec![Effect::SetFocusFollowsMouse(true)]);
    run(&mut r, ReactorCommand::DismissMissionControl);
    assert_eq!(r.outbox.len(), 1, "already dismissed");
    r.mission_control_active = true;
    r.world.menu_open = true;
    run(&mut r, ReactorCommand::DismissMissionControl);
    assert_eq!(r.outbox.last(), Some(&Effect::SetFocusFollowsMouse(false)), "a menu is open");
}

#[test]
fn closing_names_a_window_or_the_main_one() {
    let mut r = desktop();
    run(&mut r, ReactorCommand::CloseWindow { window_server_id: Some(wsid(2)) });
    run(&mut r, ReactorCommand::CloseWindow { window_server_id: Some(wsid(77)) });
    run(&mut r, ReactorCommand::CloseWindow { window_server_id: None });
    assert_eq!(
        r.outbox,
        vec![Effect::CloseWindow(wid(2)), Effect::CloseWindow(wid(1)), Effect::CloseWindow(wid(1))]
    );
    r.outbox.clear();
    r.world.main_window = None;
    run(&mut r, ReactorCommand::CloseWindow { window_server_id: None });
    assert!(r.outbox.is_empty());
}

#[test]
fn the_rest_is_handed_on() {
    let mut r = desktop();
    r.world.screens[0].space = None;
    run(&mut r, ReactorCommand::Debug);
    run(&mut r, ReactorCommand::Serialize);
    run(&mut r, ReactorCommand::SaveAndExit);
    run(&mut r, ReactorCommand::SwitchSpace(Direction::Up));
    CommandEventHandler::handle_command(&mut r, Command::Metrics(MetricsCommand { id: 4 }));
    assert_eq!(
        r.outbox,
        vec![
            Effect::DebugTree(space(2)),
            Effect::PrintState,
            Effect::SaveLayoutAndExit,
            Effect::SwitchSpace(Direction::Up),
            Effect::Metrics(MetricsCommand { id: 4 }),
        ]
    );
    assert_eq!(CommandEventHandler::exit_status_after_save(true), 0);
    assert_eq!(CommandEventHandler::exit_status_after_save(false), 3);
}

#[test]
fn a_layout_event_schedules_a_save() {
    let mut r = desktop();
    r.enable_persistence("layout.ron".to_string(), Loaded::ReadFailed);
    r.world.clock = Instant::from_nanos(5);
    r.send_layout_event(LayoutEvent::WindowFocused(space(1), wid(1)));
    assert_eq!(r.persistence.debouncer.deadline(), Some(Instant::from_nanos(1_000_000_005)));
}

#[test]
fn direction_prefers_the_same_row() {
    let mut r = desktop();
    // a display close by on the right, but in the row above
    r.world.screens.push(ScreenInfo {
        frame: CGRect::from_px(600, -900, 500, 400),
        space: Some(space(3)),
        display_uuid: String::new(),
    });
    let found = r.screen_for_selector(&right(), Some(px(500, 400))).unwrap();
    assert_eq!(found.space, Some(space(2)));
    let up = DisplaySelector::Direction(Direction::Up);
    assert_eq!(r.screen_for_selector(&up, Some(px(700, 400))).unwrap().space, Some(space(3)));
    assert_eq!(r.screen_for_selector(&DisplaySelector::Direction(Direction::Down), Some(px(700, 400))), None);
}

#[test]
fn displays_are_numbered_left_to_right_and_top_to_bottom() {
    let mut r = desktop();
    r.world.screens.push(ScreenInfo {
        frame: CGRect::from_px(0, -500, 10, 10),
        space: Some(space(3)),
        display_uuid: String::new(),
    });
    let at = |i| r.screen_for_selector(&DisplaySelector::Index(i), None).map(|s| s.space.unwrap().get());
    assert_eq!(at(0), Some(3));
    assert_eq!(at(1), Some(1));
    assert_eq!(at(2), Some(2));
    assert_eq!(at(3), None);
}

#[test]
fn native_space_sources_rank() {
    let mut r = desktop();
    assert_eq!(r.resolve_native_space(wsid(1), None), None);
    r.world.prior_spaces.insert(wsid(1), space(2));
    assert_eq!(r.resolve_native_space(wsid(1), None), Some(space(2)));
    // a pending move within the assigned space
    r.world.target_frames.insert(wsid(1), CGRect::from_px(100, 100, 10, 10));
    assert_eq!(r.resolve_native_space(wsid(1), None), Some(space(1)));
    assert_eq!(r.resolve_native_space(wsid(1), Some(space(2))), Some(space(1)), "not backed");
    r.world.live_spaces.insert(wsid(1), space(2));
    assert_eq!(r.resolve_native_space(wsid(1), Some(space(2))), Some(space(2)), "a newer move");
    assert_eq!(r.resolve_native_space(wsid(1), None), Some(space(2)));
}

#[test]
fn the_space_of_a_window_comes_from_its_frame_at_last() {
    let mut r = desktop();
    let frame = CGRect::from_px(900, 0, 300, 100);
    assert_eq!(r.best_space_for_window(&frame, None), Some(space(2)), "its middle is there");
    // the middle is on no screen: the larger overlap counts
    let below = CGRect::from_px(900, 790, 300, 100);
    assert_eq!(r.best_space_for_frame(&below), Some(space(2)));
    assert_eq!(r.best_space_for_frame(&CGRect::from_px(5000, 0, 10, 10)), None);
    r.world.fullscreen.insert(wsid(1));
    assert_eq!(r.best_space_for_window(&frame, Some(wsid(1))), None);
}

#[test]
fn a_window_in_an_inactive_workspace_stays_on_its_space() {
    let mut r = desktop();
    r.layout_engine.set_active_workspace(space(1), VirtualWorkspaceId::new(99));
    let parked = CGRect::from_px(1999, 799, 200, 100);
    assert_eq!(r.best_space_for_window(&parked, Some(wsid(1))), Some(space(1)));
    assert_eq!(r.best_space_for_window_id(wid(1)), Some(space(1)));
}

#[test]
fn commands_go_to_a_shown_and_managed_space() {
    let mut r = desktop();
    assert_eq!(r.workspace_command_space(), Some(space(1)));
    r.world.shown_spaces.remove(&space(1));
    assert_eq!(r.workspace_command_space(), Some(space(2)));
    r.world.active_spaces.remove(&space(2));
    assert_eq!(r.workspace_command_space(), None);
    assert_eq!(r.active_display_space(), Some(space(2)));
}

#[test]
fn the_border_files() {
    assert_eq!(border_target_line(wsid(0)), "0\n");
    assert_eq!(border_target_line(wsid(4294967295)), "4294967295\n");
    assert_eq!(border_process(" 123\n"), Some(123));
    assert_eq!(border_process("+7"), Some(7));
    assert_eq!(border_process("-2147483648"), Some(i32::MIN));
    assert_eq!(border_process("2147483647"), Some(i32::MAX));
    assert_eq!(border_process("2147483648"), None);
    assert_eq!(border_process("-2147483649"), None);
    assert_eq!(border_process("000000000000000000000012"), Some(12));
    assert_eq!(border_process(""), None);
    assert_eq!(border_process("-"), None);
    assert_eq!(border_process("1 2"), None);
    assert_eq!(border_process("\u{2003}5\u{a0}"), Some(5));
    for text in ["12", "-3", "+4", "x", "99999999999", "\t8 ", "--1", "1_0"] {
        assert_eq!(border_process(text), text.trim().parse::<i32>().ok(), "{text}");
    }
}

#[test]
fn the_cursor_follows_a_moved_window_once_it_has_landed() {
    let mut r = desktop();
    run(&mut r, ReactorCommand::MoveWindowToDisplay { selector: right(), window_id: None });
    r.outbox.clear();
    CommandEventHandler::finish_display_move_warp(&mut r);
    assert!(r.outbox.is_empty(), "still on the first display");
    assert!(r.pending_display_move_warp.is_some());
    let mut state = r.world.windows.remove(&wid(1)).unwrap();
    state.frame_monotonic = CGRect::from_px(1200, 100, 200, 100);
    r.world.windows.insert(wid(1), state);
    CommandEventHandler::finish_display_move_warp(&mut r);
    assert_eq!(r.outbox, vec![Effect::WarpMouseSilent(px(1300, 150))]);
    assert_eq!(r.pending_display_move_warp, None);
    CommandEventHandler::finish_display_move_warp(&mut r);
    assert_eq!(r.outbox.len(), 1);
}

#[test]
fn a_window_that_does_not_land_is_followed_at_the_deadline() {
    let mut r = desktop();
    run(&mut r, ReactorCommand::MoveWindowToDisplay { selector: right(), window_id: None });
    r.outbox.clear();
    r.world.clock = Instant::from_nanos(600_000_000);
    CommandEventHandler::finish_display_move_warp(&mut r);
    assert_eq!(r.outbox, vec![Effect::WarpMouseSilent(px(200, 150))]);
}

#[test]
fn commands_only_add_to_the_work_at_hand() {
    let mut r = desktop();
    run(&mut r, ReactorCommand::Serialize);
    let placed = r.layout_engine.all_window_ids();
    run(&mut r, ReactorCommand::MoveWindowToDisplay { selector: right(), window_id: None });
    CommandEventHandler::handle_command_layout(&mut r, LayoutCommand::CreateWorkspace);
    assert_eq!(r.outbox[0], Effect::PrintState);
    assert!(matches!(r.outbox[1], Effect::MoveWindowToSpace { .. }));
    assert_eq!(r.layout_engine.all_window_ids(), placed, "the engine is the driver's to change");
}

#[test]
fn a_later_move_replaces_the_pending_warp() {
    let mut r = desktop();
    run(&mut r, ReactorCommand::MoveWindowToDisplay { selector: right(), window_id: None });
    r.world.main_window = Some(wid(2));
    let left = DisplaySelector::Direction(Direction::Left);
    run(&mut r, ReactorCommand::MoveWindowToDisplay { selector: left, window_id: None });
    let pending = r.pending_display_move_warp.unwrap();
    assert_eq!(pending.window, wid(2));
    assert_eq!(pending.display, CGRect::from_px(0, 0, 1000, 800));
}

#[test]
fn visible_spaces_come_in_physical_order() {
    let mut r = desktop();
    r.world.screens.swap(0, 1);
    let ordered = vec![(space(1), px(500, 400)), (space(2), px(1500, 400))];
    assert_eq!(r.visible_spaces_for_layout(false), ordered);
    CommandEventHandler::handle_command_layout(&mut r, LayoutCommand::Other(4));
    assert!(matches!(&r.outbox[0], Effect::LayoutCommand { visible, .. } if *visible == ordered));
}

#[test]
fn visible_spaces_are_ordered_by_their_middles() {
    let mut r = desktop();
    // the first begins further left, but its middle is further right
    r.world.screens[0].frame = CGRect::from_px(0, 0, 4000, 800);
    r.world.screens[1].frame = CGRect::from_px(1000, 0, 1000, 800);
    let ordered = vec![(space(2), px(1500, 400)), (space(1), px(2000, 400))];
    assert_eq!(r.visible_spaces_for_layout(false), ordered);
    // one above the other
    r.world.screens[0].frame = CGRect::from_px(0, 800, 1000, 800);
    r.world.screens[1].frame = CGRect::from_px(0, 0, 1000, 800);
    let ordered = vec![(space(2), px(500, 400)), (space(1), px(500, 1200))];
    assert_eq!(r.visible_spaces_for_layout(false), ordered);
    // at one place, as the screens are listed, wherever they begin
    r.world.screens[0].frame = CGRect::from_px(400, 300, 200, 200);
    let ordered = vec![(space(1), px(500, 400)), (space(2), px(500, 400))];
    assert_eq!(r.visible_spaces_for_layout(false), ordered);
}
