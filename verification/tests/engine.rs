use rift::ids::{SpaceId, VirtualWorkspaceId, WindowId};
use rift::layout_engine::engine::{LayoutEngine, Placement};

const SPACE: u64 = 1;

fn slot(space: u64, workspace: u64, index: u32) -> Placement {
    Placement { space: SpaceId::new(space), workspace: VirtualWorkspaceId::new(workspace), index }
}

fn engine() -> LayoutEngine {
    let mut e = LayoutEngine::new();
    e.expose_space(SpaceId::new(SPACE), Some("display".to_string()));
    e.set_active_workspace(SpaceId::new(SPACE), VirtualWorkspaceId::new(10));
    e.place_window(WindowId::new(1, 1), slot(SPACE, 10, 0));
    e.place_window(WindowId::new(1, 2), slot(SPACE, 11, 1));
    e.place_window(WindowId::new(2, 1), slot(SPACE, 10, 2));
    e.set_last_focused(VirtualWorkspaceId::new(10), WindowId::new(2, 1));
    e.set_floating(WindowId::new(2, 1), true);
    e
}

#[test]
fn windows_are_found_by_number_and_workspace() {
    let e = engine();
    assert_eq!(e.find_window_by_idx(SpaceId::new(SPACE), 2), Some(WindowId::new(2, 1)));
    assert_eq!(e.find_window_by_idx(SpaceId::new(9), 2), None);
    assert_eq!(
        e.windows_in_active_workspace(SpaceId::new(SPACE)),
        vec![WindowId::new(1, 1), WindowId::new(2, 1)]
    );
    assert_eq!(
        e.workspace_for_window(SpaceId::new(SPACE), WindowId::new(1, 2)),
        Some(VirtualWorkspaceId::new(11))
    );
    assert_eq!(e.workspace_for_window(SpaceId::new(9), WindowId::new(1, 2)), None);
}

#[test]
fn a_rewritten_window_keeps_its_place() {
    let mut e = engine();
    let to = WindowId::new(8, 8);
    e.rewrite_window_id(WindowId::new(1, 1), to);
    assert_eq!(e.all_window_ids(), vec![to, WindowId::new(1, 2), WindowId::new(2, 1)]);
    assert_eq!(e.workspace_info_for_window_any(to), Some(slot(SPACE, 10, 0)));
    e.rewrite_window_id(WindowId::new(2, 1), WindowId::new(9, 9));
    assert!(e.is_window_floating(WindowId::new(9, 9)));
    assert!(!e.is_window_floating(WindowId::new(2, 1)));
    assert_eq!(e.last_focused_window(VirtualWorkspaceId::new(10)), Some(WindowId::new(9, 9)));
    // onto an id that has a slot: the old one of that id is dropped
    e.rewrite_window_id(to, WindowId::new(1, 2));
    assert_eq!(e.workspace_info_for_window_any(WindowId::new(1, 2)), Some(slot(SPACE, 10, 0)));
    assert_eq!(e.all_window_ids().len(), 2);
}

#[test]
fn a_pruned_window_leaves_nothing() {
    let mut e = engine();
    e.prune_window(WindowId::new(2, 1));
    assert_eq!(e.workspace_for_window_any(WindowId::new(2, 1)), None);
    assert!(!e.is_window_floating(WindowId::new(2, 1)));
    assert_eq!(e.last_focused_window(VirtualWorkspaceId::new(10)), None);
    assert_eq!(e.all_window_ids(), vec![WindowId::new(1, 1), WindowId::new(1, 2)]);
}

#[test]
fn a_remapped_space_is_empty() {
    let mut e = engine();
    e.place_window(WindowId::new(3, 1), slot(2, 20, 0));
    e.remap_space(SpaceId::new(SPACE), SpaceId::new(7));
    assert_eq!(e.workspace_info_for_window_any(WindowId::new(1, 2)), Some(slot(7, 11, 1)));
    assert_eq!(e.workspace_info_for_window_any(WindowId::new(3, 1)), Some(slot(2, 20, 0)));
    assert_eq!(e.active_workspace(SpaceId::new(SPACE)), None);
    assert_eq!(e.active_workspace(SpaceId::new(7)), Some(VirtualWorkspaceId::new(10)));
    assert_eq!(e.displays.get(&SpaceId::new(7)), Some(&Some("display".to_string())));
    let ids = e.all_window_ids();
    e.remap_space(SpaceId::new(7), SpaceId::new(7));
    assert_eq!(e.all_window_ids(), ids);
}

#[test]
fn a_duplicate_is_the_same() {
    let e = engine();
    let d = e.duplicate();
    assert_eq!(d.all_window_ids(), e.all_window_ids());
    assert!(d.is_window_floating(WindowId::new(2, 1)));
    assert_eq!(d.displays.get(&SpaceId::new(SPACE)), Some(&Some("display".to_string())));
    assert_eq!(d.last_focused_window(VirtualWorkspaceId::new(10)), Some(WindowId::new(2, 1)));
}
