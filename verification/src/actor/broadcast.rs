//! What is told to subscribers.

use vstd::prelude::*;

use crate::ids::{SpaceId, VirtualWorkspaceId, WindowId};

verus! {

/// How a container arranges its children.
#[derive(Debug, Clone, Copy, PartialEq, Eq, Structural)]
pub enum LayoutKind {
    Horizontal,
    Vertical,
    HorizontalStack,
    VerticalStack,
}

/// A stack of windows of which one is selected.
#[derive(Debug, Clone, PartialEq, Eq)]
pub struct StackInfo {
    pub container_kind: LayoutKind,
    pub total_count: usize,
    pub selected_index: usize,
    pub windows: Vec<String>,
}

#[allow(inconsistent_fields)]
#[derive(Debug, Clone, PartialEq, Eq)]
pub enum BroadcastEvent {
    WorkspaceChanged {
        space_id: SpaceId,
        workspace_id: VirtualWorkspaceId,
        workspace_name: String,
        display_uuid: Option<String>,
    },
    WindowsChanged {
        workspace_id: VirtualWorkspaceId,
        workspace_name: String,
        windows: Vec<String>,
        space_id: SpaceId,
        display_uuid: Option<String>,
    },
    WindowTitleChanged {
        window_id: WindowId,
        workspace_id: VirtualWorkspaceId,
        workspace_index: Option<u64>,
        workspace_name: String,
        previous_title: String,
        new_title: String,
        space_id: SpaceId,
        display_uuid: Option<String>,
    },
    StacksChanged {
        workspace_id: VirtualWorkspaceId,
        workspace_index: Option<u64>,
        workspace_name: String,
        stacks: Vec<StackInfo>,
        active_workspace_has_fullscreen: bool,
        space_id: SpaceId,
        display_uuid: Option<String>,
    },
    /// The focused window changed; carries its frame, in units, so that an overlay
    /// can place a border without polling.
    WindowFocused {
        window_id: WindowId,
        frame_x: i64,
        frame_y: i64,
        frame_width: i64,
        frame_height: i64,
        /// Overlays may skip floating windows.
        is_floating: bool,
        space_id: SpaceId,
        display_uuid: Option<String>,
    },
}

} // verus!
