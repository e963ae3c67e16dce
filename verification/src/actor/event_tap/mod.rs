//! Input processing.
//!
//! [`EventTap`] decides what happens on each input event and on each request of
//! the main thread. It reads no hardware: an event arrives as a [`TapEvent`] with
//! everything that was sampled for it, and whatever has to be done outside is
//! appended to the outbox as a [`TapAction`], in order.

use vstd::prelude::*;

pub mod event_laws;
pub mod laws;
pub mod request_laws;
pub mod state;
pub mod tap;

use crate::ids::{SpaceId, WindowServerId};
use crate::sys::geometry::{CGPoint, CGRect};
use crate::sys::hotkey::{CGEventFlags, Hotkey, KeyCode, Modifiers};

pub use crate::actor::event_tap::state::{
    build_event_mask, mouse_move_sampling_profile, native_mission_control_hotkey,
    window_from_mouse_event, State,
};
pub use crate::actor::event_tap::tap::EventTap;

verus! {

/// Least time between two mouse-move samples: 8 ms, about 125 Hz.
pub const MOUSE_MOVE_MIN_INTERVAL_NS_NORMAL: u64 = 8_000_000;

/// Square of the least distance between two samples: two pixels, in units.
pub const MOUSE_MOVE_MIN_DISTANCE_SQ_NORMAL: u64 = 4 * 48 * 48;

/// The same on battery saver: 16 ms, about 62 Hz.
pub const MOUSE_MOVE_MIN_INTERVAL_NS_LOW_POWER: u64 = 16_000_000;

/// The same on battery saver: three pixels, in units.
pub const MOUSE_MOVE_MIN_DISTANCE_SQ_LOW_POWER: u64 = 9 * 48 * 48;

/// Watchdog ticks with mouse handling suppressed after which it is forced back
/// on.
pub const STUCK_TICKS_LIMIT: u32 = 3;

/// How the windows of a space are laid out.
#[derive(Debug, Clone, Copy, PartialEq, Eq, Structural)]
pub enum LayoutMode {
    Traditional,
    Scrolling,
}

/// Height of the main screen, by which screen coordinates are flipped.
#[derive(Debug, Clone, Copy, PartialEq, Eq, Structural)]
pub struct CoordinateConverter {
    pub screen_height: Option<i64>,
}

/// A command bound to a hotkey, by the number it was registered under.
#[derive(Debug, Clone, Copy, PartialEq, Eq, Structural)]
pub struct WmCommand {
    pub id: u64,
}

/// What a hotkey description means on the current keyboard layout.
#[derive(Debug)]
pub struct ResolvedHotkey {
    pub hotkey: Hotkey,
    /// The side-specific modifier sets it stands for, where it leaves the side of
    /// a modifier open.
    pub expansions: Option<Vec<Modifiers>>,
}

/// The settings the event tap reads.
#[derive(Debug, Clone, Copy, PartialEq, Eq, Structural)]
pub struct TapConfig {
    pub mouse_hides_on_focus: bool,
    pub focus_follows_mouse: bool,
    pub focus_follows_mouse_dwell_ms: u64,
    pub focus_follows_mouse_disable_hotkey: Option<Hotkey>,
    pub stack_line_enabled: bool,
    pub layout_mode: LayoutMode,
}

/// A request of the main thread.
#[derive(Debug)]
pub enum Request {
    Warp(CGPoint),
    /// Move the cursor without a synthetic mouse-moved event, so that focus follows mouse does
    /// not re-decide focus (used after a move to another display, where focus is already set).
    WarpSilent(CGPoint),
    EnforceHidden,
    ScreenParametersChanged(Vec<(CGRect, Option<SpaceId>)>, CoordinateConverter),
    SpaceChanged(Vec<Option<SpaceId>>),
    SetEventProcessing(bool),
    SetFocusFollowsMouseEnabled(bool),
    /// New bindings, with what each description resolves to now.
    SetHotkeys(Vec<(String, WmCommand)>, Vec<Option<ResolvedHotkey>>),
    /// What the descriptions held resolve to on the new layout, in order.
    KeyboardLayoutChanged(Vec<Option<ResolvedHotkey>>),
    ConfigUpdated(TapConfig),
    LayoutModesChanged(Vec<(SpaceId, LayoutMode)>),
    SetLowPowerMode(bool),
}

/// The kinds of input event that are told apart.
#[derive(Debug, Clone, Copy, PartialEq, Eq, Structural)]
pub enum EventKind {
    LeftMouseDown,
    LeftMouseUp,
    RightMouseDown,
    RightMouseUp,
    MouseMoved,
    LeftMouseDragged,
    RightMouseDragged,
    KeyDown,
    KeyUp,
    FlagsChanged,
    Other,
}

/// An input event with what was sampled for it.
#[derive(Debug, Clone, Copy, PartialEq, Eq, Structural)]
pub struct TapEvent {
    pub kind: EventKind,
    pub flags: CGEventFlags,
    pub location: CGPoint,
    pub timestamp: u64,
    /// The key of a keyboard event, where it is known.
    pub key: Option<KeyCode>,
    /// The location lies on a stack-line indicator.
    pub hits_indicator: bool,
    /// A window of another application covers the location.
    pub occluded: bool,
    /// The window that the window server finds at the location.
    pub window_at_point: Option<WindowServerId>,
    /// The window id that the event itself carries.
    pub window_field: i64,
}

/// Work for the driver, in the order in which it is to be done.
#[derive(Debug, Clone, Copy, PartialEq, Eq, Structural)]
pub enum TapAction {
    AllowHideMouse,
    /// Warp, then report to [`EventTap::warp_finished`].
    WarpMouse(CGPoint),
    /// Warp without a synthetic move, then report to [`EventTap::warp_finished`].
    WarpMouseSilent(CGPoint),
    HideMouse,
    ShowMouse,
    /// Install a tap with this mask, then report to [`EventTap::tap_rebuilt`].
    RebuildTap(u64),
    EnableTap,
    /// (Re-)arm the dwell timer, in milliseconds.
    ArmDwellTimer(u64),
    StackLineMouseDown(CGPoint),
    StackLineMouseMoved { point: CGPoint, hits_indicator: bool },
    SendMouseDown,
    SendMouseUp,
    SendMouseMoved,
    SendMouseMovedOverWindow(WindowServerId),
    SendMissionControlNativeEntered,
    RunCommand(WmCommand),
}

/// What a focus-follows-mouse hover sample should do (see [`State::note_ffm_hover`]).
#[derive(Debug, Clone, Copy, PartialEq, Eq, Structural)]
pub enum FfmHover {
    RaiseNow(WindowServerId),
    Armed(u64),
    NoChange,
}

} // verus!
