//! Identifiers shared by every part of the library.

use vstd::prelude::*;

use crate::collections::Key;

verus! {

/// Process identifier of an application.
#[allow(non_camel_case_types)]
pub type pid_t = i32;

/// A window as an application names it: its owner and a per-owner index.
#[derive(Debug, Clone, Copy, PartialEq, Eq, PartialOrd, Ord, Hash, Structural)]
pub struct WindowId {
    pub pid: pid_t,
    pub idx: u32,
}

impl WindowId {
    pub fn new(pid: pid_t, idx: u32) -> (wid: WindowId)
        ensures
            wid == (WindowId { pid, idx }),
    {
        WindowId { pid, idx }
    }
}

/// A native desktop space.
#[derive(Debug, Clone, Copy, PartialEq, Eq, PartialOrd, Ord, Hash, Structural)]
pub struct SpaceId {
    pub raw: u64,
}

impl SpaceId {
    pub fn new(raw: u64) -> (space: SpaceId)
        ensures
            space.raw == raw,
    {
        SpaceId { raw }
    }

    pub fn get(self) -> (raw: u64)
        ensures
            raw == self.raw,
    {
        self.raw
    }
}

/// A window as the window server names it. Stable while the window lives.
#[derive(Debug, Clone, Copy, PartialEq, Eq, PartialOrd, Ord, Hash, Structural)]
pub struct WindowServerId {
    pub raw: u32,
}

impl WindowServerId {
    pub fn new(raw: u32) -> (wsid: WindowServerId)
        ensures
            wsid.raw == raw,
    {
        WindowServerId { raw }
    }

    pub fn as_u32(self) -> (raw: u32)
        ensures
            raw == self.raw,
    {
        self.raw
    }
}

/// A virtual workspace; unique across spaces.
#[derive(Debug, Clone, Copy, PartialEq, Eq, PartialOrd, Ord, Hash, Structural)]
pub struct VirtualWorkspaceId {
    pub raw: u64,
}

impl VirtualWorkspaceId {
    pub fn new(raw: u64) -> (workspace: VirtualWorkspaceId)
        ensures
            workspace.raw == raw,
    {
        VirtualWorkspaceId { raw }
    }
}

impl View for WindowId {
    type V = WindowId;

    open spec fn view(&self) -> WindowId {
        *self
    }
}

impl Key for WindowId {
    fn same(&self, other: &Self) -> (b: bool) {
        *self == *other
    }
}

impl View for SpaceId {
    type V = SpaceId;

    open spec fn view(&self) -> SpaceId {
        *self
    }
}

impl Key for SpaceId {
    fn same(&self, other: &Self) -> (b: bool) {
        *self == *other
    }
}

impl View for WindowServerId {
    type V = WindowServerId;

    open spec fn view(&self) -> WindowServerId {
        *self
    }
}

impl Key for WindowServerId {
    fn same(&self, other: &Self) -> (b: bool) {
        *self == *other
    }
}

impl View for VirtualWorkspaceId {
    type V = VirtualWorkspaceId;

    open spec fn view(&self) -> VirtualWorkspaceId {
        *self
    }
}

impl Key for VirtualWorkspaceId {
    fn same(&self, other: &Self) -> (b: bool) {
        *self == *other
    }
}

} // verus!
