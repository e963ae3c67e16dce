//! The saved form of a layout.
//!
//! A snapshot pairs the layout engine with two sidecar maps that give runtime
//! ids a durable identity, keyed per display arrangement. Loading always yields
//! a snapshot: a missing file, a parse error or another version all start fresh.

use vstd::prelude::*;

use crate::collections::VecMap;
use crate::ids::{SpaceId, WindowId, WindowServerId};
use crate::layout_engine::engine::LayoutEngine;
use crate::sys::geometry::CGRect;

verus! {

/// Current schema version. Bump only on a breaking change to the format; a file
/// of another version is discarded.
pub const SNAPSHOT_VERSION: u32 = 1;

/// Durable identity for a window whose runtime id is session-scoped.
///
/// The server id matches exactly while the window lives; the rest describes the
/// window once server ids have changed.
#[derive(Debug, PartialEq)]
pub struct WindowIdentity {
    pub server_id: WindowServerId,
    pub bundle_id: String,
    pub title: String,
    pub ax_role: String,
    pub frame: CGRect,
}

/// One saved arrangement: the engine plus the sidecars needed to re-adopt its
/// spaces and windows into a fresh session.
#[derive(Debug)]
pub struct Arrangement {
    pub engine: LayoutEngine,
    /// Durable space identity: display uuid and ordinal on that display.
    pub spaces: VecMap<SpaceId, (String, u32)>,
    /// Durable window identity, keyed by the id in the engine.
    pub windows: VecMap<WindowId, WindowIdentity>,
    /// Windows pinned above the focused window.
    pub topmost: Vec<WindowId>,
}

impl Arrangement {
    pub open spec fn wf(&self) -> bool {
        self.engine.wf() && self.spaces.wf() && self.windows.wf()
    }
}

/// The whole persisted file: arrangements keyed by display fingerprint.
#[derive(Debug)]
pub struct Snapshot {
    pub version: u32,
    pub arrangements: VecMap<String, Arrangement>,
}

/// What reading and parsing a snapshot file came to.
#[derive(Debug)]
pub enum Loaded {
    /// The file could not be read; it may not exist.
    ReadFailed,
    /// The contents are not a snapshot.
    ParseFailed,
    Parsed(Snapshot),
}

impl Snapshot {
    /// The arrangements are well formed, one per fingerprint.
    pub open spec fn wf(&self) -> bool {
        &&& self.arrangements.wf()
        &&& forall|i: int|
            0 <= i < self.arrangements.entries@.len() ==> (
            #[trigger] self.arrangements.entries@[i]).1.wf()
    }

    /// A snapshot of the current version without arrangements.
    pub open spec fn is_fresh(&self) -> bool {
        self.version == SNAPSHOT_VERSION && self.arrangements.entries@.len() == 0
            && self.arrangements@ == Map::<Seq<char>, Arrangement>::empty()
    }

    /// The snapshot that a file holds, or a fresh one where it holds none of this
    /// version.
    pub fn load_or_default(loaded: Loaded) -> (s: Snapshot)
        ensures
            match loaded {
                Loaded::Parsed(parsed) if parsed.version == SNAPSHOT_VERSION => s == parsed,
                _ => s.is_fresh(),
            },
            s.version == SNAPSHOT_VERSION,
    {
        match loaded {
            Loaded::Parsed(parsed) => {
                if parsed.version == SNAPSHOT_VERSION {
                    parsed
                } else {
                    Snapshot::default()
                }
            },
            Loaded::ReadFailed => Snapshot::default(),
            Loaded::ParseFailed => Snapshot::default(),
        }
    }

    /// Replace the arrangement of one fingerprint, keeping all others.
    pub fn insert_arrangement(&mut self, fingerprint: String, arrangement: Arrangement)
        requires
            old(self).wf(),
            arrangement.wf(),
        ensures
            final(self).wf(),
            final(self).version == old(self).version,
            final(self).arrangements@ == old(self).arrangements@.insert(fingerprint@, arrangement),
    {
        self.arrangements.insert(fingerprint, arrangement);
    }
}

impl Default for Snapshot {
    fn default() -> (s: Snapshot)
        ensures
            s.is_fresh(),
            s.wf(),
    {
        Snapshot { version: SNAPSHOT_VERSION, arrangements: VecMap::new() }
    }
}

} // verus!
