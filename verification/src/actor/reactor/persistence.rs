//! Layout persistence: snapshot assembly, restore activation, space remap, exact
//! window adoption, and pruning.
//!
//! The layout engine saves its own state but does not know a window's server id,
//! its bundle id, or which display a space is on. Those identities live in the
//! reactor. This module owns the join: at save time it pairs engine state with
//! identities; at load time it lifts the matching arrangement back into the
//! engine and drives re-adoption as windows are found again.

use vstd::prelude::*;

use crate::actor::reactor::command::sent;
use crate::actor::reactor::{lookup, or, Effect, Reactor, ReactorModel, ScreenInfo, WindowState};
use crate::collections::{
    distinct_keys, entries_map, has_key, holds_key, index_of_key, lemma_entry, lemma_key,
    lemma_with_without, with_entry, without_key, VecMap,
};
use crate::common::debounce::{deadline_after_edit, deadline_after_poll, due, Debouncer};
use crate::common::text::{
    insert_sorted, join, joined, lemma_sorted_unique, lemma_with_text, strictly_sorted, texts_of,
    with_text,
};
use crate::common::time::{Duration, Instant};
use crate::ids::{pid_t, SpaceId, VirtualWorkspaceId, WindowId, WindowServerId};
use crate::layout_engine::engine::{
    engine_pruned, engine_remapped, engine_rewritten, EngineModel,
};
use crate::layout_engine::snapshot::{
    Arrangement, Loaded, Snapshot, WindowIdentity, SNAPSHOT_VERSION,
};

verus! {

/// How long after a layout change the debounced save fires: one second.
pub const SAVE_DEBOUNCE_NS: u64 = 1_000_000_000;

/// How long after a restore unclaimed windows are given up: three minutes.
pub const ADOPTION_SETTLE_TIMEOUT_NS: u64 = 180_000_000_000;

/// One pending re-adoption: a window that existed before the restart.
#[derive(Debug)]
pub struct AdoptionEntry {
    /// The id that occupies this window's slot in the restored engine.
    pub old_wid: WindowId,
    pub identity: WindowIdentity,
}

/// Windows of a restored arrangement still awaiting a live match, by their
/// server id, which is stable while a window lives.
#[derive(Debug)]
pub struct AdoptionTable {
    pub by_server_id: VecMap<WindowServerId, AdoptionEntry>,
}

impl View for AdoptionTable {
    type V = Seq<(WindowServerId, AdoptionEntry)>;

    open spec fn view(&self) -> Seq<(WindowServerId, AdoptionEntry)> {
        self.by_server_id.entries@
    }
}

/// An arrangement as it was when its save came due, and the displays it is of.
#[derive(Debug)]
pub struct DueSave {
    pub fingerprint: String,
    pub arrangement: Arrangement,
}

/// All persistence state the reactor carries. Disabled without a restore path.
#[derive(Debug)]
pub struct PersistenceState {
    pub restore_path: Option<String>,
    /// Loaded at startup, consumed once the display fingerprint is known.
    pub pending_restore: Option<Snapshot>,
    /// The restore attempt has run, whether or not it found a match.
    pub activated: bool,
    pub debouncer: Debouncer,
    pub adoption: AdoptionTable,
    /// Saved space identities awaiting resolution to a live space.
    pub saved_spaces: VecMap<SpaceId, (String, u32)>,
    /// When unclaimed windows are given up (armed while adopting).
    pub settle_deadline: Option<Instant>,
    /// What the saves that came due are to write, in the order they came due.
    pub due_saves: Vec<DueSave>,
}

/// [`PersistenceState`] as a mathematical value.
#[verifier::ext_equal]
pub struct PersistenceModel {
    pub restore_path: Option<String>,
    pub pending_restore: Option<Snapshot>,
    pub activated: bool,
    pub save_deadline: Option<Instant>,
    pub adoption: Seq<(WindowServerId, AdoptionEntry)>,
    pub saved_spaces: Seq<(SpaceId, (String, u32))>,
    pub settle_deadline: Option<Instant>,
    pub due_saves: Seq<DueSave>,
}

impl View for PersistenceState {
    type V = PersistenceModel;

    open spec fn view(&self) -> PersistenceModel {
        PersistenceModel {
            restore_path: self.restore_path,
            pending_restore: self.pending_restore,
            activated: self.activated,
            save_deadline: self.debouncer.pending(),
            adoption: self.adoption@,
            saved_spaces: self.saved_spaces.entries@,
            settle_deadline: self.settle_deadline,
            due_saves: self.due_saves@,
        }
    }
}

impl PersistenceState {
    pub open spec fn wf(&self) -> bool {
        &&& self.debouncer.spec_interval().nanos == SAVE_DEBOUNCE_NS
        &&& self.adoption.by_server_id.wf()
        &&& self.saved_spaces.wf()
        &&& self.pending_restore matches Some(s) ==> s.wf()
        &&& forall|i: int|
            0 <= i < self.due_saves@.len() ==> (#[trigger] self.due_saves@[i]).arrangement.wf()
    }
}

// ---------------------------------------------------------------------------
// The adoption table
// ---------------------------------------------------------------------------

/// `table` with an entry for each of `windows`, taken from the end. Of two
/// windows with one server id the one that stands first stays.
pub open spec fn staged(
    windows: Seq<(WindowId, WindowIdentity)>,
    table: Seq<(WindowServerId, AdoptionEntry)>,
) -> Seq<(WindowServerId, AdoptionEntry)>
    decreases windows.len(),
{
    if windows.len() == 0 {
        table
    } else {
        let (old_wid, identity) = windows.last();
        staged(
            windows.drop_last(),
            with_entry(table, identity.server_id, AdoptionEntry { old_wid, identity }),
        )
    }
}

/// The pre-restart id that waits for a server id.
pub open spec fn awaiting(
    table: Seq<(WindowServerId, AdoptionEntry)>,
    server_id: WindowServerId,
) -> Option<WindowId> {
    match lookup(entries_map(table), server_id) {
        Some(entry) => Some(entry.old_wid),
        None => None,
    }
}

/// Of the first `count` entries, those that are not of process `pid`.
pub open spec fn entries_of_others(
    table: Seq<(WindowServerId, AdoptionEntry)>,
    pid: pid_t,
    count: int,
) -> Seq<(WindowServerId, AdoptionEntry)>
    decreases count,
{
    if count <= 0 {
        Seq::empty()
    } else {
        let before = entries_of_others(table, pid, count - 1);
        if table[count - 1].1.old_wid.pid == pid {
            before
        } else {
            before.push(table[count - 1])
        }
    }
}

/// The ids of process `pid` among the first `count` entries.
pub open spec fn ids_of(
    table: Seq<(WindowServerId, AdoptionEntry)>,
    pid: pid_t,
    count: int,
) -> Seq<WindowId>
    decreases count,
{
    if count <= 0 {
        Seq::empty()
    } else {
        let before = ids_of(table, pid, count - 1);
        if table[count - 1].1.old_wid.pid == pid {
            before.push(table[count - 1].1.old_wid)
        } else {
            before
        }
    }
}

/// The ids of all entries.
pub open spec fn all_ids(table: Seq<(WindowServerId, AdoptionEntry)>) -> Seq<WindowId> {
    table.map_values(|e: (WindowServerId, AdoptionEntry)| e.1.old_wid)
}

impl AdoptionTable {
    pub open spec fn wf(&self) -> bool {
        self.by_server_id.wf()
    }

    /// A table without entries.
    pub fn new() -> (t: AdoptionTable)
        ensures
            t.wf(),
            t@ == Seq::<(WindowServerId, AdoptionEntry)>::empty(),
    {
        AdoptionTable { by_server_id: VecMap::new() }
    }

    /// An entry for each saved window.
    pub fn from_windows(windows: VecMap<WindowId, WindowIdentity>) -> (t: AdoptionTable)
        ensures
            t.wf(),
            t@ == staged(windows.entries@, Seq::empty()),
    {
        let ghost all = windows.entries@;
        let mut rest = windows.entries;
        let mut table = AdoptionTable::new();
        while rest.len() > 0
            invariant
                table.wf(),
                staged(rest@, table@) == staged(all, Seq::empty()),
            decreases rest@.len(),
        {
            let ghost before = rest@;
            if let Some((old_wid, identity)) = rest.pop() {
                assert(rest@ =~= before.drop_last());
                let server_id = identity.server_id;
                table.by_server_id.insert(server_id, AdoptionEntry { old_wid, identity });
            }
        }
        table
    }

    pub fn is_empty(&self) -> (b: bool)
        ensures
            b == (self@.len() == 0),
    {
        self.by_server_id.entries.len() == 0
    }

    /// The pre-restart id waiting on `server_id`, without consuming the entry.
    pub fn peek(&self, server_id: WindowServerId) -> (r: Option<WindowId>)
        requires
            self.wf(),
        ensures
            r == awaiting(self@, server_id),
    {
        match self.by_server_id.get(&server_id) {
            Some(entry) => Some(entry.old_wid),
            None => None,
        }
    }

    /// Consume the entry for `server_id`.
    pub fn claim(&mut self, server_id: WindowServerId)
        requires
            old(self).wf(),
        ensures
            final(self).wf(),
            final(self)@ == without_key(old(self)@, server_id),
    {
        self.by_server_id.remove(&server_id);
    }

    /// Remove every entry that belongs to `pid`, returning the pre-restart ids.
    pub fn prune_pid(&mut self, pid: pid_t) -> (stale: Vec<WindowId>)
        requires
            old(self).wf(),
        ensures
            final(self).wf(),
            final(self)@ == entries_of_others(old(self)@, pid, old(self)@.len() as int),
            stale@ == ids_of(old(self)@, pid, old(self)@.len() as int),
    {
        let ghost all = self@;
        let mut stale: Vec<WindowId> = Vec::new();
        let mut i: usize = 0;
        let ghost mut n: int = 0;
        assert(self@ =~= entries_of_others(all, pid, 0) + all.subrange(0, all.len() as int));
        while i < self.by_server_id.entries.len()
            invariant
                0 <= n <= all.len(),
                distinct_keys(all),
                i == entries_of_others(all, pid, n).len(),
                self@ == entries_of_others(all, pid, n) + all.subrange(n, all.len() as int),
                stale@ == ids_of(all, pid, n),
            decreases all.len() - n,
        {
            assert(self@[i as int] == all[n]);
            if self.by_server_id.entries[i].1.old_wid.pid == pid {
                let ghost before = self@;
                let (_, entry) = self.by_server_id.entries.remove(i);
                stale.push(entry.old_wid);
                assert(self@ =~= entries_of_others(all, pid, n + 1) + all.subrange(
                    n + 1,
                    all.len() as int,
                ));
            } else {
                i += 1;
                assert(self@ =~= entries_of_others(all, pid, n + 1) + all.subrange(
                    n + 1,
                    all.len() as int,
                ));
            }
            proof {
                n = n + 1;
            }
        }
        proof {
            assert(n == all.len());
            assert(self@ =~= entries_of_others(all, pid, n));
            lemma_others(all, pid, n);
        }
        stale
    }

    /// Remove every entry, returning the pre-restart ids.
    pub fn drain_all(&mut self) -> (stale: Vec<WindowId>)
        ensures
            final(self).wf(),
            final(self)@ == Seq::<(WindowServerId, AdoptionEntry)>::empty(),
            stale@ == all_ids(old(self)@),
    {
        let mut stale: Vec<WindowId> = Vec::new();
        let mut i: usize = 0;
        while i < self.by_server_id.entries.len()
            invariant
                *self == *old(self),
                i <= self@.len(),
                stale@ =~= all_ids(self@.take(i as int)),
            decreases self@.len() - i,
        {
            stale.push(self.by_server_id.entries[i].1.old_wid);
            i += 1;
        }
        assert(self@.take(i as int) =~= self@);
        self.by_server_id = VecMap::new();
        stale
    }
}

/// Each entry left after a prune stood in the table, in the same order, and none
/// is of the process.
proof fn lemma_others(table: Seq<(WindowServerId, AdoptionEntry)>, pid: pid_t, count: int)
    requires
        distinct_keys(table),
        0 <= count <= table.len(),
    ensures
        distinct_keys(entries_of_others(table, pid, count)),
        forall|k: WindowServerId| #[trigger]
            has_key(entries_of_others(table, pid, count), k) ==> exists|i: int|
                #![trigger table[i]]
                0 <= i < count && table[i].0 == k,
        forall|i: int|
            0 <= i < entries_of_others(table, pid, count).len() ==> (#[trigger] entries_of_others(
                table,
                pid,
                count,
            )[i]).1.old_wid.pid != pid,
    decreases count,
{
    if count > 0 {
        lemma_others(table, pid, count - 1);
        let before = entries_of_others(table, pid, count - 1);
        let next = entries_of_others(table, pid, count);
        if table[count - 1].1.old_wid.pid != pid {
            assert(!has_key(before, table[count - 1].0)) by {
                if has_key(before, table[count - 1].0) {
                    let i = choose|i: int|
                        #![trigger table[i]]
                        0 <= i < count - 1 && table[i].0 == table[count - 1].0;
                    assert(table[i].0@ == table[count - 1].0@);
                }
            }
            assert forall|a: int, b: int|
                0 <= a < next.len() && 0 <= b < next.len() && next[a].0@ == next[b].0@ implies a
                == b by {
                if a < before.len() && b == before.len() {
                    assert(holds_key(before, table[count - 1].0, a));
                }
                if b < before.len() && a == before.len() {
                    assert(holds_key(before, table[count - 1].0, b));
                }
            }
        }
        assert forall|k: WindowServerId| #[trigger] has_key(next, k) implies exists|i: int|
            #![trigger table[i]]
            0 <= i < count && table[i].0 == k by {
            let c = index_of_key(next, k);
            assert(holds_key(next, k, c));
            if c < before.len() {
                assert(holds_key(before, k, c));
                assert(has_key(before, k));
                let i = choose|i: int| #![trigger table[i]] 0 <= i < count - 1 && table[i].0 == k;
                assert(0 <= i < count && table[i].0 == k);
            } else {
                assert(table[count - 1].0 == k);
            }
        }
    }
}

/// `m` with a save due after the debounce, where persistence is on.
pub open spec fn marked_dirty(m: ReactorModel) -> ReactorModel {
    if m.persistence.restore_path is Some {
        ReactorModel {
            persistence: PersistenceModel {
                save_deadline: deadline_after_edit(
                    Duration { nanos: SAVE_DEBOUNCE_NS },
                    m.world.clock,
                ),
                ..m.persistence
            },
            ..m
        }
    } else {
        m
    }
}

impl Reactor {
    /// Mark layout state dirty; a tick flushes it once the debounce is over.
    pub fn mark_layout_dirty(&mut self)
        requires
            old(self).wf(),
        ensures
            final(self).wf(),
            final(self)@ == marked_dirty(old(self)@),
    {
        if self.persistence.restore_path.is_some() {
            self.persistence.debouncer.mark_dirty(self.world.clock);
        }
    }
}

// ---------------------------------------------------------------------------
// Saving
// ---------------------------------------------------------------------------

/// The uuids of the displays of the first `count` screens, sorted, each once.
pub open spec fn display_uuids(screens: Seq<ScreenInfo>, count: int) -> Seq<Seq<char>>
    decreases count,
{
    if count <= 0 {
        Seq::empty()
    } else {
        let before = display_uuids(screens, count - 1);
        if screens[count - 1].display_uuid@.len() > 0 {
            with_text(before, screens[count - 1].display_uuid@)
        } else {
            before
        }
    }
}

/// The key of the current arrangement: the uuids of the connected displays,
/// sorted and joined.
pub open spec fn fingerprint(screens: Seq<ScreenInfo>) -> Seq<char> {
    joined(display_uuids(screens, screens.len() as int), seq!['+'])
}

/// A screen of the display that shows a space before `space`.
pub open spec fn shows_lower(screen: ScreenInfo, uuid: Seq<char>, space: SpaceId) -> bool {
    screen.display_uuid@ == uuid && (screen.space matches Some(s) && s.raw < space.raw)
}

/// How many of the first `count` screens of a display show a lower space.
pub open spec fn lower_spaces(
    screens: Seq<ScreenInfo>,
    uuid: Seq<char>,
    space: SpaceId,
    count: int,
) -> int
    decreases count,
{
    if count <= 0 {
        0
    } else {
        lower_spaces(screens, uuid, space, count - 1) + (if shows_lower(
            screens[count - 1],
            uuid,
            space,
        ) {
            1int
        } else {
            0int
        })
    }
}

/// A screen of the display shows the space.
pub open spec fn shown_on(screens: Seq<ScreenInfo>, uuid: Seq<char>, space: SpaceId) -> bool {
    exists|i: int|
        #![trigger screens[i]]
        0 <= i < screens.len() && screens[i].display_uuid@ == uuid && screens[i].space == Some(
            space,
        )
}

/// The place of a space among those that a display shows; 0 where it shows none
/// such.
pub open spec fn ordinal(screens: Seq<ScreenInfo>, uuid: Seq<char>, space: SpaceId) -> u32 {
    if shown_on(screens, uuid, space) {
        lower_spaces(screens, uuid, space, screens.len() as int) as u32
    } else {
        0
    }
}

/// The text of an optional string, empty where there is none.
pub open spec fn text_or_empty(s: Option<String>) -> Seq<char> {
    match s {
        Some(s) => s@,
        None => Seq::empty(),
    }
}

/// The window's bundle id, else that of its application.
pub open spec fn bundle_of(m: ReactorModel, wid: WindowId, state: WindowState) -> Option<String> {
    or(
        state.bundle_id,
        match lookup(m.world.apps, wid.pid) {
            Some(app) => app.bundle_id,
            None => None,
        },
    )
}

/// The server id under which a window is saved: it has a slot, is known, and has
/// one.
pub open spec fn saved_under(m: ReactorModel, wid: WindowId) -> Option<WindowServerId> {
    if m.engine.slot(wid) is Some {
        match lookup(m.world.windows, wid) {
            Some(state) => state.sys_id,
            None => None,
        }
    } else {
        None
    }
}

/// `identity` is the durable identity of a known window.
pub open spec fn identifies(m: ReactorModel, wid: WindowId, identity: WindowIdentity) -> bool {
    let state = m.world.windows[wid];
    &&& state.sys_id == Some(identity.server_id)
    &&& identity.bundle_id@ == text_or_empty(bundle_of(m, wid, state))
    &&& identity.title@ == state.title@
    &&& identity.ax_role@ == text_or_empty(state.ax_role)
    &&& identity.frame == state.frame_monotonic
}

/// The display that a space is recorded on: that of the engine's record, else
/// the one that shows it now. `None` where the engine does not know the space.
pub open spec fn recorded_display(m: ReactorModel, space: SpaceId) -> Option<String> {
    if has_key(m.engine.displays, space) {
        or(entries_map(m.engine.displays)[space], m.display_of_space(space))
    } else {
        None
    }
}

/// `a` is the arrangement of the current state: the engine as it is, every window
/// with a server id under its identity, every space with a display under that
/// and its ordinal, and the pinned windows.
pub open spec fn is_arrangement(m: ReactorModel, a: Arrangement) -> bool {
    &&& a.wf()
    &&& a.engine@ == m.engine
    &&& forall|wid: WindowId| #[trigger]
        a.windows@.dom().contains(wid) <==> saved_under(m, wid) is Some
    &&& forall|wid: WindowId| #[trigger]
        a.windows@.dom().contains(wid) ==> identifies(m, wid, a.windows@[wid])
    &&& forall|space: SpaceId| #[trigger]
        a.spaces@.dom().contains(space) <==> recorded_display(m, space) is Some
    &&& forall|space: SpaceId| #[trigger]
        a.spaces@.dom().contains(space) ==> recorded_as(m, space, a.spaces@[space])
    &&& a.topmost@ == m.world.topmost_windows
}

/// `identity` is the durable identity of a space on a recorded display.
pub open spec fn recorded_as(m: ReactorModel, space: SpaceId, identity: (String, u32)) -> bool {
    &&& recorded_display(m, space) matches Some(uuid) && identity.0@ == uuid@
    &&& identity.1 == ordinal(m.world.screens, identity.0@, space)
}

/// `s` is `base` with the current arrangement in place.
pub open spec fn is_merged(m: ReactorModel, base: Snapshot, s: Snapshot) -> bool {
    let key = fingerprint(m.world.screens);
    &&& s.version == base.version
    &&& s.arrangements@.dom().contains(key)
    &&& is_arrangement(m, s.arrangements@[key])
    &&& s.arrangements@ == base.arrangements@.insert(key, s.arrangements@[key])
}

/// What was loaded is well formed.
pub open spec fn loaded_wf(loaded: Loaded) -> bool {
    loaded matches Loaded::Parsed(s) ==> s.wf()
}

/// The snapshot that a file holds, where it holds one of this version.
pub open spec fn is_base(loaded: Loaded, base: Snapshot) -> bool {
    match loaded {
        Loaded::Parsed(parsed) if parsed.version == SNAPSHOT_VERSION => base == parsed,
        _ => base.is_fresh(),
    }
}

/// `f` is the current arrangement, under the current displays.
pub open spec fn is_current(m: ReactorModel, f: DueSave) -> bool {
    f.fingerprint@ == fingerprint(m.world.screens) && is_arrangement(m, f.arrangement)
}

/// `s` is `base` with an arrangement put in place.
pub open spec fn puts(f: DueSave, base: Snapshot, s: Snapshot) -> bool {
    s.version == base.version && s.arrangements@ == base.arrangements@.insert(
        f.fingerprint@,
        f.arrangement,
    )
}

/// `s` is what a save of `f` writes over a file in which `loaded` was found.
pub open spec fn is_write_of(f: DueSave, loaded: Loaded, s: Snapshot) -> bool {
    exists|base: Snapshot| is_base(loaded, base) && #[trigger] puts(f, base, s)
}

/// `m` with the save that came due first taken out, if there is one.
pub open spec fn without_first_due_save(m: ReactorModel) -> ReactorModel {
    if m.persistence.due_saves.len() > 0 {
        ReactorModel {
            persistence: PersistenceModel {
                due_saves: m.persistence.due_saves.remove(0),
                ..m.persistence
            },
            ..m
        }
    } else {
        m
    }
}

/// `s` is what is to be written over a file in which `loaded` was found.
pub open spec fn is_update(m: ReactorModel, loaded: Loaded, s: Snapshot) -> bool {
    exists|base: Snapshot| is_base(loaded, base) && #[trigger] is_merged(m, base, s)
}

impl Reactor {
    /// Turn on layout persistence: save to `path`, and hold what was loaded from
    /// there for activation.
    pub fn enable_persistence(&mut self, path: String, loaded: Loaded)
        requires
            old(self).wf(),
            loaded_wf(loaded),
        ensures
            final(self).wf(),
            final(self)@.persistence.pending_restore matches Some(base) && is_base(loaded, base),
            final(self)@ == (ReactorModel {
                persistence: PersistenceModel {
                    restore_path: Some(path),
                    pending_restore: final(self)@.persistence.pending_restore,
                    ..old(self)@.persistence
                },
                ..old(self)@
            }),
    {
        let snapshot = Snapshot::load_or_default(loaded);
        proof {
            lemma_fresh_wf(snapshot);
        }
        self.persistence.restore_path = Some(path);
        self.persistence.pending_restore = Some(snapshot);
    }

    /// The key of the current arrangement.
    pub fn current_fingerprint(&self) -> (r: String)
        ensures
            r@ == fingerprint(self@.world.screens),
    {
        let ghost screens = self@.world.screens;
        let mut uuids: Vec<String> = Vec::new();
        let mut i: usize = 0;
        assert(texts_of(uuids@) =~= display_uuids(screens, 0));
        while i < self.world.screens.len()
            invariant
                screens == self@.world.screens,
                i <= screens.len(),
                texts_of(uuids@) == display_uuids(screens, i as int),
            decreases screens.len() - i,
        {
            let uuid = &self.world.screens[i].display_uuid;
            if !uuid.as_str().is_empty() {
                insert_sorted(&mut uuids, uuid.clone());
            }
            i += 1;
        }
        proof {
            reveal_strlit("+");
            assert("+"@ =~= seq!['+']);
        }
        join(&uuids, "+")
    }

    /// A space's place among those that its display shows.
    pub fn space_ordinal(&self, space: SpaceId, uuid: &String) -> (r: u32)
        ensures
            r == ordinal(self@.world.screens, uuid@, space),
    {
        let ghost screens = self@.world.screens;
        let mut found = false;
        let mut lower: usize = 0;
        let mut i: usize = 0;
        while i < self.world.screens.len()
            invariant
                screens == self@.world.screens,
                i <= screens.len(),
                lower <= i,
                lower == lower_spaces(screens, uuid@, space, i as int),
                found <==> exists|k: int|
                    #![trigger screens[k]]
                    0 <= k < i && screens[k].display_uuid@ == uuid@ && screens[k].space == Some(
                        space,
                    ),
            decreases screens.len() - i,
        {
            if self.world.screens[i].display_uuid == *uuid {
                if let Some(shown) = self.world.screens[i].space {
                    if shown == space {
                        found = true;
                        assert(screens[i as int].space == Some(space));
                    }
                    if shown.get() < space.get() {
                        lower += 1;
                    }
                }
            }
            i += 1;
        }
        if found {
            #[verifier::truncate]
            (lower as u32)
        } else {
            0
        }
    }

    /// The durable identity of a known window with a server id.
    fn window_identity(&self, wid: WindowId, state: &WindowState, server_id: WindowServerId) -> (r:
        WindowIdentity)
        requires
            self.wf(),
            lookup(self@.world.windows, wid) == Some(*state),
            state.sys_id == Some(server_id),
        ensures
            identifies(self@, wid, r),
    {
        let own = match &state.bundle_id {
            Some(bundle_id) => Some(bundle_id.clone()),
            None => match self.world.apps.get(&wid.pid) {
                Some(app) => match &app.bundle_id {
                    Some(bundle_id) => Some(bundle_id.clone()),
                    None => None,
                },
                None => None,
            },
        };
        let bundle_id = match own {
            Some(bundle_id) => bundle_id,
            None => String::new(),
        };
        let ax_role = match &state.ax_role {
            Some(role) => role.clone(),
            None => String::new(),
        };
        WindowIdentity {
            server_id,
            bundle_id,
            title: state.title.clone(),
            ax_role,
            frame: state.frame_monotonic,
        }
    }

    /// The identities of the windows in the engine, those that can be saved.
    fn window_identities(&self) -> (windows: VecMap<WindowId, WindowIdentity>)
        requires
            self.wf(),
        ensures
            windows.wf(),
            forall|wid: WindowId| #[trigger]
                windows@.dom().contains(wid) <==> saved_under(self@, wid) is Some,
            forall|wid: WindowId| #[trigger]
                windows@.dom().contains(wid) ==> identifies(self@, wid, windows@[wid]),
    {
        let ghost m = self@;
        let ghost slots = m.engine.placements;
        let ids = self.layout_engine.all_window_ids();
        let mut windows: VecMap<WindowId, WindowIdentity> = VecMap::new();
        let mut i: usize = 0;
        while i < ids.len()
            invariant
                self.wf(),
                m == self@,
                slots == m.engine.placements,
                i <= ids@.len(),
                ids@.len() == slots.len(),
                forall|j: int| 0 <= j < ids@.len() ==> (#[trigger] ids@[j]) == slots[j].0,
                windows.wf(),
                forall|wid: WindowId| #[trigger]
                    windows@.dom().contains(wid) <==> (exists|j: int|
                        0 <= j < i && #[trigger] ids@[j] == wid) && saved_under(m, wid) is Some,
                forall|wid: WindowId| #[trigger]
                    windows@.dom().contains(wid) ==> identifies(m, wid, windows@[wid]),
            decreases ids@.len() - i,
        {
            let wid = ids[i];
            let ghost had = windows@;
            proof {
                assert(holds_key(slots, wid, i as int));
                assert(m.engine.slot(wid) is Some);
            }
            if let Some(state) = self.world.windows.get(&wid) {
                if let Some(server_id) = state.sys_id {
                    let identity = self.window_identity(wid, state, server_id);
                    windows.insert(wid, identity);
                }
            }
            proof {
                assert forall|w: WindowId| #[trigger]
                    windows@.dom().contains(w) <==> (exists|j: int|
                        0 <= j < i + 1 && #[trigger] ids@[j] == w) && saved_under(m, w) is Some by {
                    if had.dom().contains(w) {
                        let j = choose|j: int| 0 <= j < i && #[trigger] ids@[j] == w;
                        assert(0 <= j < i + 1 && ids@[j] == w);
                    }
                    if w == wid {
                        assert(ids@[i as int] == w);
                    }
                    if exists|j: int| 0 <= j < i + 1 && #[trigger] ids@[j] == w {
                        let j = choose|j: int| 0 <= j < i + 1 && #[trigger] ids@[j] == w;
                        if j < i && saved_under(m, w) is Some {
                            assert(had.dom().contains(w));
                        }
                    }
                }
            }
            i += 1;
        }
        proof {
            assert forall|wid: WindowId| #[trigger]
                windows@.dom().contains(wid) <==> saved_under(m, wid) is Some by {
                if saved_under(m, wid) is Some {
                    let j = index_of_key(slots, wid);
                    assert(holds_key(slots, wid, j));
                    assert(ids@[j] == wid);
                }
            }
        }
        windows
    }

    /// The identities of the spaces in the engine, those with a display.
    fn space_identities(&self) -> (spaces: VecMap<SpaceId, (String, u32)>)
        requires
            self.wf(),
        ensures
            spaces.wf(),
            forall|space: SpaceId| #[trigger]
                spaces@.dom().contains(space) <==> recorded_display(self@, space) is Some,
            forall|space: SpaceId| #[trigger]
                spaces@.dom().contains(space) ==> recorded_as(self@, space, spaces@[space]),
    {
        let ghost m = self@;
        let ghost displays = m.engine.displays;
        let mut spaces: VecMap<SpaceId, (String, u32)> = VecMap::new();
        let mut i: usize = 0;
        while i < self.layout_engine.displays.entries.len()
            invariant
                self.wf(),
                m == self@,
                displays == m.engine.displays,
                i <= displays.len(),
                spaces.wf(),
                forall|space: SpaceId| #[trigger]
                    spaces@.dom().contains(space) <==> (exists|j: int|
                        0 <= j < i && (#[trigger] displays[j]).0 == space) && recorded_display(
                        m,
                        space,
                    ) is Some,
                forall|space: SpaceId| #[trigger]
                    spaces@.dom().contains(space) ==> recorded_as(m, space, spaces@[space]),
            decreases displays.len() - i,
        {
            let space = self.layout_engine.displays.entries[i].0;
            let ghost had = spaces@;
            proof {
                lemma_entry(displays, i as int);
                assert(holds_key(displays, space, i as int));
            }
            let uuid = match &self.layout_engine.displays.entries[i].1 {
                Some(uuid) => Some(uuid.clone()),
                None => self.display_uuid_for_space(space),
            };
            assert(uuid == recorded_display(m, space));
            if let Some(uuid) = uuid {
                let place: u32 = self.space_ordinal(space, &uuid);
                spaces.insert(space, (uuid, place));
            }
            proof {
                assert forall|q: SpaceId| #[trigger]
                    spaces@.dom().contains(q) <==> (exists|j: int|
                        0 <= j < i + 1 && (#[trigger] displays[j]).0 == q) && recorded_display(
                        m,
                        q,
                    ) is Some by {
                    if had.dom().contains(q) {
                        let j = choose|j: int| 0 <= j < i && (#[trigger] displays[j]).0 == q;
                        assert(0 <= j < i + 1 && displays[j].0 == q);
                    }
                    if q == space {
                        assert(displays[i as int].0 == q);
                    }
                    if exists|j: int| 0 <= j < i + 1 && (#[trigger] displays[j]).0 == q {
                        let j = choose|j: int| 0 <= j < i + 1 && (#[trigger] displays[j]).0 == q;
                        if j < i && recorded_display(m, q) is Some {
                            assert(had.dom().contains(q));
                        }
                    }
                }
            }
            i += 1;
        }
        proof {
            assert forall|space: SpaceId| #[trigger]
                spaces@.dom().contains(space) <==> recorded_display(m, space) is Some by {
                if recorded_display(m, space) is Some {
                    let j = index_of_key(displays, space);
                    assert(holds_key(displays, space, j));
                    assert(displays[j].0 == space);
                }
            }
        }
        spaces
    }

    /// Join the live engine with the identities known here into one arrangement.
    pub fn assemble_arrangement(&self) -> (a: Arrangement)
        requires
            self.wf(),
        ensures
            is_arrangement(self@, a),
    {
        let engine = self.layout_engine.duplicate();
        let windows = self.window_identities();
        let spaces = self.space_identities();
        let mut topmost: Vec<WindowId> = Vec::new();
        let mut i: usize = 0;
        while i < self.world.topmost_windows.len()
            invariant
                i <= self.world.topmost_windows@.len(),
                topmost@ =~= self.world.topmost_windows@.take(i as int),
            decreases self.world.topmost_windows@.len() - i,
        {
            topmost.push(self.world.topmost_windows[i]);
            i += 1;
        }
        assert(self.world.topmost_windows@.take(i as int) =~= self.world.topmost_windows@);
        Arrangement { engine, spaces, windows, topmost }
    }

    /// The current arrangement, under the current displays.
    fn current_save(&self) -> (f: DueSave)
        requires
            self.wf(),
        ensures
            is_current(self@, f),
    {
        DueSave {
            fingerprint: self.current_fingerprint(),
            arrangement: self.assemble_arrangement(),
        }
    }

    /// The snapshot to write over a file in which `loaded` was found: all other
    /// arrangements are kept, the current one is replaced.
    fn merged_snapshot(&self, loaded: Loaded) -> (s: Snapshot)
        requires
            self.wf(),
            loaded_wf(loaded),
        ensures
            s.wf(),
            s.version == SNAPSHOT_VERSION,
            is_update(self@, loaded, s),
    {
        let f = self.current_save();
        let s = put_arrangement(f, loaded);
        proof {
            let base = choose|base: Snapshot| is_base(loaded, base) && #[trigger] puts(f, base, s);
            law_a_save_holds_what_the_tick_saw(self@, f, base, s);
            assert(is_merged(self@, base, s));
        }
        s
    }

    /// What the save that came due first writes, and where: the arrangement as it
    /// was when it came due. Without one, the arrangement as it is now; nothing
    /// where persistence is off.
    pub fn flush_snapshot(&mut self, loaded: Loaded) -> (r: Option<(String, Snapshot)>)
        requires
            old(self).wf(),
            loaded_wf(loaded),
        ensures
            final(self).wf(),
            match (r, old(self)@.persistence.restore_path) {
                (Some((path, s)), Some(p)) => {
                    &&& path == p
                    &&& s.wf()
                    &&& s.version == SNAPSHOT_VERSION
                    &&& if old(self)@.persistence.due_saves.len() > 0 {
                        is_write_of(old(self)@.persistence.due_saves[0], loaded, s)
                    } else {
                        is_update(old(self)@, loaded, s)
                    }
                    &&& final(self)@ == without_first_due_save(old(self)@)
                },
                (None, None) => final(self)@ == old(self)@,
                _ => false,
            },
    {
        let path = match &self.persistence.restore_path {
            Some(path) => path.clone(),
            None => return None,
        };
        let snapshot = if self.persistence.due_saves.len() > 0 {
            let due_save = self.persistence.due_saves.remove(0);
            put_arrangement(due_save, loaded)
        } else {
            self.merged_snapshot(loaded)
        };
        Some((path, snapshot))
    }

    /// What a save on exit writes, and where; `restore_file` where no path is
    /// set.
    pub fn save_snapshot_now(&self, restore_file: String, loaded: Loaded) -> (r: (String, Snapshot))
        requires
            self.wf(),
            loaded_wf(loaded),
        ensures
            r.0 == (match self@.persistence.restore_path {
                Some(path) => path,
                None => restore_file,
            }),
            r.1.wf(),
            r.1.version == SNAPSHOT_VERSION,
            is_update(self@, loaded, r.1),
    {
        let path = match &self.persistence.restore_path {
            Some(path) => path.clone(),
            None => restore_file,
        };
        (path, self.merged_snapshot(loaded))
    }

    /// A snapshot of the current arrangement alone.
    pub fn assemble_single_snapshot(&self) -> (s: Snapshot)
        requires
            self.wf(),
        ensures
            s.wf(),
            s.version == SNAPSHOT_VERSION,
            s.arrangements@.dom() =~= set![fingerprint(self@.world.screens)],
            is_arrangement(self@, s.arrangements@[fingerprint(self@.world.screens)]),
    {
        let mut snapshot = Snapshot::default();
        let key = self.current_fingerprint();
        let arrangement = self.assemble_arrangement();
        snapshot.insert_arrangement(key, arrangement);
        snapshot
    }
}

/// The snapshot to write over a file in which `loaded` was found: all other
/// arrangements are kept, and `f` is put in place.
fn put_arrangement(f: DueSave, loaded: Loaded) -> (s: Snapshot)
    requires
        f.arrangement.wf(),
        loaded_wf(loaded),
    ensures
        s.wf(),
        s.version == SNAPSHOT_VERSION,
        is_write_of(f, loaded, s),
{
    let mut snapshot = Snapshot::load_or_default(loaded);
    let ghost base = snapshot;
    proof {
        lemma_fresh_wf(snapshot);
    }
    snapshot.insert_arrangement(f.fingerprint, f.arrangement);
    assert(puts(f, base, snapshot));
    snapshot
}

/// A fresh snapshot is well formed.
proof fn lemma_fresh_wf(s: Snapshot)
    ensures
        s.is_fresh() ==> s.wf(),
{
}

// ---------------------------------------------------------------------------
// Restoring
// ---------------------------------------------------------------------------

/// `m` with a restored arrangement's sidecars staged. Unclaimed windows are given
/// up after a while, where there are any.
pub open spec fn with_restore_state(
    m: ReactorModel,
    adoption: Seq<(WindowServerId, AdoptionEntry)>,
    saved_spaces: Seq<(SpaceId, (String, u32))>,
) -> ReactorModel {
    ReactorModel {
        persistence: PersistenceModel {
            adoption,
            saved_spaces,
            settle_deadline: if adoption.len() > 0 {
                Some(
                    Instant {
                        nanos: (m.world.clock.nanos + ADOPTION_SETTLE_TIMEOUT_NS) as u64,
                    },
                )
            } else {
                m.persistence.settle_deadline
            },
            ..m.persistence
        },
        ..m
    }
}

/// `m` once the restore was attempted: it is, once, as soon as there is a
/// snapshot and a screen. The arrangement of the connected displays is lifted
/// into the engine, where there is one.
pub open spec fn after_activation(m: ReactorModel) -> ReactorModel {
    if m.persistence.activated || m.world.screens.len() == 0 {
        m
    } else {
        match m.persistence.pending_restore {
            None => m,
            Some(snapshot) => {
                let tried = ReactorModel {
                    persistence: PersistenceModel {
                        activated: true,
                        pending_restore: None,
                        ..m.persistence
                    },
                    ..m
                };
                match lookup(snapshot.arrangements@, fingerprint(m.world.screens)) {
                    None => tried,
                    Some(a) => with_restore_state(
                        sent(
                            ReactorModel { engine: a.engine@, ..tried },
                            Effect::RehydrateEngine,
                        ),
                        staged(a.windows.entries@, Seq::empty()),
                        a.spaces.entries@,
                    ),
                }
            },
        }
    }
}

/// The first saved space, from index `from` on, with an identity.
pub open spec fn saved_space_with(
    saved: Seq<(SpaceId, (String, u32))>,
    uuid: Seq<char>,
    place: u32,
    from: int,
) -> Option<SpaceId>
    decreases saved.len() - from,
{
    if from >= saved.len() {
        None
    } else if saved[from].1.0@ == uuid && saved[from].1.1 == place {
        Some(saved[from].0)
    } else {
        saved_space_with(saved, uuid, place, from + 1)
    }
}

/// `m` with the saved state of one screen's space moved to the space it shows
/// now. The saved identity is used up.
pub open spec fn after_remap_of(m: ReactorModel, screen: ScreenInfo) -> ReactorModel {
    match screen.space {
        Some(live) if screen.display_uuid@.len() > 0 => {
            let place = ordinal(m.world.screens, screen.display_uuid@, live);
            match saved_space_with(
                m.persistence.saved_spaces,
                screen.display_uuid@,
                place,
                0,
            ) {
                None => m,
                Some(saved) => ReactorModel {
                    engine: if saved != live {
                        engine_remapped(m.engine, saved, live)
                    } else {
                        m.engine
                    },
                    persistence: PersistenceModel {
                        saved_spaces: without_key(m.persistence.saved_spaces, saved),
                        ..m.persistence
                    },
                    ..m
                },
            }
        },
        _ => m,
    }
}

/// `m` with the saved state of the first `count` screens moved.
pub open spec fn after_remap(m: ReactorModel, count: int) -> ReactorModel
    decreases count,
{
    if count <= 0 {
        m
    } else {
        after_remap_of(after_remap(m, count - 1), m.world.screens[count - 1])
    }
}

/// Why a window could not be assigned.
#[derive(Debug, Clone, Copy, PartialEq, Eq, Structural)]
pub enum WorkspaceError {
    AssignmentFailed,
}

/// Where a window belongs.
#[derive(Debug, Clone, Copy, PartialEq, Eq, Structural)]
pub struct AppRuleAssignment {
    pub workspace_id: VirtualWorkspaceId,
    pub floating: bool,
    pub prev_rule_decision: bool,
}

#[derive(Debug, Clone, Copy, PartialEq, Eq, Structural)]
pub enum AppRuleResult {
    Managed(AppRuleAssignment),
    Unmanaged,
}

/// A match between a live window and a saved one.
pub struct Adoption {
    pub server_id: WindowServerId,
    pub old_wid: WindowId,
    pub workspace_id: VirtualWorkspaceId,
}

/// The saved window that a live one is: an entry waits for its server id, and
/// the saved slot is on the space it was found on.
pub open spec fn adoption_of(m: ReactorModel, wid: WindowId, space: SpaceId) -> Option<Adoption> {
    match lookup(m.world.windows, wid) {
        Some(state) => match state.sys_id {
            Some(server_id) => match awaiting(m.persistence.adoption, server_id) {
                Some(old_wid) => match m.engine.workspace_on(space, old_wid) {
                    Some(workspace_id) => Some(Adoption { server_id, old_wid, workspace_id }),
                    None => None,
                },
                None => None,
            },
            None => None,
        },
        None => None,
    }
}

/// `m` once a live window took over a saved one's slot.
pub open spec fn after_adoption(m: ReactorModel, wid: WindowId, a: Adoption) -> ReactorModel {
    marked_dirty(
        ReactorModel {
            engine: if a.old_wid != wid {
                engine_rewritten(m.engine, a.old_wid, wid)
            } else {
                m.engine
            },
            persistence: PersistenceModel {
                adoption: without_key(m.persistence.adoption, a.server_id),
                ..m.persistence
            },
            ..m
        },
    )
}

/// The engine without the first `count` of `windows`.
pub open spec fn engine_without(e: EngineModel, windows: Seq<WindowId>, count: int) -> EngineModel
    decreases count,
{
    if count <= 0 {
        e
    } else {
        engine_pruned(engine_without(e, windows, count - 1), windows[count - 1])
    }
}

/// `m` without windows that did not come back. The layout runs again and a save
/// is due, where there was one.
pub open spec fn after_eviction(m: ReactorModel, stale: Seq<WindowId>) -> ReactorModel {
    if stale.len() == 0 {
        m
    } else {
        sent(
            marked_dirty(
                ReactorModel {
                    engine: engine_without(m.engine, stale, stale.len() as int),
                    persistence: PersistenceModel {
                        settle_deadline: if m.persistence.adoption.len() == 0 {
                            None
                        } else {
                            m.persistence.settle_deadline
                        },
                        ..m.persistence
                    },
                    ..m
                },
            ),
            Effect::UpdateLayout { is_resize: false, is_workspace_switch: false },
        )
    }
}

/// `m` with another list of windows awaited.
pub open spec fn with_adoption(
    m: ReactorModel,
    adoption: Seq<(WindowServerId, AdoptionEntry)>,
) -> ReactorModel {
    ReactorModel { persistence: PersistenceModel { adoption, ..m.persistence }, ..m }
}

/// `m` after the windows of one application were found: those of its saved ones
/// that were not are dropped.
pub open spec fn after_app_prune(m: ReactorModel, pid: pid_t) -> ReactorModel {
    let table = m.persistence.adoption;
    after_eviction(
        with_adoption(m, entries_of_others(table, pid, table.len() as int)),
        ids_of(table, pid, table.len() as int),
    )
}

/// `m` once the wait is over: every saved window that was not found is dropped.
pub open spec fn after_settling(m: ReactorModel) -> ReactorModel {
    after_eviction(
        ReactorModel {
            persistence: PersistenceModel {
                adoption: Seq::empty(),
                settle_deadline: None,
                ..m.persistence
            },
            ..m
        },
        all_ids(m.persistence.adoption),
    )
}

/// A tick at `m` has a save to ask for.
pub open spec fn flushes(m: ReactorModel) -> bool {
    m.persistence.restore_path is Some && due(m.persistence.save_deadline, m.world.clock)
}

/// `m` after a tick: a save that is due is asked for, with what it is to write in
/// `taken`, and then a wait that is over is ended.
pub open spec fn after_tick(m: ReactorModel, taken: DueSave) -> ReactorModel {
    if m.persistence.restore_path is None {
        m
    } else {
        let polled = ReactorModel {
            persistence: PersistenceModel {
                save_deadline: deadline_after_poll(m.persistence.save_deadline, m.world.clock),
                ..m.persistence
            },
            ..m
        };
        let flushed = if flushes(m) {
            sent(
                ReactorModel {
                    persistence: PersistenceModel {
                        due_saves: m.persistence.due_saves.push(taken),
                        ..polled.persistence
                    },
                    ..polled
                },
                Effect::FlushSnapshot,
            )
        } else {
            polled
        };
        match m.persistence.settle_deadline {
            Some(deadline) if m.world.clock.nanos >= deadline.nanos => after_settling(flushed),
            _ => flushed,
        }
    }
}

impl Default for PersistenceState {
    fn default() -> (s: PersistenceState)
        ensures
            s.wf(),
            s@ == (PersistenceModel {
                restore_path: None,
                pending_restore: None,
                activated: false,
                save_deadline: None,
                adoption: Seq::empty(),
                saved_spaces: Seq::empty(),
                settle_deadline: None,
                due_saves: Seq::empty(),
            }),
    {
        PersistenceState {
            restore_path: None,
            pending_restore: None,
            activated: false,
            debouncer: Debouncer::new(Duration::from_nanos(SAVE_DEBOUNCE_NS)),
            adoption: AdoptionTable::new(),
            saved_spaces: VecMap::new(),
            settle_deadline: None,
            due_saves: Vec::new(),
        }
    }
}

impl Reactor {
    /// Ask for a save that is due, and end a wait for windows that is over. What
    /// is saved is taken first, so windows given up in the same tick are still in
    /// it.
    pub fn persistence_tick(&mut self)
        requires
            old(self).wf(),
        ensures
            final(self).wf(),
            final(self)@ == after_tick(old(self)@, final(self)@.persistence.due_saves.last()),
            flushes(old(self)@) ==> is_current(
                old(self)@,
                final(self)@.persistence.due_saves.last(),
            ),
    {
        if self.persistence.restore_path.is_none() {
            return ;
        }
        let now = self.world.clock;
        if self.persistence.debouncer.poll(now) {
            let taken = self.current_save();
            self.persistence.due_saves.push(taken);
            self.outbox.push(Effect::FlushSnapshot);
        }
        if let Some(deadline) = self.persistence.settle_deadline {
            if now.nanos >= deadline.nanos {
                self.prune_settled_adoptions();
            }
        }
    }

    /// On the first screens seen, pick the arrangement of the connected displays,
    /// lift it into the engine, and stage adoption. Runs once; without such an
    /// arrangement the layout starts fresh.
    pub fn activate_restore_if_ready(&mut self)
        requires
            old(self).wf(),
        ensures
            final(self).wf(),
            final(self)@ == after_activation(old(self)@),
    {
        if self.persistence.activated || self.world.screens.len() == 0 {
            return ;
        }
        if let Some(mut snapshot) = self.persistence.pending_restore.take() {
            self.persistence.activated = true;
            let key = self.current_fingerprint();
            proof {
                if snapshot.arrangements@.dom().contains(key@) {
                    let i = lemma_key(snapshot.arrangements.entries@, key@);
                    assert(snapshot.arrangements.entries@[i].1.wf());
                }
            }
            if let Some(arrangement) = snapshot.arrangements.remove(&key) {
                self.layout_engine = arrangement.engine;
                self.outbox.push(Effect::RehydrateEngine);
                let adoption = AdoptionTable::from_windows(arrangement.windows);
                self.install_restore_state(adoption, arrangement.spaces);
            }
        }
    }

    /// Stage a restored arrangement's sidecars for adoption and space remap.
    pub fn install_restore_state(
        &mut self,
        adoption: AdoptionTable,
        saved_spaces: VecMap<SpaceId, (String, u32)>,
    )
        requires
            old(self).wf(),
            adoption.wf(),
            saved_spaces.wf(),
        ensures
            final(self).wf(),
            final(self)@ == with_restore_state(old(self)@, adoption@, saved_spaces.entries@),
    {
        let arm_settle = !adoption.is_empty();
        self.persistence.adoption = adoption;
        self.persistence.saved_spaces = saved_spaces;
        if arm_settle {
            self.persistence.settle_deadline = Some(
                self.world.clock + Duration::from_nanos(ADOPTION_SETTLE_TIMEOUT_NS),
            );
        }
    }

    /// The saved space with an identity.
    fn find_saved_space(&self, uuid: &String, place: u32) -> (r: Option<SpaceId>)
        ensures
            r == saved_space_with(self@.persistence.saved_spaces, uuid@, place, 0),
    {
        let mut i: usize = 0;
        while i < self.persistence.saved_spaces.entries.len()
            invariant
                i <= self@.persistence.saved_spaces.len(),
                saved_space_with(self@.persistence.saved_spaces, uuid@, place, 0)
                    == saved_space_with(
                    self@.persistence.saved_spaces,
                    uuid@,
                    place,
                    i as int,
                ),
            decreases self@.persistence.saved_spaces.len() - i,
        {
            let entry = &self.persistence.saved_spaces.entries[i];
            if entry.1.0 == *uuid && entry.1.1 == place {
                return Some(entry.0);
            }
            i += 1;
        }
        None
    }

    /// Resolve saved space identities to the spaces shown now and move engine
    /// state there. A space shown under its saved id stays. Each identity is used
    /// up, so that later events do not remap twice.
    pub fn remap_restored_spaces(&mut self)
        requires
            old(self).wf(),
        ensures
            final(self).wf(),
            final(self)@ == after_remap(old(self)@, old(self)@.world.screens.len() as int),
    {
        let ghost before = self@;
        let mut i: usize = 0;
        while i < self.world.screens.len()
            invariant
                self.wf(),
                before == old(self)@,
                i <= before.world.screens.len(),
                self@.world == before.world,
                self@ == after_remap(before, i as int),
            decreases before.world.screens.len() - i,
        {
            let ghost screen = before.world.screens[i as int];
            if let Some(live) = self.world.screens[i].space {
                if !self.world.screens[i].display_uuid.as_str().is_empty() {
                    let uuid = self.world.screens[i].display_uuid.clone();
                    let place: u32 = self.space_ordinal(live, &uuid);
                    if let Some(saved) = self.find_saved_space(&uuid, place) {
                        self.persistence.saved_spaces.remove(&saved);
                        if saved != live {
                            self.layout_engine.remap_space(saved, live);
                        }
                    }
                }
            }
            assert(self@ =~= after_remap_of(after_remap(before, i as int), screen));
            i += 1;
        }
    }

    /// Exact adoption, asked before application rules when a window is found. If
    /// its server id matches an entry whose slot is on `space`, the live window
    /// takes that slot over and the restored assignment is returned. `None`
    /// leaves the window to normal assignment.
    pub fn try_adopt_window(&mut self, wid: WindowId, space: SpaceId) -> (r: Option<
        Result<AppRuleResult, WorkspaceError>,
    >)
        requires
            old(self).wf(),
        ensures
            final(self).wf(),
            match adoption_of(old(self)@, wid, space) {
                Some(a) => {
                    &&& final(self)@ == after_adoption(old(self)@, wid, a)
                    &&& r == Some::<Result<AppRuleResult, WorkspaceError>>(
                        Ok(
                            AppRuleResult::Managed(
                                AppRuleAssignment {
                                    workspace_id: a.workspace_id,
                                    floating: old(self)@.engine.floating.contains(a.old_wid),
                                    prev_rule_decision: false,
                                },
                            ),
                        ),
                    )
                },
                None => final(self)@ == old(self)@ && r is None,
            },
    {
        let server_id = match self.world.windows.get(&wid) {
            Some(state) => match state.sys_id {
                Some(server_id) => server_id,
                None => return None,
            },
            None => return None,
        };
        let old_wid = match self.persistence.adoption.peek(server_id) {
            Some(old_wid) => old_wid,
            None => return None,
        };
        let workspace_id = match self.layout_engine.workspace_for_window(space, old_wid) {
            Some(workspace_id) => workspace_id,
            None => return None,
        };
        let floating = self.layout_engine.is_window_floating(old_wid);
        self.persistence.adoption.claim(server_id);
        if old_wid != wid {
            self.layout_engine.rewrite_window_id(old_wid, wid);
        }
        self.mark_layout_dirty();
        Some(
            Ok(
                AppRuleResult::Managed(
                    AppRuleAssignment { workspace_id, floating, prev_rule_decision: false },
                ),
            ),
        )
    }

    /// After the windows of an application were found, drop those of its saved
    /// ones that were not: they no longer exist.
    pub fn prune_app_adoptions(&mut self, pid: pid_t)
        requires
            old(self).wf(),
        ensures
            final(self).wf(),
            final(self)@ == after_app_prune(old(self)@, pid),
    {
        let stale = self.persistence.adoption.prune_pid(pid);
        self.evict_pruned_windows(&stale);
    }

    /// Drop every saved window that was not found.
    fn prune_settled_adoptions(&mut self)
        requires
            old(self).wf(),
        ensures
            final(self).wf(),
            final(self)@ == after_settling(old(self)@),
    {
        self.persistence.settle_deadline = None;
        let stale = self.persistence.adoption.drain_all();
        self.evict_pruned_windows(&stale);
    }

    fn evict_pruned_windows(&mut self, stale: &Vec<WindowId>)
        requires
            old(self).wf(),
        ensures
            final(self).wf(),
            final(self)@ == after_eviction(old(self)@, stale@),
    {
        if stale.len() == 0 {
            return ;
        }
        let mut i: usize = 0;
        while i < stale.len()
            invariant
                self.wf(),
                i <= stale@.len(),
                self@ == (ReactorModel {
                    engine: engine_without(old(self)@.engine, stale@, i as int),
                    ..old(self)@
                }),
            decreases stale@.len() - i,
        {
            self.layout_engine.prune_window(stale[i]);
            i += 1;
        }
        if self.persistence.adoption.is_empty() {
            self.persistence.settle_deadline = None;
        }
        self.mark_layout_dirty();
        self.outbox.push(Effect::UpdateLayout { is_resize: false, is_workspace_switch: false });
    }
}

// ---------------------------------------------------------------------------
// Laws
// ---------------------------------------------------------------------------

/// A screen of a display with this uuid is connected.
pub open spec fn connected(screens: Seq<ScreenInfo>, uuid: Seq<char>) -> bool {
    exists|i: int|
        #![trigger screens[i]]
        0 <= i < screens.len() && screens[i].display_uuid@ == uuid
}

pub proof fn lemma_display_uuids(screens: Seq<ScreenInfo>, count: int)
    requires
        0 <= count <= screens.len(),
    ensures
        strictly_sorted(display_uuids(screens, count)),
        forall|u: Seq<char>| #[trigger]
            display_uuids(screens, count).contains(u) <==> u.len() > 0 && exists|i: int|
                #![trigger screens[i]]
                0 <= i < count && screens[i].display_uuid@ == u,
    decreases count,
{
    if count > 0 {
        lemma_display_uuids(screens, count - 1);
        let before = display_uuids(screens, count - 1);
        let own = screens[count - 1].display_uuid@;
        lemma_with_text(before, own);
        assert forall|u: Seq<char>| #[trigger]
            display_uuids(screens, count).contains(u) <==> u.len() > 0 && exists|i: int|
                #![trigger screens[i]]
                0 <= i < count && screens[i].display_uuid@ == u by {
            if before.contains(u) {
                let i = choose|i: int|
                    #![trigger screens[i]]
                    0 <= i < count - 1 && screens[i].display_uuid@ == u;
                assert(0 <= i < count && screens[i].display_uuid@ == u);
            }
            if u == own {
                assert(0 <= count - 1 < count && screens[count - 1].display_uuid@ == u);
            }
            if u.len() > 0 && exists|i: int|
                #![trigger screens[i]]
                0 <= i < count && screens[i].display_uuid@ == u {
                let i = choose|i: int|
                    #![trigger screens[i]]
                    0 <= i < count && screens[i].display_uuid@ == u;
                if i < count - 1 {
                    assert(before.contains(u));
                }
            }
        }
    } else {
        assert(display_uuids(screens, count) =~= Seq::empty());
    }
}

/// The fingerprint depends on which displays are connected, not on the order in
/// which their screens are listed, nor on how often.
pub proof fn law_fingerprint_depends_on_the_set_of_displays(
    a: Seq<ScreenInfo>,
    b: Seq<ScreenInfo>,
)
    requires
        forall|u: Seq<char>| u.len() > 0 ==> (#[trigger] connected(a, u) <==> connected(b, u)),
    ensures
        fingerprint(a) == fingerprint(b),
{
    let da = display_uuids(a, a.len() as int);
    let db = display_uuids(b, b.len() as int);
    lemma_display_uuids(a, a.len() as int);
    lemma_display_uuids(b, b.len() as int);
    assert forall|u: Seq<char>| #[trigger] da.contains(u) <==> db.contains(u) by {
        if u.len() > 0 {
            assert(connected(a, u) <==> connected(b, u));
            assert(da.contains(u) <==> connected(a, u));
            assert(db.contains(u) <==> connected(b, u));
        }
    }
    lemma_sorted_unique(da, db);
}

/// Without a restore path nothing is ever scheduled or written.
pub proof fn law_disabled_persistence_does_nothing(
    m: ReactorModel,
    taken: DueSave,
)
    requires
        m.persistence.restore_path is None,
    ensures
        marked_dirty(m) == m,
        after_tick(m, taken) == m,
{
}

/// A save is asked for by the first tick a second or more after the last change,
/// and by no tick before.
pub proof fn law_saves_are_debounced(
    m: ReactorModel,
    later: ReactorModel,
    taken: DueSave,
)
    requires
        m.persistence.restore_path is Some,
        m.world.clock.nanos <= crate::actor::reactor::CLOCK_LIMIT,
        later.persistence == marked_dirty(m).persistence,
        later.persistence.settle_deadline is None,
    ensures
        after_tick(later, taken).outbox == (if later.world.clock.nanos >= m.world.clock.nanos
            + SAVE_DEBOUNCE_NS {
            later.outbox.push(Effect::FlushSnapshot)
        } else {
            later.outbox
        }),
        later.world.clock.nanos >= m.world.clock.nanos + SAVE_DEBOUNCE_NS ==> after_tick(
            later,
            taken,
        ).persistence.save_deadline is None,
{
}

/// What a save writes is the arrangement as it was in the tick that asked for it,
/// whatever has changed since; all other arrangements of the file are kept.
pub proof fn law_a_save_holds_what_the_tick_saw(
    m: ReactorModel,
    f: DueSave,
    base: Snapshot,
    s: Snapshot,
)
    requires
        is_current(m, f),
        puts(f, base, s),
    ensures
        is_merged(m, base, s),
{
}

/// A tick adds one save to those that are due where it asks for one, and none
/// otherwise; windows that it gives up change nothing in them.
pub proof fn law_a_tick_adds_what_it_asks_for(m: ReactorModel, taken: DueSave)
    ensures
        after_tick(m, taken).persistence.due_saves == (if flushes(m) {
            m.persistence.due_saves.push(taken)
        } else {
            m.persistence.due_saves
        }),
{
}

/// The restore is attempted once.
pub proof fn law_restore_runs_once(m: ReactorModel)
    ensures
        after_activation(after_activation(m)) == after_activation(m),
{
}

/// Writing an arrangement keeps those of all other display sets.
pub proof fn law_saving_keeps_other_arrangements(
    m: ReactorModel,
    base: Snapshot,
    s: Snapshot,
    key: Seq<char>,
)
    requires
        is_merged(m, base, s),
        key != fingerprint(m.world.screens),
    ensures
        lookup(s.arrangements@, key) == lookup(base.arrangements@, key),
{
}

/// A saved arrangement read back on the same displays gives the engine back as
/// it was saved.
pub proof fn law_saved_layout_is_restored(
    saved: ReactorModel,
    base: Snapshot,
    s: Snapshot,
    m: ReactorModel,
)
    requires
        is_merged(saved, base, s),
        m.persistence.pending_restore == Some(s),
        !m.persistence.activated,
        m.world.screens.len() > 0,
        fingerprint(m.world.screens) == fingerprint(saved.world.screens),
    ensures
        after_activation(m).engine == saved.engine,
{
}

/// After such a restore every window that was saved under a server id of its own
/// is awaited under it.
pub proof fn law_saved_windows_are_awaited(
    saved: ReactorModel,
    base: Snapshot,
    s: Snapshot,
    m: ReactorModel,
    wid: WindowId,
    server_id: WindowServerId,
)
    requires
        is_merged(saved, base, s),
        m.persistence.pending_restore == Some(s),
        !m.persistence.activated,
        m.world.screens.len() > 0,
        fingerprint(m.world.screens) == fingerprint(saved.world.screens),
        saved_under(saved, wid) == Some(server_id),
        forall|other: WindowId| #[trigger]
            saved_under(saved, other) == Some(server_id) ==> other == wid,
    ensures
        awaiting(after_activation(m).persistence.adoption, server_id) == Some(wid),
{
    let a = s.arrangements@[fingerprint(saved.world.screens)];
    let windows = a.windows.entries@;
    assert(a.windows@.dom().contains(wid));
    let i = lemma_key(windows, wid);
    assert(identifies(saved, wid, a.windows@[wid]));
    assert forall|j: int|
        0 <= j < windows.len() && (#[trigger] windows[j]).1.server_id == server_id implies j
        == i by {
        lemma_entry(windows, j);
        let other = windows[j].0;
        assert(a.windows@.dom().contains(other));
        assert(identifies(saved, other, a.windows@[other]));
        assert(saved_under(saved, other) == Some(server_id));
        assert(windows[j].0@ == windows[i].0@);
    }
    assert(distinct_keys(Seq::<(WindowServerId, AdoptionEntry)>::empty()));
    lemma_staged(windows, Seq::empty(), i, server_id);
}

/// The entry of a window whose server id is its own ends up in the table.
proof fn lemma_staged(
    windows: Seq<(WindowId, WindowIdentity)>,
    table: Seq<(WindowServerId, AdoptionEntry)>,
    i: int,
    server_id: WindowServerId,
)
    requires
        distinct_keys(table),
        i < windows.len(),
        i >= 0 ==> windows[i].1.server_id == server_id,
        i < 0 ==> has_key(table, server_id),
        forall|j: int|
            0 <= j < windows.len() && (#[trigger] windows[j]).1.server_id == server_id ==> j == i,
    ensures
        distinct_keys(staged(windows, table)),
        awaiting(staged(windows, table), server_id) == (if i >= 0 {
            Some(windows[i].0)
        } else {
            awaiting(table, server_id)
        }),
    decreases windows.len(),
{
    if windows.len() > 0 {
        let (old_wid, identity) = windows.last();
        let entry = AdoptionEntry { old_wid, identity };
        lemma_with_without(table, identity.server_id, entry);
        let next = with_entry(table, identity.server_id, entry);
        let rest = windows.drop_last();
        assert forall|j: int|
            0 <= j < rest.len() && (#[trigger] rest[j]).1.server_id == server_id implies j == (if i
            == rest.len() {
            -1
        } else {
            i
        }) by {
            assert(windows[j] == rest[j]);
        }
        if i == rest.len() {
            assert(entries_map(next).dom().contains(server_id));
            lemma_staged(rest, next, -1, server_id);
        } else {
            if i < 0 {
                assert(entries_map(table).dom().contains(server_id));
                assert(windows[rest.len() as int].1.server_id != server_id);
                assert(entries_map(next).dom().contains(server_id));
            } else {
                assert(rest[i] == windows[i]);
            }
            lemma_staged(rest, next, i, server_id);
        }
    }
}

/// An adopted window takes over the slot it was saved in, and nothing is left
/// under the id it was saved with.
pub proof fn law_adopted_window_inherits_its_slot(
    m: ReactorModel,
    wid: WindowId,
    space: SpaceId,
    a: Adoption,
)
    requires
        m.engine.wf(),
        adoption_of(m, wid, space) == Some(a),
    ensures
        after_adoption(m, wid, a).engine.slot(wid) == m.engine.slot(a.old_wid),
        after_adoption(m, wid, a).engine.workspace_on(space, wid) == Some(a.workspace_id),
        a.old_wid != wid ==> after_adoption(m, wid, a).engine.slot(a.old_wid) is None,
{
    if a.old_wid != wid {
        crate::layout_engine::engine::law_rewrite_inherits_the_slot(
            m.engine,
            a.old_wid,
            wid,
            a.workspace_id,
        );
    }
}

/// A window is only adopted on the space that its slot was saved on; on any other
/// it is left for that space's turn.
pub proof fn law_adoption_is_on_the_saved_space(m: ReactorModel, wid: WindowId, space: SpaceId)
    ensures
        adoption_of(m, wid, space) matches Some(a) ==> m.engine.slot(a.old_wid) matches Some(p)
            && p.space == space && p.workspace == a.workspace_id,
{
}

/// An entry is claimed once: a second window with the same server id is left to
/// normal assignment, on every space.
pub proof fn law_entries_are_claimed_once(
    m: ReactorModel,
    wid: WindowId,
    space: SpaceId,
    a: Adoption,
    other: WindowId,
    elsewhere: SpaceId,
)
    requires
        distinct_keys(m.persistence.adoption),
        adoption_of(m, wid, space) == Some(a),
        lookup(m.world.windows, other) matches Some(state) && state.sys_id == Some(a.server_id),
    ensures
        adoption_of(after_adoption(m, wid, a), other, elsewhere) is None,
{
    let table = m.persistence.adoption;
    let i = lemma_key(table, a.server_id);
    lemma_with_without(table, a.server_id, table[i].1);
}

/// Claiming one entry leaves all others waiting.
pub proof fn law_claims_leave_other_entries(
    m: ReactorModel,
    wid: WindowId,
    a: Adoption,
    server_id: WindowServerId,
)
    requires
        distinct_keys(m.persistence.adoption),
        has_key(m.persistence.adoption, a.server_id),
        server_id != a.server_id,
    ensures
        awaiting(after_adoption(m, wid, a).persistence.adoption, server_id) == awaiting(
            m.persistence.adoption,
            server_id,
        ),
{
    let table = m.persistence.adoption;
    let i = lemma_key(table, a.server_id);
    lemma_with_without(table, a.server_id, table[i].1);
}

pub proof fn lemma_engine_without(e: EngineModel, windows: Seq<WindowId>, count: int, wid: WindowId)
    requires
        e.wf(),
        0 <= count <= windows.len(),
    ensures
        engine_without(e, windows, count).wf(),
        engine_without(e, windows, count).slot(wid) == (if exists|i: int|
            0 <= i < count && #[trigger] windows[i] == wid {
            None
        } else {
            e.slot(wid)
        }),
        (exists|i: int| 0 <= i < count && #[trigger] windows[i] == wid)
            ==> !engine_without(e, windows, count).floating.contains(wid),
    decreases count,
{
    if count > 0 {
        lemma_engine_without(e, windows, count - 1, wid);
        let before = engine_without(e, windows, count - 1);
        let gone = windows[count - 1];
        if has_key(before.placements, gone) {
            crate::collections::lemma_remove(
                before.placements,
                index_of_key(before.placements, gone),
            );
        }
        if wid == gone {
            assert(0 <= count - 1 < count && windows[count - 1] == wid);
            let other = WindowId { pid: wid.pid, idx: if wid.idx == 0 { 1 } else { 0 } };
            crate::layout_engine::engine::law_prune_leaves_no_zombie(
                before,
                gone,
                other,
                VirtualWorkspaceId { raw: 0 },
            );
        } else {
            crate::layout_engine::engine::law_prune_leaves_no_zombie(
                before,
                gone,
                wid,
                VirtualWorkspaceId { raw: 0 },
            );
            if exists|i: int| 0 <= i < count && #[trigger] windows[i] == wid {
                let i = choose|i: int| 0 <= i < count && #[trigger] windows[i] == wid;
                assert(0 <= i < count - 1 && windows[i] == wid);
            }
        }
    }
}

/// Windows that did not come back leave no slot and no floating mark; every other
/// window keeps its slot.
pub proof fn law_evicted_windows_leave_no_zombie(
    m: ReactorModel,
    stale: Seq<WindowId>,
    wid: WindowId,
)
    requires
        m.engine.wf(),
    ensures
        stale.contains(wid) ==> after_eviction(m, stale).engine.slot(wid) is None
            && !after_eviction(m, stale).engine.floating.contains(wid),
        !stale.contains(wid) ==> after_eviction(m, stale).engine.slot(wid) == m.engine.slot(wid),
{
    lemma_engine_without(m.engine, stale, stale.len() as int, wid);
    if exists|i: int| 0 <= i < stale.len() && #[trigger] stale[i] == wid {
        let i = choose|i: int| 0 <= i < stale.len() && #[trigger] stale[i] == wid;
        assert(stale.contains(wid));
    }
    if stale.contains(wid) {
        let i = choose|i: int| 0 <= i < stale.len() && stale[i] == wid;
        assert(stale[i] == wid);
    }
}

/// Once an application's windows were found, none of its saved windows is waited
/// for any more.
pub proof fn law_app_prune_ends_the_wait(m: ReactorModel, pid: pid_t, i: int)
    requires
        distinct_keys(m.persistence.adoption),
        0 <= i < after_app_prune(m, pid).persistence.adoption.len(),
    ensures
        after_app_prune(m, pid).persistence.adoption[i].1.old_wid.pid != pid,
{
    let table = m.persistence.adoption;
    lemma_others(table, pid, table.len() as int);
}

/// Once the wait is over, nothing is waited for any more.
pub proof fn law_settling_ends_the_wait(m: ReactorModel)
    ensures
        after_settling(m).persistence.adoption.len() == 0,
        after_settling(m).persistence.settle_deadline is None,
{
}

/// No two saved spaces have one identity.
pub open spec fn distinct_identities(saved: Seq<(SpaceId, (String, u32))>) -> bool {
    forall|i: int, j: int|
        #![trigger saved[i], saved[j]]
        0 <= i < saved.len() && 0 <= j < saved.len() && saved[i].1.0@ == saved[j].1.0@
            && saved[i].1.1 == saved[j].1.1 ==> i == j
}

/// Some saved space has the identity.
pub open spec fn identity_saved(
    saved: Seq<(SpaceId, (String, u32))>,
    uuid: Seq<char>,
    place: u32,
) -> bool {
    exists|i: int|
        #![trigger saved[i]]
        0 <= i < saved.len() && saved[i].1.0@ == uuid && saved[i].1.1 == place
}

proof fn lemma_saved_space(
    saved: Seq<(SpaceId, (String, u32))>,
    uuid: Seq<char>,
    place: u32,
    from: int,
)
    requires
        0 <= from <= saved.len(),
    ensures
        match saved_space_with(saved, uuid, place, from) {
            Some(space) => exists|i: int|
                #![trigger saved[i]]
                from <= i < saved.len() && saved[i].0 == space && saved[i].1.0@ == uuid
                    && saved[i].1.1 == place,
            None => forall|i: int|
                #![trigger saved[i]]
                from <= i < saved.len() ==> !(saved[i].1.0@ == uuid && saved[i].1.1 == place),
        },
    decreases saved.len() - from,
{
    if from < saved.len() && !(saved[from].1.0@ == uuid && saved[from].1.1 == place) {
        lemma_saved_space(saved, uuid, place, from + 1);
    }
}

/// What one screen's remap does to the saved identities: its own is used up, and
/// none is added.
#[verifier::spinoff_prover]
proof fn lemma_remap_step(m: ReactorModel, screen: ScreenInfo)
    requires
        distinct_keys(m.persistence.saved_spaces),
        distinct_identities(m.persistence.saved_spaces),
    ensures
        distinct_keys(after_remap_of(m, screen).persistence.saved_spaces),
        distinct_identities(after_remap_of(m, screen).persistence.saved_spaces),
        forall|uuid: Seq<char>, place: u32| #[trigger]
            identity_saved(after_remap_of(m, screen).persistence.saved_spaces, uuid, place)
                ==> identity_saved(m.persistence.saved_spaces, uuid, place),
        screen_resolved(after_remap_of(m, screen), screen),
        after_remap_of(m, screen).world == m.world,
{
    let saved = m.persistence.saved_spaces;
    if let Some(live) = screen.space {
        if screen.display_uuid@.len() > 0 {
            let uuid = screen.display_uuid@;
            let place = ordinal(m.world.screens, uuid, live);
            lemma_saved_space(saved, uuid, place, 0);
            if let Some(space) = saved_space_with(saved, uuid, place, 0) {
                let i = choose|i: int|
                    #![trigger saved[i]]
                    0 <= i < saved.len() && saved[i].0 == space && saved[i].1.0@ == uuid
                        && saved[i].1.1 == place;
                assert(holds_key(saved, space, i));
                let c = index_of_key(saved, space);
                assert(holds_key(saved, space, c));
                assert(saved[c].0@ == saved[i].0@);
                assert(c == i);
                crate::collections::lemma_remove(saved, i);
                lemma_identity_used_up(saved, i);
            }
        }
    }
}

/// Without one entry, identities stay distinct, none is added, and that entry's
/// is gone.
#[verifier::spinoff_prover]
proof fn lemma_identity_used_up(saved: Seq<(SpaceId, (String, u32))>, i: int)
    requires
        distinct_identities(saved),
        0 <= i < saved.len(),
    ensures
        distinct_identities(saved.remove(i)),
        forall|u: Seq<char>, p: u32| #[trigger]
            identity_saved(saved.remove(i), u, p) ==> identity_saved(saved, u, p),
        !identity_saved(saved.remove(i), saved[i].1.0@, saved[i].1.1),
{
    let next = saved.remove(i);
    lemma_distinct_without(saved, i);
    assert forall|u: Seq<char>, p: u32| #[trigger]
        identity_saved(next, u, p) implies identity_saved(saved, u, p) by {
        let a = choose|a: int|
            #![trigger next[a]]
            0 <= a < next.len() && next[a].1.0@ == u && next[a].1.1 == p;
        let a0 = if a < i { a } else { a + 1 };
        assert(saved[a0] == next[a]);
    }
    if identity_saved(next, saved[i].1.0@, saved[i].1.1) {
        let a = choose|a: int|
            #![trigger next[a]]
            0 <= a < next.len() && next[a].1.0@ == saved[i].1.0@ && next[a].1.1 == saved[i].1.1;
        let a0 = if a < i { a } else { a + 1 };
        assert(saved[a0] == next[a]);
    }
}

proof fn lemma_distinct_without(saved: Seq<(SpaceId, (String, u32))>, i: int)
    requires
        distinct_identities(saved),
        0 <= i < saved.len(),
    ensures
        distinct_identities(saved.remove(i)),
{
    let next = saved.remove(i);
    assert forall|a: int, b: int|
        #![trigger next[a], next[b]]
        0 <= a < next.len() && 0 <= b < next.len() && next[a].1.0@ == next[b].1.0@ && next[a].1.1
            == next[b].1.1 implies a == b by {
        let a0 = if a < i { a } else { a + 1 };
        let b0 = if b < i { b } else { b + 1 };
        assert(saved[a0] == next[a]);
        assert(saved[b0] == next[b]);
    }
}

/// A screen's identity is no longer saved, or it has none.
pub open spec fn screen_resolved(m: ReactorModel, screen: ScreenInfo) -> bool {
    screen.space matches Some(live) ==> (screen.display_uuid@.len() > 0 ==> !identity_saved(
        m.persistence.saved_spaces,
        screen.display_uuid@,
        ordinal(m.world.screens, screen.display_uuid@, live),
    ))
}

proof fn lemma_remap(m: ReactorModel, count: int)
    requires
        distinct_keys(m.persistence.saved_spaces),
        distinct_identities(m.persistence.saved_spaces),
        0 <= count <= m.world.screens.len(),
    ensures
        distinct_keys(after_remap(m, count).persistence.saved_spaces),
        distinct_identities(after_remap(m, count).persistence.saved_spaces),
        after_remap(m, count).world == m.world,
        forall|k: int|
            0 <= k < count ==> screen_resolved(
                after_remap(m, count),
                #[trigger] m.world.screens[k],
            ),
    decreases count,
{
    if count > 0 {
        lemma_remap(m, count - 1);
        let before = after_remap(m, count - 1);
        lemma_remap_step(before, m.world.screens[count - 1]);
        assert forall|k: int| 0 <= k < count implies screen_resolved(
            after_remap(m, count),
            #[trigger] m.world.screens[k],
        ) by {
            if k < count - 1 {
                assert(screen_resolved(before, m.world.screens[k]));
            }
        }
    }
}

proof fn lemma_resolved_remap(m: ReactorModel, count: int)
    requires
        0 <= count <= m.world.screens.len(),
        forall|k: int|
            0 <= k < m.world.screens.len() ==> screen_resolved(m, #[trigger] m.world.screens[k]),
    ensures
        after_remap(m, count) == m,
    decreases count,
{
    if count > 0 {
        lemma_resolved_remap(m, count - 1);
        let screen = m.world.screens[count - 1];
        assert(screen_resolved(m, screen));
        if let Some(live) = screen.space {
            if screen.display_uuid@.len() > 0 {
                lemma_saved_space(
                    m.persistence.saved_spaces,
                    screen.display_uuid@,
                    ordinal(m.world.screens, screen.display_uuid@, live),
                    0,
                );
            }
        }
    }
}

/// A space that is shown under the id it was saved with keeps its state where it
/// is.
pub proof fn law_unchanged_spaces_are_not_remapped(m: ReactorModel, screen: ScreenInfo)
    requires
        screen.space matches Some(live) && saved_space_with(
            m.persistence.saved_spaces,
            screen.display_uuid@,
            ordinal(m.world.screens, screen.display_uuid@, live),
            0,
        ) == Some(live),
    ensures
        after_remap_of(m, screen).engine == m.engine,
{
}

/// Remapping again on the same screens changes nothing: every identity that they
/// resolve is used up.
pub proof fn law_remap_runs_once_per_identity(m: ReactorModel)
    requires
        distinct_keys(m.persistence.saved_spaces),
        distinct_identities(m.persistence.saved_spaces),
    ensures
        ({
            let once = after_remap(m, m.world.screens.len() as int);
            after_remap(once, once.world.screens.len() as int) == once
        }),
{
    lemma_remap(m, m.world.screens.len() as int);
    let once = after_remap(m, m.world.screens.len() as int);
    lemma_resolved_remap(once, once.world.screens.len() as int);
}

} // verus!
