//! What saving and restoring come to, over the desktop's own fields.

use vstd::prelude::*;

use crate::actor::reactor::persistence::{
    adoption_of, after_activation, after_adoption, after_app_prune, after_remap, after_remap_of,
    after_eviction, after_settling, after_tick, all_ids, awaiting, display_uuids, engine_without,
    entries_of_others, fingerprint, identifies, ids_of, is_arrangement, is_base, is_merged,
    is_update, is_write_of, lemma_display_uuids, lemma_engine_without, lower_spaces, marked_dirty,
    ordinal, puts, recorded_as, saved_space_with, staged, with_restore_state,
    without_first_due_save, Adoption, AdoptionEntry, DueSave, PersistenceModel,
};
use crate::actor::reactor::{Effect, ReactorModel, ScreenInfo};
use crate::collections::{
    distinct_keys, entries_map, has_key, holds_key, index_of_key, lemma_entry, lemma_key,
    lemma_with_without, with_entry,
};
use crate::common::text::{joined, lemma_sorted_unique, strictly_sorted};
use crate::ids::{pid_t, SpaceId, VirtualWorkspaceId, WindowId, WindowServerId};
use crate::layout_engine::engine::{engine_remapped, engine_rewritten, EngineModel, Placement};
use crate::layout_engine::snapshot::{Arrangement, Loaded, Snapshot, WindowIdentity};

verus! {

// ---------------------------------------------------------------------------
// When a save is due
// ---------------------------------------------------------------------------

/// A change makes a save due one second later, where persistence is on, and changes
/// nothing else; a later change puts it off again.
pub proof fn law_a_change_makes_a_save_due(m: ReactorModel)
    requires
        m.world.clock.nanos + 1_000_000_000 <= u64::MAX,
    ensures
        m.persistence.restore_path is None ==> marked_dirty(m) == m,
        m.persistence.restore_path is Some ==> {
            let after = marked_dirty(m);
            &&& after.persistence.save_deadline matches Some(at) && at.nanos == m.world.clock.nanos
                + 1_000_000_000
            &&& after == (ReactorModel {
                persistence: PersistenceModel {
                    save_deadline: after.persistence.save_deadline,
                    ..m.persistence
                },
                ..m
            })
        },
{
}

/// Every event for the layout makes a save due.
pub proof fn law_layout_events_make_a_save_due(
    m: ReactorModel,
    event: crate::actor::reactor::LayoutEvent,
)
    requires
        m.persistence.restore_path is Some,
        m.world.clock.nanos + 1_000_000_000 <= u64::MAX,
    ensures
        crate::actor::reactor::command::after_layout_event(
            m,
            event,
        ).persistence.save_deadline matches Some(at) && at.nanos == m.world.clock.nanos
            + 1_000_000_000,
{
}

/// A tick asks for the save once its deadline has been reached, and the deadline is
/// then gone; before, nothing is asked for and the deadline stays.
pub proof fn law_a_tick_asks_for_a_due_save(m: ReactorModel, taken: DueSave)
    requires
        m.persistence.restore_path is Some,
        m.persistence.settle_deadline matches Some(at) ==> m.world.clock.nanos < at.nanos,
    ensures
        ({
            let after = after_tick(m, taken);
            let reached = m.persistence.save_deadline is Some && m.world.clock.nanos
                >= m.persistence.save_deadline->0.nanos;
            &&& reached ==> after.outbox == m.outbox.push(Effect::FlushSnapshot)
                && after.persistence.save_deadline is None && after.persistence.due_saves
                == m.persistence.due_saves.push(taken)
            &&& !reached ==> after == m
            &&& after.engine == m.engine
            &&& after.world == m.world
            &&& after.persistence.adoption == m.persistence.adoption
            &&& after.persistence.settle_deadline == m.persistence.settle_deadline
        }),
{
}

/// A tick at or past the end of the wait gives up every window still awaited: none
/// is awaited any more and none of them has a slot; every other window keeps its
/// slot. A save that was due by then was asked for first.
pub proof fn law_a_tick_ends_the_wait(m: ReactorModel, taken: DueSave, wid: WindowId)
    requires
        m.engine.wf(),
        m.persistence.restore_path is Some,
        m.persistence.settle_deadline matches Some(at) && m.world.clock.nanos >= at.nanos,
    ensures
        ({
            let after = after_tick(m, taken);
            let awaited = exists|i: int|
                0 <= i < m.persistence.adoption.len() && (
                #[trigger] m.persistence.adoption[i]).1.old_wid == wid;
            let reached = m.persistence.save_deadline is Some && m.world.clock.nanos
                >= m.persistence.save_deadline->0.nanos;
            &&& after.persistence.adoption.len() == 0
            &&& after.persistence.settle_deadline is None
            &&& awaited ==> after.engine.slot(wid) is None
            &&& !awaited ==> after.engine.slot(wid) == m.engine.slot(wid)
            &&& after.outbox == m.outbox + (if reached {
                seq![crate::actor::reactor::EffectModel::FlushSnapshot]
            } else {
                Seq::empty()
            }) + (if m.persistence.adoption.len() > 0 {
                seq![
                    crate::actor::reactor::EffectModel::UpdateLayout {
                        is_resize: false,
                        is_workspace_switch: false,
                    },
                ]
            } else {
                Seq::empty()
            })
        }),
{
    let after = after_tick(m, taken);
    let table = m.persistence.adoption;
    let stale = all_ids(table);
    lemma_engine_without(m.engine, stale, stale.len() as int, wid);
    if exists|i: int| 0 <= i < table.len() && (#[trigger] table[i]).1.old_wid == wid {
        let i = choose|i: int| 0 <= i < table.len() && (#[trigger] table[i]).1.old_wid == wid;
        assert(stale[i] == wid);
    }
    if exists|i: int| 0 <= i < stale.len() && #[trigger] stale[i] == wid {
        let i = choose|i: int| 0 <= i < stale.len() && #[trigger] stale[i] == wid;
        assert(table[i].1.old_wid == wid);
    }
    let reached = m.persistence.save_deadline is Some && m.world.clock.nanos
        >= m.persistence.save_deadline->0.nanos;
    assert(after.outbox =~= m.outbox + (if reached {
        seq![crate::actor::reactor::EffectModel::FlushSnapshot]
    } else {
        Seq::empty()
    }) + (if m.persistence.adoption.len() > 0 {
        seq![
            crate::actor::reactor::EffectModel::UpdateLayout {
                is_resize: false,
                is_workspace_switch: false,
            },
        ]
    } else {
        Seq::empty()
    }));
}

/// Giving windows up makes the next save due a second later; with none to give up
/// nothing but the wait ends.
pub proof fn law_giving_windows_up_makes_a_save_due(m: ReactorModel)
    requires
        m.persistence.restore_path is Some,
        m.world.clock.nanos + 1_000_000_000 <= u64::MAX,
    ensures
        m.persistence.adoption.len() > 0 ==> (after_settling(
            m,
        ).persistence.save_deadline matches Some(at) && at.nanos == m.world.clock.nanos
            + 1_000_000_000),
        m.persistence.adoption.len() == 0 ==> after_settling(m).outbox == m.outbox
            && after_settling(m).engine == m.engine && after_settling(m).persistence.save_deadline
            == m.persistence.save_deadline,
        ({
            let after = after_settling(m);
            after == (ReactorModel {
                engine: after.engine,
                outbox: after.outbox,
                persistence: PersistenceModel {
                    adoption: Seq::empty(),
                    save_deadline: after.persistence.save_deadline,
                    settle_deadline: None,
                    ..m.persistence
                },
                ..m
            })
        }),
{
}

// ---------------------------------------------------------------------------
// What a save holds
// ---------------------------------------------------------------------------

/// The fingerprint of any list of screens is the sorted list of the uuids that occur
/// among them, each once and none empty, joined.
pub proof fn law_fingerprint_joins_the_sorted_uuids(
    screens: Seq<ScreenInfo>,
    uuids: Seq<Seq<char>>,
)
    requires
        strictly_sorted(uuids),
        forall|u: Seq<char>| #[trigger]
            uuids.contains(u) <==> u.len() > 0 && exists|i: int|
                #![trigger screens[i]]
                0 <= i < screens.len() && screens[i].display_uuid@ == u,
    ensures
        fingerprint(screens) == joined(uuids, seq!['+']),
{
    lemma_display_uuids(screens, screens.len() as int);
    let own = display_uuids(screens, screens.len() as int);
    assert forall|u: Seq<char>| #[trigger] own.contains(u) <==> uuids.contains(u) by {}
    lemma_sorted_unique(own, uuids);
}

/// The fingerprint of one display is its uuid, however many screens it has.
pub proof fn law_fingerprint_of_one_display(screens: Seq<ScreenInfo>, uuid: Seq<char>)
    requires
        uuid.len() > 0,
        screens.len() > 0,
        forall|i: int| 0 <= i < screens.len() ==> (#[trigger] screens[i]).display_uuid@ == uuid,
    ensures
        fingerprint(screens) == uuid,
{
    let uuids = seq![uuid];
    assert(screens[0].display_uuid@ == uuid);
    assert forall|u: Seq<char>| #[trigger] uuids.contains(u) <==> u.len() > 0 && exists|i: int|
        #![trigger screens[i]]
        0 <= i < screens.len() && screens[i].display_uuid@ == u by {
        if u == uuid {
            assert(uuids[0] == u);
        }
    }
    law_fingerprint_joins_the_sorted_uuids(screens, uuids);
}

/// The place of a space on a display is the number of the display's screens that
/// show a space with a lower id.
pub proof fn law_place_of_a_space(screens: Seq<ScreenInfo>, uuid: Seq<char>, space: SpaceId)
    requires
        screens.len() <= u32::MAX,
        exists|i: int|
            #![trigger screens[i]]
            0 <= i < screens.len() && screens[i].display_uuid@ == uuid && screens[i].space == Some(
                space,
            ),
    ensures
        ordinal(screens, uuid, space) == Set::new(
            |i: int|
                0 <= i < screens.len() && screens[i].display_uuid@ == uuid
                    && screens[i].space is Some && screens[i].space->0.raw < space.raw,
        ).len(),
{
    lemma_lower_spaces(screens, uuid, space, screens.len() as int);
}

proof fn lemma_lower_spaces(
    screens: Seq<ScreenInfo>,
    uuid: Seq<char>,
    space: SpaceId,
    count: int,
)
    requires
        0 <= count <= screens.len(),
    ensures
        ({
            let lower = Set::new(
                |i: int|
                    0 <= i < count && screens[i].display_uuid@ == uuid && screens[i].space is Some
                        && screens[i].space->0.raw < space.raw,
            );
            lower.finite() && lower.len() == lower_spaces(screens, uuid, space, count)
                && lower_spaces(screens, uuid, space, count) <= count
        }),
    decreases count,
{
    let lower = Set::new(
        |i: int|
            0 <= i < count && screens[i].display_uuid@ == uuid && screens[i].space is Some
                && screens[i].space->0.raw < space.raw,
    );
    if count > 0 {
        lemma_lower_spaces(screens, uuid, space, count - 1);
        let before = Set::new(
            |i: int|
                0 <= i < count - 1 && screens[i].display_uuid@ == uuid && screens[i].space is Some
                    && screens[i].space->0.raw < space.raw,
        );
        let last = screens[count - 1];
        if last.display_uuid@ == uuid && last.space is Some && last.space->0.raw < space.raw {
            assert(lower =~= before.insert(count - 1));
        } else {
            assert(lower =~= before);
        }
    } else {
        assert(lower =~= Set::empty());
    }
}

/// A space that the display does not show is in the first place.
pub proof fn law_place_of_an_unshown_space(
    screens: Seq<ScreenInfo>,
    uuid: Seq<char>,
    space: SpaceId,
)
    requires
        forall|i: int|
            0 <= i < screens.len() ==> (#[trigger] screens[i]).display_uuid@ != uuid
                || screens[i].space != Some(space),
    ensures
        ordinal(screens, uuid, space) == 0,
{
}

/// Exactly the known windows with a slot and a server id are saved, each with its
/// server id, title, role, frame, and its own bundle id or else its application's.
pub proof fn law_saved_windows(m: ReactorModel, a: Arrangement, wid: WindowId)
    requires
        is_arrangement(m, a),
    ensures
        a.windows@.dom().contains(wid) <==> m.engine.slot(wid) is Some
            && m.world.windows.dom().contains(wid) && m.world.windows[wid].sys_id is Some,
        a.windows@.dom().contains(wid) ==> {
            let state = m.world.windows[wid];
            let saved = a.windows@[wid];
            &&& state.sys_id == Some(saved.server_id)
            &&& saved.title@ == state.title@
            &&& saved.frame == state.frame_monotonic
            &&& state.ax_role matches Some(role) ==> saved.ax_role@ == role@
            &&& state.ax_role is None ==> saved.ax_role@.len() == 0
            &&& state.bundle_id matches Some(id) ==> saved.bundle_id@ == id@
            &&& state.bundle_id is None && m.world.apps.dom().contains(wid.pid) ==> (
            m.world.apps[wid.pid].bundle_id matches Some(id) ==> saved.bundle_id@ == id@)
            &&& state.bundle_id is None && (!m.world.apps.dom().contains(wid.pid)
                || m.world.apps[wid.pid].bundle_id is None) ==> saved.bundle_id@.len() == 0
        },
{
    if a.windows@.dom().contains(wid) {
        assert(identifies(m, wid, a.windows@[wid]));
    }
}

/// Exactly the spaces that the engine has seen on a display, on record or now, are
/// saved; under the display on record, else the one that shows the space now, and
/// the space's place there.
pub proof fn law_saved_spaces(m: ReactorModel, a: Arrangement, i: int)
    requires
        is_arrangement(m, a),
        m.engine.wf(),
        0 <= i < m.engine.displays.len(),
    ensures
        ({
            let (space, on_record) = m.engine.displays[i];
            let display = if on_record is Some {
                on_record
            } else {
                m.display_of_space(space)
            };
            &&& display is None ==> !a.spaces@.dom().contains(space)
            &&& display matches Some(uuid) ==> a.spaces@.dom().contains(space)
                && a.spaces@[space].0@ == uuid@ && a.spaces@[space].1 == ordinal(
                m.world.screens,
                uuid@,
                space,
            )
        }),
{
    let (space, on_record) = m.engine.displays[i];
    lemma_entry(m.engine.displays, i);
    assert(holds_key(m.engine.displays, space, i));
    if a.spaces@.dom().contains(space) {
        assert(recorded_as(m, space, a.spaces@[space]));
    }
}

/// A space that the engine has not seen is not saved; the engine and the pinned
/// windows are saved as they are.
pub proof fn law_saved_engine(m: ReactorModel, a: Arrangement, space: SpaceId)
    requires
        is_arrangement(m, a),
    ensures
        a.engine@ == m.engine,
        a.topmost@ == m.world.topmost_windows,
        (forall|i: int|
            0 <= i < m.engine.displays.len() ==> (#[trigger] m.engine.displays[i]).0 != space)
            ==> !a.spaces@.dom().contains(space),
{
    if forall|i: int|
        0 <= i < m.engine.displays.len() ==> (#[trigger] m.engine.displays[i]).0 != space {
        if has_key(m.engine.displays, space) {
            let i = index_of_key(m.engine.displays, space);
            assert(holds_key(m.engine.displays, space, i));
            assert(m.engine.displays[i].0 == space);
        }
    }
}

/// A file is built on only where it was read, is a snapshot, and is of version 1;
/// else a save starts from nothing.
pub proof fn law_what_a_save_builds_on(loaded: Loaded, base: Snapshot)
    requires
        is_base(loaded, base),
    ensures
        loaded matches Loaded::Parsed(parsed) ==> parsed.version == 1 ==> base == parsed,
        loaded matches Loaded::Parsed(parsed) ==> parsed.version != 1
            ==> base.arrangements@.dom() == Set::<Seq<char>>::empty() && base.version == 1,
        loaded !is Parsed ==> base.arrangements@.dom() == Set::<Seq<char>>::empty() && base.version
            == 1,
{
    assert(loaded !is Parsed ==> base.arrangements@.dom() =~= Set::<Seq<char>>::empty());
    assert(loaded matches Loaded::Parsed(parsed) ==> parsed.version != 1
        ==> base.arrangements@.dom() =~= Set::<Seq<char>>::empty());
}

/// A due save puts its arrangement under its fingerprint; the arrangements that a
/// snapshot of version 1 held under other fingerprints stay, and no other appears.
pub proof fn law_what_a_due_save_writes(
    f: DueSave,
    loaded: Loaded,
    s: Snapshot,
    key: Seq<char>,
)
    requires
        is_write_of(f, loaded, s),
    ensures
        s.version == 1,
        s.arrangements@.dom().contains(f.fingerprint@),
        s.arrangements@[f.fingerprint@] == f.arrangement,
        loaded matches Loaded::Parsed(parsed) ==> parsed.version == 1 ==> key != f.fingerprint@ ==> {
            &&& s.arrangements@.dom().contains(key) <==> parsed.arrangements@.dom().contains(key)
            &&& s.arrangements@.dom().contains(key) ==> s.arrangements@[key]
                == parsed.arrangements@[key]
        },
        (loaded !is Parsed || loaded->Parsed_0.version != 1) && key != f.fingerprint@
            ==> !s.arrangements@.dom().contains(key),
{
    let base = choose|base: Snapshot| is_base(loaded, base) && #[trigger] puts(f, base, s);
    law_what_a_save_builds_on(loaded, base);
}

/// A save of the current state puts the current arrangement under the current
/// fingerprint; the arrangements that a snapshot of version 1 held under other
/// fingerprints stay, and no other appears.
pub proof fn law_what_a_save_writes(m: ReactorModel, loaded: Loaded, s: Snapshot, key: Seq<char>)
    requires
        is_update(m, loaded, s),
    ensures
        s.version == 1,
        s.arrangements@.dom().contains(fingerprint(m.world.screens)),
        is_arrangement(m, s.arrangements@[fingerprint(m.world.screens)]),
        loaded matches Loaded::Parsed(parsed) ==> parsed.version == 1 ==> key != fingerprint(
            m.world.screens,
        ) ==> {
            &&& s.arrangements@.dom().contains(key) <==> parsed.arrangements@.dom().contains(key)
            &&& s.arrangements@.dom().contains(key) ==> s.arrangements@[key]
                == parsed.arrangements@[key]
        },
        (loaded !is Parsed || loaded->Parsed_0.version != 1) && key != fingerprint(m.world.screens)
            ==> !s.arrangements@.dom().contains(key),
{
    let base = choose|base: Snapshot| is_base(loaded, base) && #[trigger] is_merged(m, base, s);
    law_what_a_save_builds_on(loaded, base);
}

/// Writing a due save takes it, and only it, from those that wait.
pub proof fn law_a_written_save_no_longer_waits(m: ReactorModel, i: int)
    requires
        0 <= i < m.persistence.due_saves.len() - 1,
    ensures
        ({
            let after = without_first_due_save(m);
            &&& after.persistence.due_saves.len() == m.persistence.due_saves.len() - 1
            &&& after.persistence.due_saves[i] == m.persistence.due_saves[i + 1]
            &&& after.engine == m.engine
            &&& after.outbox == m.outbox
            &&& after.persistence.adoption == m.persistence.adoption
            &&& after.persistence.save_deadline == m.persistence.save_deadline
            &&& after.persistence.restore_path == m.persistence.restore_path
            &&& after.world == m.world
        }),
{
}

// ---------------------------------------------------------------------------
// Restoring
// ---------------------------------------------------------------------------

/// A restore waits for a snapshot and for a screen, and happens once.
pub proof fn law_restore_waits(m: ReactorModel)
    requires
        m.persistence.activated || m.world.screens.len() == 0
            || m.persistence.pending_restore is None,
    ensures
        after_activation(m) == m,
{
}

/// On displays of which the snapshot has no arrangement the engine stays as it is,
/// nothing is awaited, and the attempt is over.
pub proof fn law_restore_on_other_displays(m: ReactorModel, s: Snapshot)
    requires
        !m.persistence.activated,
        m.world.screens.len() > 0,
        m.persistence.pending_restore == Some(s),
        !s.arrangements@.dom().contains(fingerprint(m.world.screens)),
    ensures
        ({
            let after = after_activation(m);
            &&& after.persistence.activated
            &&& after.persistence.pending_restore is None
            &&& after.engine == m.engine
            &&& after.outbox == m.outbox
            &&& after.persistence.adoption == m.persistence.adoption
            &&& after.persistence.saved_spaces == m.persistence.saved_spaces
            &&& after.persistence.settle_deadline == m.persistence.settle_deadline
            &&& after.world == m.world
        }),
{
}

/// On displays of which the snapshot has an arrangement its engine takes over and is
/// given the current settings; its spaces are to be found again; and where it has
/// windows they are awaited, for three minutes.
pub proof fn law_restore_on_the_same_displays(m: ReactorModel, s: Snapshot, a: Arrangement)
    requires
        m.world.clock.nanos + 180_000_000_000 <= u64::MAX,
        !m.persistence.activated,
        m.world.screens.len() > 0,
        m.persistence.pending_restore == Some(s),
        s.arrangements@.dom().contains(fingerprint(m.world.screens)),
        a == s.arrangements@[fingerprint(m.world.screens)],
    ensures
        ({
            let after = after_activation(m);
            &&& after.persistence.activated
            &&& after.persistence.pending_restore is None
            &&& after.engine == a.engine@
            &&& after.outbox == m.outbox.push(Effect::RehydrateEngine)
            &&& after.persistence.saved_spaces == a.spaces.entries@
            &&& after.persistence.adoption == staged(a.windows.entries@, Seq::empty())
            &&& after.world == m.world
            &&& a.windows.entries@.len() > 0 ==> (
            after.persistence.settle_deadline matches Some(at) && at.nanos == m.world.clock.nanos
                + 180_000_000_000)
            &&& a.windows.entries@.len() == 0 ==> after.persistence.settle_deadline
                == m.persistence.settle_deadline
            &&& after.persistence.restore_path == m.persistence.restore_path
            &&& after.persistence.save_deadline == m.persistence.save_deadline
            &&& after.persistence.due_saves == m.persistence.due_saves
        }),
{
    lemma_staged_len(a.windows.entries@, Seq::empty());
}

proof fn lemma_staged_len(
    windows: Seq<(WindowId, WindowIdentity)>,
    table: Seq<(WindowServerId, AdoptionEntry)>,
)
    ensures
        windows.len() > 0 ==> staged(windows, table).len() > 0,
        staged(windows, table).len() >= table.len(),
    decreases windows.len(),
{
    if windows.len() > 0 {
        let (old_wid, identity) = windows.last();
        let next = with_entry(table, identity.server_id, AdoptionEntry { old_wid, identity });
        if has_key(table, identity.server_id) {
            let i = index_of_key(table, identity.server_id);
            assert(holds_key(table, identity.server_id, i));
        }
        assert(next.len() > 0 && next.len() >= table.len());
        lemma_staged_len(windows.drop_last(), next);
    }
}

/// What is staged for a restore is awaited, for three minutes where it is anything,
/// and changes nothing else.
pub proof fn law_staged_windows_are_awaited(
    m: ReactorModel,
    adoption: Seq<(WindowServerId, AdoptionEntry)>,
    saved_spaces: Seq<(SpaceId, (String, u32))>,
)
    requires
        m.world.clock.nanos + 180_000_000_000 <= u64::MAX,
    ensures
        ({
            let after = with_restore_state(m, adoption, saved_spaces);
            &&& after.persistence.adoption == adoption
            &&& after.persistence.saved_spaces == saved_spaces
            &&& adoption.len() > 0 ==> (after.persistence.settle_deadline matches Some(at)
                && at.nanos == m.world.clock.nanos + 180_000_000_000)
            &&& adoption.len() == 0 ==> after.persistence.settle_deadline
                == m.persistence.settle_deadline
            &&& after.engine == m.engine
            &&& after.world == m.world
            &&& after.outbox == m.outbox
            &&& after.persistence.save_deadline == m.persistence.save_deadline
        }),
{
}

/// A server id is awaited for the first of the saved windows that has it, and one
/// that none has is not awaited.
pub proof fn law_which_window_is_awaited(
    windows: Seq<(WindowId, WindowIdentity)>,
    server_id: WindowServerId,
    i: int,
)
    requires
        0 <= i <= windows.len(),
        forall|j: int| 0 <= j < i ==> (#[trigger] windows[j]).1.server_id != server_id,
        i < windows.len() ==> windows[i].1.server_id == server_id,
    ensures
        i == windows.len() ==> awaiting(staged(windows, Seq::empty()), server_id) is None,
        i < windows.len() ==> awaiting(staged(windows, Seq::empty()), server_id) == Some(
            windows[i].0,
        ),
        i < windows.len() ==> entries_map(staged(windows, Seq::empty()))[server_id].identity
            == windows[i].1,
{
    let none = Seq::<(WindowServerId, AdoptionEntry)>::empty();
    assert(distinct_keys(none));
    lemma_awaited(windows, none, server_id, i);
    if has_key(none, server_id) {
        let k = index_of_key(none, server_id);
        assert(holds_key(none, server_id, k));
    }
}

proof fn lemma_awaited(
    windows: Seq<(WindowId, WindowIdentity)>,
    table: Seq<(WindowServerId, AdoptionEntry)>,
    server_id: WindowServerId,
    i: int,
)
    requires
        distinct_keys(table),
        0 <= i <= windows.len(),
        forall|j: int| 0 <= j < i ==> (#[trigger] windows[j]).1.server_id != server_id,
        i < windows.len() ==> windows[i].1.server_id == server_id,
    ensures
        awaiting(staged(windows, table), server_id) == (if i < windows.len() {
            Some(windows[i].0)
        } else {
            awaiting(table, server_id)
        }),
        i < windows.len() ==> entries_map(staged(windows, table))[server_id].identity
            == windows[i].1,
        i == windows.len() ==> entries_map(staged(windows, table))[server_id] == entries_map(
            table,
        )[server_id] || !entries_map(table).dom().contains(server_id),
    decreases windows.len(),
{
    if windows.len() > 0 {
        let (old_wid, identity) = windows.last();
        let rest = windows.drop_last();
        let entry = AdoptionEntry { old_wid, identity };
        let next = with_entry(table, identity.server_id, entry);
        lemma_with_without(table, identity.server_id, entry);
        assert forall|j: int| 0 <= j < rest.len() implies #[trigger] rest[j] == windows[j] by {}
        if i < windows.len() - 1 {
            assert(rest[i] == windows[i]);
            lemma_awaited(rest, next, server_id, i);
        } else {
            lemma_awaited(rest, next, server_id, rest.len() as int);
            if i == windows.len() {
                assert(windows[windows.len() - 1].1.server_id != server_id);
            }
        }
    }
}

/// A screen whose display and place were saved takes over the state of the space
/// saved there, under whatever id it shows now; the saved identity is used up.
pub proof fn law_a_screen_takes_its_saved_state(
    m: ReactorModel,
    screen: ScreenInfo,
    live: SpaceId,
    i: int,
)
    requires
        distinct_keys(m.persistence.saved_spaces),
        screen.space == Some(live),
        screen.display_uuid@.len() > 0,
        0 <= i < m.persistence.saved_spaces.len(),
        m.persistence.saved_spaces[i].1.0@ == screen.display_uuid@,
        m.persistence.saved_spaces[i].1.1 == ordinal(
            m.world.screens,
            screen.display_uuid@,
            live,
        ),
        forall|j: int|
            0 <= j < i ==> (#[trigger] m.persistence.saved_spaces[j]).1.0@ != screen.display_uuid@
                || m.persistence.saved_spaces[j].1.1 != ordinal(
                m.world.screens,
                screen.display_uuid@,
                live,
            ),
    ensures
        ({
            let after = after_remap_of(m, screen);
            let saved = m.persistence.saved_spaces[i].0;
            &&& after.persistence.saved_spaces == m.persistence.saved_spaces.remove(i)
            &&& saved == live ==> after.engine == m.engine
            &&& saved != live ==> after.engine == engine_remapped(m.engine, saved, live)
            &&& after.outbox == m.outbox
            &&& after.world == m.world
            &&& after.persistence.adoption == m.persistence.adoption
        }),
{
    let saved = m.persistence.saved_spaces;
    let place = ordinal(m.world.screens, screen.display_uuid@, live);
    lemma_saved_space_is(saved, screen.display_uuid@, place, 0, i);
    assert(holds_key(saved, saved[i].0, i));
    let c = index_of_key(saved, saved[i].0);
    assert(holds_key(saved, saved[i].0, c));
    assert(saved[c].0@ == saved[i].0@);
}

proof fn lemma_saved_space_is(
    saved: Seq<(SpaceId, (String, u32))>,
    uuid: Seq<char>,
    place: u32,
    from: int,
    i: int,
)
    requires
        0 <= from <= i <= saved.len(),
        i < saved.len() ==> saved[i].1.0@ == uuid && saved[i].1.1 == place,
        forall|j: int|
            0 <= j < i ==> (#[trigger] saved[j]).1.0@ != uuid || saved[j].1.1 != place,
    ensures
        i < saved.len() ==> saved_space_with(saved, uuid, place, from) == Some(saved[i].0),
        i == saved.len() ==> saved_space_with(saved, uuid, place, from) is None,
    decreases i - from,
{
    if from < i {
        assert(saved[from].1.0@ != uuid || saved[from].1.1 != place);
        lemma_saved_space_is(saved, uuid, place, from + 1, i);
    }
}

/// A screen that shows no space, has no uuid, or whose display and place were not
/// saved changes nothing.
pub proof fn law_a_screen_without_saved_state(m: ReactorModel, screen: ScreenInfo)
    requires
        screen.space is None || screen.display_uuid@.len() == 0 || forall|j: int|
            0 <= j < m.persistence.saved_spaces.len() ==> (
            #[trigger] m.persistence.saved_spaces[j]).1.0@ != screen.display_uuid@
                || m.persistence.saved_spaces[j].1.1 != ordinal(
                m.world.screens,
                screen.display_uuid@,
                screen.space->0,
            ),
    ensures
        after_remap_of(m, screen) == m,
{
    if screen.space is Some && screen.display_uuid@.len() > 0 {
        let saved = m.persistence.saved_spaces;
        lemma_saved_space_is(
            saved,
            screen.display_uuid@,
            ordinal(m.world.screens, screen.display_uuid@, screen.space->0),
            0,
            saved.len() as int,
        );
    }
}

/// The screens are gone through in the order listed, each on what the ones before
/// left.
pub proof fn law_screens_are_remapped_in_order(m: ReactorModel, count: int)
    requires
        0 <= count,
    ensures
        after_remap(m, 0) == m,
        after_remap(m, count + 1) == after_remap_of(
            after_remap(m, count),
            m.world.screens[count],
        ),
{
}

// ---------------------------------------------------------------------------
// Adoption
// ---------------------------------------------------------------------------

/// A known window with a server id that is awaited is adopted on the space of the
/// saved slot, in whatever workspace that slot is.
pub proof fn law_awaited_windows_are_adopted(
    m: ReactorModel,
    wid: WindowId,
    space: SpaceId,
    i: int,
    slot: Placement,
)
    requires
        distinct_keys(m.persistence.adoption),
        0 <= i < m.persistence.adoption.len(),
        m.world.windows.dom().contains(wid),
        m.world.windows[wid].sys_id == Some(m.persistence.adoption[i].0),
        m.engine.slot(m.persistence.adoption[i].1.old_wid) == Some(slot),
        slot.space == space,
    ensures
        adoption_of(m, wid, space) == Some(
            Adoption {
                server_id: m.persistence.adoption[i].0,
                old_wid: m.persistence.adoption[i].1.old_wid,
                workspace_id: slot.workspace,
            },
        ),
{
    lemma_entry(m.persistence.adoption, i);
}

/// A window that is unknown, has no server id, or has one that is not awaited is
/// left to normal assignment; and so is one whose saved slot is gone or on another
/// space.
pub proof fn law_other_windows_are_not_adopted(m: ReactorModel, wid: WindowId, space: SpaceId)
    requires
        ({
            ||| !m.world.windows.dom().contains(wid)
            ||| m.world.windows[wid].sys_id is None
            ||| forall|i: int|
                0 <= i < m.persistence.adoption.len() ==> (
                #[trigger] m.persistence.adoption[i]).0 != m.world.windows[wid].sys_id->0
            ||| forall|i: int|
                0 <= i < m.persistence.adoption.len() && (
                #[trigger] m.persistence.adoption[i]).0 == m.world.windows[wid].sys_id->0 ==> (
                m.engine.slot(m.persistence.adoption[i].1.old_wid) matches Some(slot)
                    ==> slot.space != space)
        }),
        distinct_keys(m.persistence.adoption),
    ensures
        adoption_of(m, wid, space) is None,
{
    let table = m.persistence.adoption;
    if m.world.windows.dom().contains(wid) && m.world.windows[wid].sys_id is Some {
        let id = m.world.windows[wid].sys_id->0;
        if entries_map(table).dom().contains(id) {
            let i = lemma_key(table, id);
            assert(table[i].0 == id);
        }
    }
}

/// An adoption hands the saved window's slot, floating mark and place in the list to
/// the live window, claims its entry alone, and makes a save due. The desktop and
/// the outbox stay.
pub proof fn law_what_an_adoption_changes(m: ReactorModel, wid: WindowId, a: Adoption, i: int)
    requires
        m.engine.wf(),
        distinct_keys(m.persistence.adoption),
        m.world.clock.nanos + 1_000_000_000 <= u64::MAX,
        0 <= i < m.persistence.adoption.len(),
        m.persistence.adoption[i].0 == a.server_id,
        m.persistence.adoption[i].1.old_wid == a.old_wid,
        m.engine.slot(a.old_wid) is Some,
    ensures
        ({
            let after = after_adoption(m, wid, a);
            &&& after.engine.slot(wid) == m.engine.slot(a.old_wid)
            &&& a.old_wid != wid ==> after.engine.slot(a.old_wid) is None
            &&& m.engine.floating.contains(a.old_wid) ==> after.engine.floating.contains(wid)
            &&& after.persistence.adoption == m.persistence.adoption.remove(i)
            &&& m.persistence.restore_path is Some ==> (
            after.persistence.save_deadline matches Some(at) && at.nanos == m.world.clock.nanos
                + 1_000_000_000)
            &&& a.old_wid == wid ==> after.engine == m.engine
            &&& a.old_wid != wid ==> after.engine == engine_rewritten(m.engine, a.old_wid, wid)
            &&& after == (ReactorModel {
                engine: after.engine,
                persistence: PersistenceModel {
                    adoption: after.persistence.adoption,
                    save_deadline: after.persistence.save_deadline,
                    ..m.persistence
                },
                ..m
            })
        }),
{
    let table = m.persistence.adoption;
    assert(holds_key(table, a.server_id, i));
    let c = index_of_key(table, a.server_id);
    assert(holds_key(table, a.server_id, c));
    assert(table[c].0@ == table[i].0@);
    if a.old_wid != wid {
        crate::layout_engine::engine::law_rewrite_inherits_the_slot(
            m.engine,
            a.old_wid,
            wid,
            crate::ids::VirtualWorkspaceId { raw: 0 },
        );
    }
}

// ---------------------------------------------------------------------------
// Giving up what did not come back
// ---------------------------------------------------------------------------

proof fn lemma_ids_of(
    table: Seq<(WindowServerId, AdoptionEntry)>,
    pid: pid_t,
    count: int,
    wid: WindowId,
)
    requires
        0 <= count <= table.len(),
    ensures
        (exists|k: int|
            0 <= k < ids_of(table, pid, count).len() && #[trigger] ids_of(table, pid, count)[k]
                == wid) <==> wid.pid == pid && exists|i: int|
            0 <= i < count && (#[trigger] table[i]).1.old_wid == wid,
    decreases count,
{
    if count > 0 {
        lemma_ids_of(table, pid, count - 1, wid);
        let before = ids_of(table, pid, count - 1);
        let now = ids_of(table, pid, count);
        if exists|k: int| 0 <= k < before.len() && #[trigger] before[k] == wid {
            let k = choose|k: int| 0 <= k < before.len() && #[trigger] before[k] == wid;
            assert(now[k] == wid);
        }
        if exists|k: int| 0 <= k < now.len() && #[trigger] now[k] == wid {
            let k = choose|k: int| 0 <= k < now.len() && #[trigger] now[k] == wid;
            if k < before.len() {
                assert(before[k] == wid);
            } else {
                assert(table[count - 1].1.old_wid == wid);
            }
        }
        if wid.pid == pid && table[count - 1].1.old_wid == wid {
            assert(now[before.len() as int] == wid);
        }
    }
}

proof fn lemma_entries_of_others(
    table: Seq<(WindowServerId, AdoptionEntry)>,
    pid: pid_t,
    count: int,
    i: int,
)
    requires
        0 <= i < count <= table.len(),
        table[i].1.old_wid.pid != pid,
    ensures
        entries_of_others(table, pid, count).contains(table[i]),
    decreases count,
{
    let before = entries_of_others(table, pid, count - 1);
    let now = entries_of_others(table, pid, count);
    if i < count - 1 {
        lemma_entries_of_others(table, pid, count - 1, i);
        let k = choose|k: int| 0 <= k < before.len() && before[k] == table[i];
        assert(now[k] == table[i]);
    } else {
        assert(now[before.len() as int] == table[i]);
    }
}

/// Once an application's windows were found, those of its saved windows still
/// awaited lose their slots; every other window keeps its slot, and every window of
/// another application is awaited as before.
pub proof fn law_app_prune_drops_what_the_app_did_not_bring_back(
    m: ReactorModel,
    pid: pid_t,
    wid: WindowId,
    i: int,
)
    requires
        m.engine.wf(),
    ensures
        ({
            let after = after_app_prune(m, pid);
            let dropped = wid.pid == pid && exists|k: int|
                0 <= k < m.persistence.adoption.len() && (
                #[trigger] m.persistence.adoption[k]).1.old_wid == wid;
            &&& dropped ==> after.engine.slot(wid) is None
            &&& !dropped ==> after.engine.slot(wid) == m.engine.slot(wid)
            &&& 0 <= i < m.persistence.adoption.len() && m.persistence.adoption[i].1.old_wid.pid
                != pid ==> after.persistence.adoption.contains(m.persistence.adoption[i])
            &&& after == (ReactorModel {
                engine: after.engine,
                outbox: after.outbox,
                persistence: PersistenceModel {
                    adoption: after.persistence.adoption,
                    save_deadline: after.persistence.save_deadline,
                    settle_deadline: after.persistence.settle_deadline,
                    ..m.persistence
                },
                ..m
            })
        }),
{
    let table = m.persistence.adoption;
    let stale = ids_of(table, pid, table.len() as int);
    lemma_ids_of(table, pid, table.len() as int, wid);
    lemma_engine_without(m.engine, stale, stale.len() as int, wid);
    if 0 <= i < table.len() && table[i].1.old_wid.pid != pid {
        lemma_entries_of_others(table, pid, table.len() as int, i);
    }
}

/// Where an application brought back all its windows, or none was awaited, nothing
/// happens; else the layout runs, a save is due, and the wait ends where no other
/// application is waited for.
pub proof fn law_app_prune_effects(m: ReactorModel, pid: pid_t, k: int)
    requires
        m.world.clock.nanos + 1_000_000_000 <= u64::MAX,
    ensures
        ({
            let after = after_app_prune(m, pid);
            let table = m.persistence.adoption;
            &&& (forall|i: int| 0 <= i < table.len() ==> (#[trigger] table[i]).1.old_wid.pid != pid)
                ==> after == m
            &&& 0 <= k < table.len() && table[k].1.old_wid.pid == pid ==> {
                &&& after.outbox == m.outbox.push(
                    Effect::UpdateLayout { is_resize: false, is_workspace_switch: false },
                )
                &&& m.persistence.restore_path is Some ==> (
                after.persistence.save_deadline matches Some(at) && at.nanos == m.world.clock.nanos
                    + 1_000_000_000)
                &&& (forall|i: int|
                    0 <= i < table.len() ==> (#[trigger] table[i]).1.old_wid.pid == pid)
                    ==> after.persistence.settle_deadline is None
                &&& (exists|i: int|
                    0 <= i < table.len() && (#[trigger] table[i]).1.old_wid.pid != pid)
                    ==> after.persistence.settle_deadline == m.persistence.settle_deadline
            }
        }),
{
    let table = m.persistence.adoption;
    let count = table.len() as int;
    if forall|i: int| 0 <= i < table.len() ==> (#[trigger] table[i]).1.old_wid.pid != pid {
        lemma_none_of(table, pid, count);
        assert(after_app_prune(m, pid) =~= m);
    }
    if 0 <= k < table.len() && table[k].1.old_wid.pid == pid {
        lemma_ids_of(table, pid, count, table[k].1.old_wid);
    }
    if forall|i: int| 0 <= i < table.len() ==> (#[trigger] table[i]).1.old_wid.pid == pid {
        lemma_all_of(table, pid, count);
    }
    if exists|i: int| 0 <= i < table.len() && (#[trigger] table[i]).1.old_wid.pid != pid {
        let i = choose|i: int| 0 <= i < table.len() && (#[trigger] table[i]).1.old_wid.pid != pid;
        lemma_entries_of_others(table, pid, count, i);
    }
}

proof fn lemma_none_of(table: Seq<(WindowServerId, AdoptionEntry)>, pid: pid_t, count: int)
    requires
        0 <= count <= table.len(),
        forall|i: int| 0 <= i < table.len() ==> (#[trigger] table[i]).1.old_wid.pid != pid,
    ensures
        ids_of(table, pid, count).len() == 0,
        entries_of_others(table, pid, count) =~= table.take(count),
    decreases count,
{
    if count > 0 {
        lemma_none_of(table, pid, count - 1);
        assert(table[count - 1].1.old_wid.pid != pid);
    }
}

proof fn lemma_all_of(table: Seq<(WindowServerId, AdoptionEntry)>, pid: pid_t, count: int)
    requires
        0 <= count <= table.len(),
        forall|i: int| 0 <= i < table.len() ==> (#[trigger] table[i]).1.old_wid.pid == pid,
    ensures
        entries_of_others(table, pid, count).len() == 0,
    decreases count,
{
    if count > 0 {
        lemma_all_of(table, pid, count - 1);
        assert(table[count - 1].1.old_wid.pid == pid);
    }
}

/// A window given up is nowhere the last focused one; a window that is not keeps its
/// floating mark and its focus. Which workspaces are active, and which displays the
/// spaces were seen on, stays.
pub proof fn law_what_giving_up_leaves(
    m: ReactorModel,
    stale: Seq<WindowId>,
    wid: WindowId,
    ws: VirtualWorkspaceId,
)
    requires
        m.engine.wf(),
    ensures
        ({
            let after = after_eviction(m, stale).engine;
            &&& stale.contains(wid) ==> after.last_focused_in(ws) != Some(wid)
            &&& !stale.contains(wid) ==> (after.floating.contains(wid)
                <==> m.engine.floating.contains(wid))
            &&& !stale.contains(wid) && m.engine.last_focused_in(ws) == Some(wid)
                ==> after.last_focused_in(ws) == Some(wid)
            &&& after.active == m.engine.active
            &&& after.displays == m.engine.displays
        }),
{
    lemma_marks(m.engine, stale, stale.len() as int, wid, ws);
    if exists|i: int| 0 <= i < stale.len() && #[trigger] stale[i] == wid {
        let i = choose|i: int| 0 <= i < stale.len() && #[trigger] stale[i] == wid;
        assert(stale.contains(wid));
    }
    if stale.contains(wid) {
        let i = choose|i: int| 0 <= i < stale.len() && stale[i] == wid;
        assert(stale[i] == wid);
    }
}

proof fn lemma_marks(
    e: EngineModel,
    windows: Seq<WindowId>,
    count: int,
    wid: WindowId,
    ws: VirtualWorkspaceId,
)
    requires
        0 <= count <= windows.len(),
    ensures
        ({
            let after = engine_without(e, windows, count);
            let gone = exists|i: int| 0 <= i < count && #[trigger] windows[i] == wid;
            &&& gone ==> after.last_focused_in(ws) != Some(wid)
            &&& !gone ==> (after.floating.contains(wid) <==> e.floating.contains(wid))
            &&& !gone && e.last_focused_in(ws) == Some(wid) ==> after.last_focused_in(ws) == Some(
                wid,
            )
            &&& e.last_focused_in(ws) != Some(wid) ==> after.last_focused_in(ws) != Some(wid)
            &&& after.active == e.active
            &&& after.displays == e.displays
        }),
    decreases count,
{
    if count > 0 {
        lemma_marks(e, windows, count - 1, wid, ws);
        assert(windows[count - 1] == windows[count - 1]);
        if exists|i: int| 0 <= i < count && #[trigger] windows[i] == wid {
            let i = choose|i: int| 0 <= i < count && #[trigger] windows[i] == wid;
            if i < count - 1 {
                assert(0 <= i < count - 1 && windows[i] == wid);
            }
        }
    }
}

} // verus!
