//! What the answers to the questions asked of the desktop come to, over the
//! desktop's own fields.

use vstd::prelude::*;

use crate::actor::reactor::{
    directed, first_screen, first_space, nearest_screen, physical_order, shared_px, widest_overlap,
    Direction, DisplaySelector, ReactorModel, ScreenInfo,
};
use crate::ids::{SpaceId, WindowId, WindowServerId};
use crate::sys::geometry::{CGPoint, CGRect};

verus! {

// ---------------------------------------------------------------------------
// Searches
// ---------------------------------------------------------------------------

pub proof fn lemma_first_screen_is(
    screens: Seq<ScreenInfo>,
    f: spec_fn(ScreenInfo) -> bool,
    from: int,
    i: int,
)
    requires
        0 <= from <= i < screens.len(),
        f(screens[i]),
        forall|j: int| from <= j < i ==> !f(#[trigger] screens[j]),
    ensures
        first_screen(screens, f, from) == Some(screens[i]),
    decreases i - from,
{
    if from < i {
        assert(!f(screens[from]));
        lemma_first_screen_is(screens, f, from + 1, i);
    }
}

pub proof fn lemma_no_screen(screens: Seq<ScreenInfo>, f: spec_fn(ScreenInfo) -> bool, from: int)
    requires
        0 <= from,
        forall|j: int| from <= j < screens.len() ==> !f(#[trigger] screens[j]),
    ensures
        first_screen(screens, f, from) is None,
    decreases screens.len() - from,
{
    if from < screens.len() {
        assert(!f(screens[from]));
        lemma_no_screen(screens, f, from + 1);
    }
}

pub proof fn lemma_first_space_is(
    spaces: Seq<SpaceId>,
    f: spec_fn(SpaceId) -> bool,
    from: int,
    i: int,
)
    requires
        0 <= from <= i < spaces.len(),
        f(spaces[i]),
        forall|j: int| from <= j < i ==> !f(#[trigger] spaces[j]),
    ensures
        first_space(spaces, f, from) == Some(spaces[i]),
    decreases i - from,
{
    if from < i {
        assert(!f(spaces[from]));
        lemma_first_space_is(spaces, f, from + 1, i);
    }
}

pub proof fn lemma_no_space(spaces: Seq<SpaceId>, f: spec_fn(SpaceId) -> bool, from: int)
    requires
        0 <= from,
        forall|j: int| from <= j < spaces.len() ==> !f(#[trigger] spaces[j]),
    ensures
        first_space(spaces, f, from) is None,
    decreases spaces.len() - from,
{
    if from < spaces.len() {
        assert(!f(spaces[from]));
        lemma_no_space(spaces, f, from + 1);
    }
}

/// A space counts as managed exactly where it is among the active ones.
pub proof fn law_active_spaces_are_those_listed(m: ReactorModel, space: SpaceId)
    ensures
        m.space_active(space) <==> exists|i: int|
            0 <= i < m.world.active_spaces.len() && #[trigger] m.world.active_spaces[i] == space,
{
}

/// The screen of a space is the first that shows it.
pub proof fn law_screen_of_a_space_is_the_first_that_shows_it(
    m: ReactorModel,
    space: SpaceId,
    i: int,
)
    requires
        0 <= i < m.world.screens.len(),
        m.world.screens[i].space == Some(space),
        forall|j: int| 0 <= j < i ==> (#[trigger] m.world.screens[j]).space != Some(space),
    ensures
        m.screen_of_space(space) == Some(m.world.screens[i]),
{
    lemma_first_screen_is(m.world.screens, |s: ScreenInfo| s.space == Some(space), 0, i);
}

/// A space that no screen shows has no screen.
pub proof fn law_unshown_spaces_have_no_screen(m: ReactorModel, space: SpaceId)
    requires
        forall|j: int|
            0 <= j < m.world.screens.len() ==> (#[trigger] m.world.screens[j]).space != Some(space),
    ensures
        m.screen_of_space(space) is None,
        m.display_of_space(space) is None,
{
    lemma_no_screen(m.world.screens, |s: ScreenInfo| s.space == Some(space), 0);
}

/// The uuid of a space's display is that of the first screen that shows it, unless
/// that is empty.
pub proof fn law_display_of_a_space(m: ReactorModel, space: SpaceId, i: int)
    requires
        0 <= i < m.world.screens.len(),
        m.world.screens[i].space == Some(space),
        forall|j: int| 0 <= j < i ==> (#[trigger] m.world.screens[j]).space != Some(space),
    ensures
        m.world.screens[i].display_uuid@.len() > 0 ==> m.display_of_space(space) == Some(
            m.world.screens[i].display_uuid,
        ),
        m.world.screens[i].display_uuid@.len() == 0 ==> m.display_of_space(space) is None,
{
    law_screen_of_a_space_is_the_first_that_shows_it(m, space, i);
}

/// The screen at a point is the first whose frame holds it, border counted in.
pub proof fn law_screen_at_a_point_is_the_first_that_holds_it(m: ReactorModel, p: CGPoint, i: int)
    requires
        0 <= i < m.world.screens.len(),
        ({
            let f = m.world.screens[i].frame;
            f.origin.x <= p.x <= f.origin.x + f.size.width && f.origin.y <= p.y <= f.origin.y
                + f.size.height
        }),
        forall|j: int|
            0 <= j < i ==> {
                let f = (#[trigger] m.world.screens[j]).frame;
                p.x < f.origin.x || p.x > f.origin.x + f.size.width || p.y < f.origin.y || p.y
                    > f.origin.y + f.size.height
            },
    ensures
        m.screen_at(p) == Some(m.world.screens[i]),
{
    lemma_first_screen_is(m.world.screens, |s: ScreenInfo| s.frame.covers(p), 0, i);
}

/// A point off every screen is on none.
pub proof fn law_no_screen_at_a_point_off_all_screens(m: ReactorModel, p: CGPoint)
    requires
        forall|j: int|
            0 <= j < m.world.screens.len() ==> {
                let f = (#[trigger] m.world.screens[j]).frame;
                p.x < f.origin.x || p.x > f.origin.x + f.size.width || p.y < f.origin.y || p.y
                    > f.origin.y + f.size.height
            },
    ensures
        m.screen_at(p) is None,
{
    lemma_no_screen(m.world.screens, |s: ScreenInfo| s.frame.covers(p), 0);
}

/// The cursor's space is that of the screen it is on; without a cursor there is
/// none.
pub proof fn law_cursor_space(m: ReactorModel)
    ensures
        m.world.cursor is None ==> m.cursor_space() is None,
        m.world.cursor matches Some(p) ==> m.screen_at(p) is None ==> m.cursor_space() is None,
        m.world.cursor matches Some(p) ==> (m.screen_at(p) matches Some(screen)
            ==> m.cursor_space() == screen.space),
{
}

/// The hovered window is the tracked one under the cursor.
pub proof fn law_hovered_window(m: ReactorModel)
    ensures
        m.world.window_under_cursor is None ==> m.hovered_window() is None,
        m.world.window_under_cursor matches Some(id) ==> {
            &&& m.world.window_ids.dom().contains(id) ==> m.hovered_window() == Some(
                m.world.window_ids[id],
            )
            &&& !m.world.window_ids.dom().contains(id) ==> m.hovered_window() is None
        },
{
}

// ---------------------------------------------------------------------------
// Which space commands go to
// ---------------------------------------------------------------------------

/// Commands go to the space asked for where it is shown by a screen and managed,
/// whatever else is shown.
pub proof fn law_commands_go_to_the_space_asked_for(m: ReactorModel, space: SpaceId, i: int)
    requires
        m.world.command_space == Some(space),
        m.world.shown_spaces.contains(space),
        0 <= i < m.world.screens.len(),
        m.world.screens[i].space == Some(space),
    ensures
        m.display_space() == Some(space),
        m.world.active_spaces.contains(space) ==> m.command_target() == Some(space),
        !m.world.active_spaces.contains(space) ==> m.command_target() is None,
{
    crate::actor::reactor::lemma_first_screen(m.world.screens);
    let f = |s: ScreenInfo| s.space == Some(space);
    if first_screen(m.world.screens, f, 0) is None {
        lemma_none_found(m.world.screens, f, 0, i);
    }
}

proof fn lemma_none_found(
    screens: Seq<ScreenInfo>,
    f: spec_fn(ScreenInfo) -> bool,
    from: int,
    i: int,
)
    requires
        0 <= from <= i < screens.len(),
        first_screen(screens, f, from) is None,
    ensures
        !f(screens[i]),
    decreases i - from,
{
    if from < i {
        lemma_none_found(screens, f, from + 1, i);
    }
}

/// Where the space asked for is none, or is not shown, commands go to the space of
/// the first screen that shows one, provided that it is managed; a managed space
/// on a later screen does not take its place.
pub proof fn law_commands_fall_back_to_the_first_shown_space(
    m: ReactorModel,
    space: SpaceId,
    i: int,
)
    requires
        m.world.command_space matches Some(asked) ==> !m.world.shown_spaces.contains(asked)
            || forall|j: int|
            0 <= j < m.world.screens.len() ==> (#[trigger] m.world.screens[j]).space != Some(asked),
        0 <= i < m.world.screens.len(),
        m.world.screens[i].space == Some(space),
        m.world.shown_spaces.contains(space),
        forall|j: int|
            0 <= j < i ==> ((#[trigger] m.world.screens[j]).space matches Some(other)
                ==> !m.world.shown_spaces.contains(other)),
    ensures
        m.display_space() == Some(space),
        m.world.active_spaces.contains(space) ==> m.command_target() == Some(space),
        !m.world.active_spaces.contains(space) ==> m.command_target() is None,
{
    if let Some(asked) = m.world.command_space {
        if m.world.shown_spaces.contains(asked) {
            lemma_no_screen(m.world.screens, |s: ScreenInfo| s.space == Some(asked), 0);
        }
    }
    lemma_first_screen_is(
        m.world.screens,
        |s: ScreenInfo| s.space matches Some(t) && m.world.shown_spaces.contains(t),
        0,
        i,
    );
}

/// Where no screen shows a space, commands have nowhere to go.
pub proof fn law_commands_need_a_shown_space(m: ReactorModel)
    requires
        forall|j: int|
            0 <= j < m.world.screens.len() ==> ((#[trigger] m.world.screens[j]).space matches Some(
                other,
            ) ==> !m.world.shown_spaces.contains(other)),
    ensures
        m.display_space() is None,
        m.command_target() is None,
{
    lemma_no_screen(
        m.world.screens,
        |s: ScreenInfo| s.space matches Some(t) && m.world.shown_spaces.contains(t),
        0,
    );
    if let Some(asked) = m.world.command_space {
        if m.world.shown_spaces.contains(asked) {
            lemma_no_screen(m.world.screens, |s: ScreenInfo| s.space == Some(asked), 0);
        }
    }
}

// ---------------------------------------------------------------------------
// Which space a window is on
// ---------------------------------------------------------------------------

/// The assigned space of a window is that of its slot, where it is a known space.
pub proof fn law_assigned_space_is_that_of_the_slot(m: ReactorModel, wid: WindowId)
    ensures
        m.engine.slot(wid) is None ==> m.assigned_space(wid) is None,
        m.engine.slot(wid) matches Some(p) ==> {
            &&& m.world.known_spaces.contains(p.space) ==> m.assigned_space(wid) == Some(p.space)
            &&& !m.world.known_spaces.contains(p.space) ==> m.assigned_space(wid) is None
        },
{
    let spaces = m.world.known_spaces;
    let f = |space: SpaceId| m.engine.workspace_on(space, wid) is Some;
    match m.engine.slot(wid) {
        None => lemma_no_space(spaces, f, 0),
        Some(p) => {
            if spaces.contains(p.space) {
                lemma_found_space(spaces, f, 0);
                let k = choose|k: int| 0 <= k < spaces.len() && spaces[k] == p.space;
                if first_space(spaces, f, 0) is None {
                    lemma_none_found_space(spaces, f, 0, k);
                }
            } else {
                assert forall|j: int| 0 <= j < spaces.len() implies !f(#[trigger] spaces[j]) by {
                    assert(spaces.contains(spaces[j]));
                }
                lemma_no_space(spaces, f, 0);
            }
        },
    }
}

proof fn lemma_found_space(spaces: Seq<SpaceId>, f: spec_fn(SpaceId) -> bool, from: int)
    requires
        0 <= from,
    ensures
        first_space(spaces, f, from) matches Some(s) ==> f(s) && spaces.contains(s),
    decreases spaces.len() - from,
{
    if from < spaces.len() {
        assert(spaces.contains(spaces[from]));
        lemma_found_space(spaces, f, from + 1);
    }
}

proof fn lemma_none_found_space(
    spaces: Seq<SpaceId>,
    f: spec_fn(SpaceId) -> bool,
    from: int,
    i: int,
)
    requires
        0 <= from <= i < spaces.len(),
        first_space(spaces, f, from) is None,
    ensures
        !f(spaces[i]),
    decreases i - from,
{
    if from < i {
        lemma_none_found_space(spaces, f, from + 1, i);
    }
}

/// A numbered window is looked for on the known spaces in their order.
pub proof fn law_assigned_space_of_a_number_is_the_first(m: ReactorModel, idx: u32, i: int)
    requires
        0 <= i <= m.world.known_spaces.len(),
        forall|j: int|
            0 <= j < i ==> m.engine.numbered(#[trigger] m.world.known_spaces[j], idx, 0) is None,
    ensures
        i == m.world.known_spaces.len() ==> m.assigned_space_of_number(idx) is None,
        i < m.world.known_spaces.len() && m.engine.numbered(m.world.known_spaces[i], idx, 0) is Some
            ==> m.assigned_space_of_number(idx) == Some(m.world.known_spaces[i]),
{
    let f = |space: SpaceId| m.engine.numbered(space, idx, 0) is Some;
    if i == m.world.known_spaces.len() {
        lemma_no_space(m.world.known_spaces, f, 0);
    } else if f(m.world.known_spaces[i]) {
        lemma_first_space_is(m.world.known_spaces, f, 0, i);
    }
}

/// A tracked window is hidden on the space of its slot exactly where that space is
/// managed and its active workspace is another one.
pub proof fn law_hidden_space(m: ReactorModel, wsid: WindowServerId)
    ensures
        m.hidden_space(None) is None,
        !m.world.window_ids.dom().contains(wsid) ==> m.hidden_space(Some(wsid)) is None,
        m.world.window_ids.dom().contains(wsid) ==> match m.engine.slot(
            m.world.window_ids[wsid],
        ) {
            None => m.hidden_space(Some(wsid)) is None,
            Some(p) => {
                let hidden = m.world.active_spaces.contains(p.space) && m.engine.active.dom().contains(
                    p.space,
                ) && m.engine.active[p.space] != p.workspace;
                &&& hidden ==> m.hidden_space(Some(wsid)) == Some(p.space)
                &&& !hidden ==> m.hidden_space(Some(wsid)) is None
            },
        },
{
}

/// A frame lies on the space of the screen under its middle, however much of it
/// other screens show.
pub proof fn law_a_frame_lies_where_its_middle_is(m: ReactorModel, frame: CGRect, space: SpaceId)
    requires
        m.screen_at(frame.middle()) matches Some(screen) && screen.space == Some(space),
    ensures
        m.space_of_frame(frame) == Some(space),
{
}

/// A frame whose middle is on no screen that shows a space lies on the space of the
/// screen that shares the most whole square pixels with it, and at least one: no
/// screen shares more, and no later one as much. A square pixel is 2304 square
/// units.
pub proof fn law_a_frame_off_the_screens_lies_where_it_overlaps_most(
    m: ReactorModel,
    frame: CGRect,
    i: int,
    space: SpaceId,
)
    requires
        m.screen_at(frame.middle()) matches Some(screen) ==> screen.space is None,
        0 <= i < m.world.screens.len(),
        m.world.screens[i].space == Some(space),
        m.world.screens[i].frame.shared_area(frame) / 2304int >= 1,
        forall|j: int|
            0 <= j < m.world.screens.len() && (#[trigger] m.world.screens[j]).space is Some ==> {
                let mine = m.world.screens[i].frame.shared_area(frame) / 2304int;
                let other = m.world.screens[j].frame.shared_area(frame) / 2304int;
                if j <= i {
                    other <= mine
                } else {
                    other < mine
                }
            },
    ensures
        m.space_of_frame(frame) == Some(space),
{
    lemma_widest_overlap_is(m.world.screens, frame, m.world.screens.len() as int, i, space);
}

proof fn lemma_widest_overlap_is(
    screens: Seq<ScreenInfo>,
    frame: CGRect,
    count: int,
    i: int,
    space: SpaceId,
)
    requires
        0 <= i < count <= screens.len(),
        screens[i].space == Some(space),
        shared_px(screens[i].frame, frame) >= 1,
        forall|j: int|
            0 <= j < count && (#[trigger] screens[j]).space is Some ==> if j <= i {
                shared_px(screens[j].frame, frame) <= shared_px(screens[i].frame, frame)
            } else {
                shared_px(screens[j].frame, frame) < shared_px(screens[i].frame, frame)
            },
    ensures
        widest_overlap(screens, frame, count) == Some((shared_px(screens[i].frame, frame), space)),
    decreases count,
{
    if count - 1 > i {
        lemma_widest_overlap_is(screens, frame, count - 1, i, space);
        assert(screens[count - 1].space is Some ==> shared_px(screens[count - 1].frame, frame)
            < shared_px(screens[i].frame, frame));
    } else {
        lemma_overlap_bound(screens, frame, count - 1, shared_px(screens[i].frame, frame));
    }
}

proof fn lemma_overlap_bound(screens: Seq<ScreenInfo>, frame: CGRect, count: int, bound: int)
    requires
        0 <= count <= screens.len(),
        forall|j: int|
            0 <= j < count && (#[trigger] screens[j]).space is Some ==> shared_px(
                screens[j].frame,
                frame,
            ) <= bound,
    ensures
        widest_overlap(screens, frame, count) matches Some((most, _)) ==> most <= bound,
    decreases count,
{
    if count > 0 {
        lemma_overlap_bound(screens, frame, count - 1, bound);
        assert(screens[count - 1].space is Some ==> shared_px(screens[count - 1].frame, frame)
            <= bound);
    }
}

/// A frame that shares no whole square pixel with any screen that shows a space,
/// and whose middle is on none, lies on no space.
pub proof fn law_a_frame_away_from_all_screens_lies_nowhere(m: ReactorModel, frame: CGRect)
    requires
        m.screen_at(frame.middle()) matches Some(screen) ==> screen.space is None,
        forall|j: int|
            0 <= j < m.world.screens.len() && (#[trigger] m.world.screens[j]).space is Some
                ==> m.world.screens[j].frame.shared_area(frame) / 2304int <= 0,
    ensures
        m.space_of_frame(frame) is None,
{
    lemma_no_overlap(m.world.screens, frame, m.world.screens.len() as int);
}

proof fn lemma_no_overlap(screens: Seq<ScreenInfo>, frame: CGRect, count: int)
    requires
        0 <= count <= screens.len(),
        forall|j: int|
            0 <= j < count && (#[trigger] screens[j]).space is Some ==> shared_px(
                screens[j].frame,
                frame,
            ) <= 0,
    ensures
        widest_overlap(screens, frame, count) is None,
    decreases count,
{
    if count > 0 {
        lemma_no_overlap(screens, frame, count - 1);
        assert(screens[count - 1].space is Some ==> shared_px(screens[count - 1].frame, frame)
            <= 0);
    }
}

/// A move is pending exactly where a tracked window has a frame asked for that lies
/// on the space of its slot, or the window is hidden there.
pub proof fn law_pending_space(m: ReactorModel, wsid: WindowServerId)
    ensures
        !m.world.window_ids.dom().contains(wsid) ==> m.pending_space(wsid) is None,
        !m.world.target_frames.dom().contains(wsid) ==> m.pending_space(wsid) is None,
        m.world.window_ids.dom().contains(wsid) && m.world.target_frames.dom().contains(wsid)
            ==> match m.engine.slot(m.world.window_ids[wsid]) {
            None => m.pending_space(wsid) is None,
            Some(p) => {
                let hidden = m.hidden_space(Some(wsid)) == Some(p.space);
                let aimed = m.space_of_frame(m.world.target_frames[wsid]) == Some(p.space);
                &&& hidden || aimed ==> m.pending_space(wsid) == Some(p.space)
                &&& !hidden && !aimed ==> m.pending_space(wsid) is None
            },
        },
{
}

/// Where no move is pending, an observation stands as it is; without one the
/// window server's live report comes first, then what was accepted last.
pub proof fn law_native_space_without_a_pending_move(
    m: ReactorModel,
    wsid: WindowServerId,
    observed: SpaceId,
)
    requires
        m.pending_space(wsid) is None,
    ensures
        m.native_space(wsid, Some(observed)) == Some(observed),
        m.world.live_spaces.dom().contains(wsid) ==> m.native_space(wsid, None) == Some(
            m.world.live_spaces[wsid],
        ),
        !m.world.live_spaces.dom().contains(wsid) && m.world.prior_spaces.dom().contains(wsid)
            ==> m.native_space(wsid, None) == Some(m.world.prior_spaces[wsid]),
        !m.world.live_spaces.dom().contains(wsid) && !m.world.prior_spaces.dom().contains(wsid)
            ==> m.native_space(wsid, None) is None,
{
}

/// A pending move stands in for what was accepted last, yields to a live report,
/// and outranks an observation that the live report does not back.
pub proof fn law_native_space_with_a_pending_move(
    m: ReactorModel,
    wsid: WindowServerId,
    observed: SpaceId,
    target: SpaceId,
)
    requires
        m.pending_space(wsid) == Some(target),
    ensures
        m.world.live_spaces.dom().contains(wsid) ==> m.native_space(wsid, None) == Some(
            m.world.live_spaces[wsid],
        ),
        !m.world.live_spaces.dom().contains(wsid) ==> m.native_space(wsid, None) == Some(target),
        m.world.live_spaces.dom().contains(wsid) && m.world.live_spaces[wsid] == observed
            ==> m.native_space(wsid, Some(observed)) == Some(observed),
        !(m.world.live_spaces.dom().contains(wsid) && m.world.live_spaces[wsid] == observed)
            ==> m.native_space(wsid, Some(observed)) == Some(target),
{
}

/// The best space of a window: none in fullscreen; else what its server id tells;
/// else where it is hidden; else where its frame lies. Without a server id the
/// frame alone counts.
pub proof fn law_best_space(m: ReactorModel, frame: CGRect, wsid: WindowServerId)
    ensures
        m.best_space(frame, None) == m.space_of_frame(frame),
        m.world.fullscreen.contains(wsid) ==> m.best_space(frame, Some(wsid)) is None,
        !m.world.fullscreen.contains(wsid) ==> {
            &&& m.native_space(wsid, None) is Some ==> m.best_space(frame, Some(wsid))
                == m.native_space(wsid, None)
            &&& m.native_space(wsid, None) is None && m.hidden_space(Some(wsid)) is Some
                ==> m.best_space(frame, Some(wsid)) == m.hidden_space(Some(wsid))
            &&& m.native_space(wsid, None) is None && m.hidden_space(Some(wsid)) is None
                ==> m.best_space(frame, Some(wsid)) == m.space_of_frame(frame)
        },
{
}

/// The authoritative space of a known window with a server id: what that id tells,
/// else the space of its slot.
pub proof fn law_authoritative_space(m: ReactorModel, wid: WindowId, wsid: WindowServerId)
    requires
        m.world.windows.dom().contains(wid),
        m.world.windows[wid].sys_id == Some(wsid),
    ensures
        m.native_space(wsid, None) is Some ==> m.authoritative_space(wid) == m.native_space(
            wsid,
            None,
        ),
        m.native_space(wsid, None) is None && m.hidden_space(Some(wsid)) is Some
            ==> m.authoritative_space(wid) == m.hidden_space(Some(wsid)),
        m.native_space(wsid, None) is None && m.hidden_space(Some(wsid)) is None
            ==> m.authoritative_space(wid) == (match m.engine.slot(wid) {
            Some(p) => Some(p.space),
            None => None,
        }),
{
}

/// Without a server id, only the slot tells where a window belongs.
pub proof fn law_authoritative_space_without_a_server_id(m: ReactorModel, wid: WindowId)
    requires
        m.world.windows.dom().contains(wid) ==> m.world.windows[wid].sys_id is None,
    ensures
        m.engine.slot(wid) matches Some(p) ==> m.authoritative_space(wid) == Some(p.space),
        m.engine.slot(wid) is None ==> m.authoritative_space(wid) is None,
{
}

/// The space of a window is the authoritative one; only without it does the frame
/// of a known window count.
pub proof fn law_space_of_a_window(m: ReactorModel, wid: WindowId)
    ensures
        m.authoritative_space(wid) is Some ==> m.space_of_window(wid) == m.authoritative_space(wid),
        m.authoritative_space(wid) is None && m.world.windows.dom().contains(wid)
            ==> m.space_of_window(wid) == m.best_space(
            m.world.windows[wid].frame_monotonic,
            m.world.windows[wid].sys_id,
        ),
        m.authoritative_space(wid) is None && !m.world.windows.dom().contains(wid)
            ==> m.space_of_window(wid) is None,
{
}

/// The window last focused on a space is that of its active workspace, where it is
/// known, is still on the space, and its server id, if it has one, is visible.
pub proof fn law_last_focused_on(m: ReactorModel, space: SpaceId)
    ensures
        !m.engine.active.dom().contains(space) ==> m.last_focused_on(space) is None,
        m.engine.active.dom().contains(space) && !m.engine.last_focused.dom().contains(
            m.engine.active[space],
        ) ==> m.last_focused_on(space) is None,
        m.engine.active.dom().contains(space) && m.engine.last_focused.dom().contains(
            m.engine.active[space],
        ) ==> {
            let wid = m.engine.last_focused[m.engine.active[space]];
            let there = m.world.windows.dom().contains(wid) && m.space_of_window(wid) == Some(space)
                && (m.world.windows[wid].sys_id is None || m.world.visible.contains(
                m.world.windows[wid].sys_id->0,
            ));
            &&& there ==> m.last_focused_on(space) == Some(wid)
            &&& !there ==> m.last_focused_on(space) is None
        },
{
}

// ---------------------------------------------------------------------------
// Which screen a selector names
// ---------------------------------------------------------------------------

/// Without an origin, directions start at the middle of the screen that commands go
/// to, else of the first screen.
pub proof fn law_current_centre(m: ReactorModel)
    ensures
        m.world.command_space matches Some(space) ==> (m.screen_of_space(space) matches Some(screen)
            ==> m.current_centre() == Some(screen.frame.middle())),
        (m.world.command_space is None || m.screen_of_space(m.world.command_space->0) is None)
            && m.world.screens.len() > 0 ==> m.current_centre() == Some(
            m.world.screens[0].frame.middle(),
        ),
        m.world.screens.len() == 0 ==> m.current_centre() is None,
{
}

/// A uuid names the first screen that has it.
pub proof fn law_uuid_names_the_first_screen_that_has_it(
    m: ReactorModel,
    uuid: String,
    origin: Option<CGPoint>,
    i: int,
)
    requires
        0 <= i <= m.world.screens.len(),
        forall|j: int| 0 <= j < i ==> (#[trigger] m.world.screens[j]).display_uuid@ != uuid@,
    ensures
        i == m.world.screens.len() ==> m.selected_screen(DisplaySelector::Uuid(uuid), origin) is None,
        i < m.world.screens.len() && m.world.screens[i].display_uuid@ == uuid@
            ==> m.selected_screen(DisplaySelector::Uuid(uuid), origin) == Some(m.world.screens[i]),
{
    let f = |s: ScreenInfo| s.display_uuid@ == uuid@;
    if i == m.world.screens.len() {
        lemma_no_screen(m.world.screens, f, 0);
    } else if f(m.world.screens[i]) {
        lemma_first_screen_is(m.world.screens, f, 0, i);
    }
}

/// An index counts screens from the left, and from the top where they begin equally
/// far left. Past the last screen it names none.
pub proof fn law_index_counts_from_the_left(
    m: ReactorModel,
    index: usize,
    origin: Option<CGPoint>,
    other: usize,
)
    requires
        index < other,
    ensures
        index >= m.world.screens.len() ==> m.selected_screen(
            DisplaySelector::Index(index),
            origin,
        ) is None,
        other < m.world.screens.len() ==> {
            let a = m.selected_screen(DisplaySelector::Index(index), origin);
            let b = m.selected_screen(DisplaySelector::Index(other), origin);
            &&& a is Some && b is Some
            &&& a->0.frame.origin.x < b->0.frame.origin.x || (a->0.frame.origin.x
                == b->0.frame.origin.x && a->0.frame.origin.y <= b->0.frame.origin.y)
        },
{
    let screens = m.world.screens;
    if other < screens.len() {
        crate::actor::reactor::law_physical_order_is_sorted(screens, index as int, other as int);
    }
}

/// Every screen has an index.
pub proof fn law_every_screen_has_an_index(m: ReactorModel, origin: Option<CGPoint>, i: int)
    requires
        0 <= i < m.world.screens.len(),
        m.world.screens.len() <= usize::MAX,
    ensures
        exists|a: usize|
            a < m.world.screens.len() && #[trigger] m.selected_screen(
                DisplaySelector::Index(a),
                origin,
            ) == Some(m.world.screens[i]),
{
    let screens = m.world.screens;
    let count = screens.len() as int;
    crate::actor::reactor::lemma_physical_order(screens, count);
    lemma_order_holds(screens, count, i);
    let order = physical_order(screens, count);
    let a = choose|a: int| 0 <= a < order.len() && order[a] == i;
    assert(m.selected_screen(DisplaySelector::Index(a as usize), origin) == Some(screens[i]));
}

/// Screens that begin at one place are counted in the order listed.
pub proof fn law_screens_at_one_place_are_counted_in_order(
    m: ReactorModel,
    origin: Option<CGPoint>,
    i: int,
    j: int,
)
    requires
        0 <= i < j < m.world.screens.len(),
        m.world.screens.len() <= usize::MAX,
        m.world.screens[i].frame.origin == m.world.screens[j].frame.origin,
    ensures
        exists|a: usize, b: usize|
            a < b < m.world.screens.len() && #[trigger] m.selected_screen(
                DisplaySelector::Index(a),
                origin,
            ) == Some(m.world.screens[i]) && #[trigger] m.selected_screen(
                DisplaySelector::Index(b),
                origin,
            ) == Some(m.world.screens[j]),
{
    let screens = m.world.screens;
    let count = screens.len() as int;
    crate::actor::reactor::lemma_physical_order(screens, count);
    lemma_order_holds(screens, count, i);
    lemma_order_holds(screens, count, j);
    lemma_order_is_stable(screens, count);
    let order = physical_order(screens, count);
    let a = choose|a: int| 0 <= a < order.len() && order[a] == i;
    let b = choose|b: int| 0 <= b < order.len() && order[b] == j;
    if b < a {
        assert(order[b] < order[a]);
    }
    assert(m.selected_screen(DisplaySelector::Index(a as usize), origin) == Some(screens[i]));
    assert(m.selected_screen(DisplaySelector::Index(b as usize), origin) == Some(screens[j]));
}

proof fn lemma_order_holds(screens: Seq<ScreenInfo>, count: int, i: int)
    requires
        0 <= i < count <= screens.len(),
    ensures
        physical_order(screens, count).contains(i),
    decreases count,
{
    let before = physical_order(screens, count - 1);
    let next = physical_order(screens, count);
    crate::actor::reactor::lemma_physical_order(screens, count - 1);
    crate::actor::reactor::lemma_insertion_point(screens, before, count - 1, 0);
    let at = crate::actor::reactor::insertion_point(screens, before, count - 1, 0);
    if i == count - 1 {
        assert(next[at] == i);
    } else {
        lemma_order_holds(screens, count - 1, i);
        let k = choose|k: int| 0 <= k < before.len() && before[k] == i;
        if k < at {
            assert(next[k] == i);
        } else {
            assert(next[k + 1] == i);
        }
    }
}

proof fn lemma_order_is_stable(screens: Seq<ScreenInfo>, count: int)
    requires
        0 <= count <= screens.len(),
    ensures
        forall|a: int, b: int|
            0 <= a < b < count && screens[#[trigger] physical_order(
                screens,
                count,
            )[a]].frame.origin == screens[#[trigger] physical_order(
                screens,
                count,
            )[b]].frame.origin ==> physical_order(screens, count)[a] < physical_order(
                screens,
                count,
            )[b],
    decreases count,
{
    if count > 0 {
        let before = physical_order(screens, count - 1);
        let next = physical_order(screens, count);
        lemma_order_is_stable(screens, count - 1);
        crate::actor::reactor::lemma_physical_order(screens, count - 1);
        crate::actor::reactor::lemma_order_sorted(screens, count);
        crate::actor::reactor::lemma_insertion_point(screens, before, count - 1, 0);
        let at = crate::actor::reactor::insertion_point(screens, before, count - 1, 0);
        assert forall|a: int, b: int|
            0 <= a < b < count && screens[#[trigger] next[a]].frame.origin == screens[
            #[trigger] next[b]].frame.origin implies next[a] < next[b] by {
            let a0 = if a < at { a } else { a - 1 };
            let b0 = if b < at { b } else { b - 1 };
            if b == at {
                assert(next[a] == before[a]);
            } else if a == at {
                assert(next[b] == before[b0]);
                lemma_later_stand_after(screens, before, count - 1, at, b0);
            } else {
                assert(next[a] == before[a0]);
                assert(next[b] == before[b0]);
            }
        }
    }
}

proof fn lemma_later_stand_after(
    screens: Seq<ScreenInfo>,
    before: Seq<int>,
    k: int,
    at: int,
    b: int,
)
    requires
        0 <= k < screens.len(),
        before == physical_order(screens, k),
        at == crate::actor::reactor::insertion_point(screens, before, k, 0),
        at <= b < before.len(),
    ensures
        screens[before[b]].frame.origin != screens[k].frame.origin,
{
    crate::actor::reactor::lemma_insertion_point(screens, before, k, 0);
    crate::actor::reactor::lemma_order_sorted(screens, k);
    if at < b {
        assert(!crate::actor::reactor::stands_before(
            screens[before[b]].frame,
            screens[before[at]].frame,
        ));
    }
}

/// A screen lies left of a point where it ends at or before it, right where it
/// begins at or after it, and so up and down; one that holds the point, border
/// counted in, lies in no direction.
pub proof fn law_which_screens_lie_in_a_direction(frame: CGRect, at: CGPoint)
    ensures
        ({
            let ends_x = frame.origin.x + frame.size.width;
            let ends_y = frame.origin.y + frame.size.height;
            let holds = frame.origin.x <= at.x <= ends_x && frame.origin.y <= at.y <= ends_y;
            &&& directed(frame, at, Direction::Left) is Some <==> !holds && ends_x <= at.x
            &&& directed(frame, at, Direction::Right) is Some <==> !holds && frame.origin.x >= at.x
            &&& directed(frame, at, Direction::Up) is Some <==> !holds && ends_y <= at.y
            &&& directed(frame, at, Direction::Down) is Some <==> !holds && frame.origin.y >= at.y
        }),
{
}

/// How far a screen is in a direction is the gap along it; how far it is off the
/// line is the gap across it.
pub proof fn law_distance_in_a_direction(
    frame: CGRect,
    at: CGPoint,
    direction: Direction,
    along: int,
    off: int,
)
    requires
        directed(frame, at, direction) == Some((along, off)),
        frame.size.width >= 0,
        frame.size.height >= 0,
    ensures
        along >= 0,
        off >= 0,
        direction is Left ==> along == at.x - (frame.origin.x + frame.size.width),
        direction is Right ==> along == frame.origin.x - at.x,
        direction is Up ==> along == at.y - (frame.origin.y + frame.size.height),
        direction is Down ==> along == frame.origin.y - at.y,
        direction is Left || direction is Right ==> {
            &&& at.y < frame.origin.y ==> off == frame.origin.y - at.y
            &&& at.y > frame.origin.y + frame.size.height ==> off == at.y - (frame.origin.y
                + frame.size.height)
            &&& frame.origin.y <= at.y <= frame.origin.y + frame.size.height ==> off == 0
        },
        direction is Up || direction is Down ==> {
            &&& at.x < frame.origin.x ==> off == frame.origin.x - at.x
            &&& at.x > frame.origin.x + frame.size.width ==> off == at.x - (frame.origin.x
                + frame.size.width)
            &&& frame.origin.x <= at.x <= frame.origin.x + frame.size.width ==> off == 0
        },
{
}

/// A direction names the screen least off the line, then the nearest, then the one
/// listed first; the search starts at the origin given, else at the current centre.
pub proof fn law_direction_names_the_nearest_screen(
    m: ReactorModel,
    direction: Direction,
    origin: Option<CGPoint>,
    at: CGPoint,
    i: int,
)
    requires
        origin == Some(at) || (origin is None && m.current_centre() == Some(at)),
        0 <= i < m.world.screens.len(),
        directed(m.world.screens[i].frame, at, direction) is Some,
        forall|j: int|
            0 <= j < m.world.screens.len() && j != i ==> (directed(
                (#[trigger] m.world.screens[j]).frame,
                at,
                direction,
            ) matches Some((along, off)) ==> {
                let (my_along, my_off) = directed(m.world.screens[i].frame, at, direction)->0;
                my_off < off || (my_off == off && (my_along < along || (my_along == along && i
                    < j)))
            }),
    ensures
        m.selected_screen(DisplaySelector::Direction(direction), origin) == Some(
            m.world.screens[i],
        ),
{
    lemma_nearest_is(m.world.screens, at, direction, m.world.screens.len() as int, i);
}

proof fn lemma_nearest_is(
    screens: Seq<ScreenInfo>,
    at: CGPoint,
    direction: Direction,
    count: int,
    i: int,
)
    requires
        0 <= i < count <= screens.len(),
        directed(screens[i].frame, at, direction) is Some,
        forall|j: int|
            0 <= j < count && j != i ==> (directed(
                (#[trigger] screens[j]).frame,
                at,
                direction,
            ) matches Some((along, off)) ==> {
                let (my_along, my_off) = directed(screens[i].frame, at, direction)->0;
                my_off < off || (my_off == off && (my_along < along || (my_along == along && i
                    < j)))
            }),
    ensures
        nearest_screen(screens, at, direction, count) == Some(i),
    decreases count,
{
    let last = screens[count - 1];
    if i < count - 1 {
        lemma_nearest_is(screens, at, direction, count - 1, i);
        assert(last.frame == screens[count - 1].frame);
    } else {
        crate::actor::reactor::lemma_nearest_screen(screens, at, direction, count - 1);
        if let Some(b) = nearest_screen(screens, at, direction, count - 1) {
            assert(screens[b].frame == screens[b].frame);
        }
    }
}

/// Where no screen lies in the direction, or there is nowhere to start from, a
/// direction names none.
pub proof fn law_direction_may_name_no_screen(
    m: ReactorModel,
    direction: Direction,
    origin: Option<CGPoint>,
)
    requires
        forall|j: int, at: CGPoint|
            0 <= j < m.world.screens.len() && (origin == Some(at) || (origin is None
                && m.current_centre() == Some(at))) ==> #[trigger] directed(
                m.world.screens[j].frame,
                at,
                direction,
            ) is None,
    ensures
        m.selected_screen(DisplaySelector::Direction(direction), origin) is None,
{
    let start = if origin is Some {
        origin
    } else {
        m.current_centre()
    };
    if let Some(at) = start {
        crate::actor::reactor::lemma_nearest_screen(
            m.world.screens,
            at,
            direction,
            m.world.screens.len() as int,
        );
    }
}

} // verus!
