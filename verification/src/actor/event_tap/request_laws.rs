//! What each request comes to, over the request and the tap's own fields.

use vstd::prelude::*;

use crate::actor::event_tap::state::{modifiers_ok, StateModel};
use crate::actor::event_tap::tap::{
    after_mask_check, after_request, binding_table, initial_tap, modes_map, paired, shown_spaces,
    with_binding, with_expansions, with_resolved, TapModel,
};
use crate::actor::event_tap::{
    CoordinateConverter, LayoutMode, Request, ResolvedHotkey, TapAction, TapConfig, WmCommand,
};
use crate::ids::SpaceId;
use crate::sys::geometry::{CGPoint, CGRect};
use crate::sys::hotkey::{Hotkey, KeyCode, Modifiers};

verus! {

/// The mask wanted: buttons and drags always; moves while events are processed and
/// the stack line or focus follows mouse needs them; keys while a hotkey is bound or
/// one suspends focus follows mouse.
pub open spec fn wanted_mask(t: TapModel) -> int {
    0xDE + (if t.state.event_processing_enabled && (t.state.stack_line_enabled || (
    t.state.ffm_config_enabled && t.state.ffm_enabled)) {
        0x20int
    } else {
        0
    }) + (if t.disable_hotkey is Some || t.hotkeys.len() > 0 {
        0x1C00int
    } else {
        0
    })
}

/// A tap with another mask is asked for exactly where the mask wanted is not the one
/// installed; nothing else changes.
pub proof fn law_mask_is_kept_up_to_date(t: TapModel)
    ensures
        t.event_mask == wanted_mask(t) ==> after_mask_check(t) == t,
        t.event_mask != wanted_mask(t) ==> after_mask_check(t) == (TapModel {
            outbox: t.outbox.push(TapAction::RebuildTap(wanted_mask(t) as u64)),
            ..t
        }),
{
}

/// A warp is asked for as it was requested; then the cursor is hidden, where focus
/// changes hide it and it is not hidden already.
pub proof fn law_warp_requests(t: TapModel, point: CGPoint, held: Modifiers)
    ensures
        ({
            let plain = after_request(t, Request::Warp(point), held);
            let silent = after_request(t, Request::WarpSilent(point), held);
            let hides = t.state.mouse_hides_on_focus && !t.state.hidden;
            &&& hides ==> plain.outbox == t.outbox.push(TapAction::WarpMouse(point)).push(
                TapAction::HideMouse,
            ) && silent.outbox == t.outbox.push(TapAction::WarpMouseSilent(point)).push(
                TapAction::HideMouse,
            )
            &&& !hides ==> plain.outbox == t.outbox.push(TapAction::WarpMouse(point))
                && silent.outbox == t.outbox.push(TapAction::WarpMouseSilent(point))
            &&& plain.state == (StateModel { hidden: t.state.hidden || hides, ..t.state })
            &&& silent.state == plain.state
        }),
{
}

/// Hiding is enforced only where the cursor is hidden and focus changes hide it.
pub proof fn law_hiding_is_enforced(t: TapModel, held: Modifiers)
    ensures
        t.state.hidden && t.state.mouse_hides_on_focus ==> after_request(
            t,
            Request::EnforceHidden,
            held,
        ) == (TapModel { outbox: t.outbox.push(TapAction::HideMouse), ..t }),
        !(t.state.hidden && t.state.mouse_hides_on_focus) ==> after_request(
            t,
            Request::EnforceHidden,
            held,
        ) == t,
{
}

proof fn lemma_shown_spaces(screens: Seq<(CGRect, Option<SpaceId>)>)
    ensures
        shown_spaces(screens) == screens.filter(
            |s: (CGRect, Option<SpaceId>)| s.1 is Some,
        ).map_values(|s: (CGRect, Option<SpaceId>)| (s.0, s.1->0)),
    decreases screens.len(),
{
    reveal(Seq::filter);
    let f = |s: (CGRect, Option<SpaceId>)| s.1 is Some;
    let g = |s: (CGRect, Option<SpaceId>)| (s.0, s.1->0);
    if screens.len() > 0 {
        lemma_shown_spaces(screens.drop_last());
        assert(shown_spaces(screens) =~= screens.filter(f).map_values(g));
    } else {
        assert(screens.filter(f).map_values(g) =~= Seq::empty());
    }
}

/// New screens replace the old ones: all frames in order, and the spaces of those
/// that show one, in order; the height to flip by is taken over.
pub proof fn law_new_screens(
    t: TapModel,
    screens: Vec<(CGRect, Option<SpaceId>)>,
    converter: CoordinateConverter,
    held: Modifiers,
)
    ensures
        ({
            let after = after_request(
                t,
                Request::ScreenParametersChanged(screens, converter),
                held,
            );
            &&& after.state.screens.len() == screens@.len()
            &&& forall|i: int|
                0 <= i < screens@.len() ==> #[trigger] after.state.screens[i] == screens@[i].0
            &&& after.state.screen_spaces == screens@.filter(
                |s: (CGRect, Option<SpaceId>)| s.1 is Some,
            ).map_values(|s: (CGRect, Option<SpaceId>)| (s.0, s.1->0))
            &&& after.state.converter == converter
            &&& after == (TapModel {
                state: StateModel {
                    screens: after.state.screens,
                    screen_spaces: after.state.screen_spaces,
                    converter,
                    ..t.state
                },
                ..t
            })
        }),
{
    lemma_shown_spaces(screens@);
}

/// New spaces go to the screens in order: each screen known gets the space in its
/// place, where there is one; screens without one are left out.
pub proof fn law_new_spaces(t: TapModel, spaces: Vec<Option<SpaceId>>, held: Modifiers)
    requires
        spaces@.len() == t.state.screens.len(),
        forall|i: int| 0 <= i < spaces@.len() ==> #[trigger] spaces@[i] is Some,
    ensures
        ({
            let after = after_request(t, Request::SpaceChanged(spaces), held);
            &&& after.state.screen_spaces.len() == spaces@.len()
            &&& forall|i: int|
                0 <= i < spaces@.len() ==> #[trigger] after.state.screen_spaces[i] == (
                    t.state.screens[i],
                    spaces@[i]->0,
                )
            &&& after == (TapModel {
                state: StateModel { screen_spaces: after.state.screen_spaces, ..t.state },
                ..t
            })
        }),
{
    let pairs = paired(t.state.screens, spaces@);
    assert forall|i: int| 0 <= i < pairs.len() implies (#[trigger] pairs[i]).1 is Some by {
        assert(spaces@[i] is Some);
    }
    lemma_all_shown(pairs);
}

proof fn lemma_all_shown(screens: Seq<(CGRect, Option<SpaceId>)>)
    requires
        forall|i: int| 0 <= i < screens.len() ==> (#[trigger] screens[i]).1 is Some,
    ensures
        shown_spaces(screens).len() == screens.len(),
        forall|i: int|
            0 <= i < screens.len() ==> #[trigger] shown_spaces(screens)[i] == (
                screens[i].0,
                screens[i].1->0,
            ),
    decreases screens.len(),
{
    if screens.len() > 0 {
        let fewer = screens.drop_last();
        assert forall|i: int| 0 <= i < fewer.len() implies (#[trigger] fewer[i]).1 is Some by {
            assert(fewer[i] == screens[i]);
        }
        lemma_all_shown(fewer);
        assert(screens[screens.len() - 1].1 is Some);
    }
}

/// A space is shown on a screen after a change of spaces exactly where it stands in
/// the screen's place of the list.
pub proof fn law_which_screens_show_a_space(
    t: TapModel,
    spaces: Vec<Option<SpaceId>>,
    held: Modifiers,
    frame: CGRect,
    space: SpaceId,
)
    ensures
        after_request(t, Request::SpaceChanged(spaces), held).state.screen_spaces.contains(
            (frame, space),
        ) <==> exists|i: int|
            0 <= i < t.state.screens.len() && i < spaces@.len() && #[trigger] t.state.screens[i]
                == frame && spaces@[i] == Some(space),
{
    let pairs = paired(t.state.screens, spaces@);
    lemma_shown_contains(pairs, frame, space);
    if exists|i: int|
        0 <= i < t.state.screens.len() && i < spaces@.len() && #[trigger] t.state.screens[i]
            == frame && spaces@[i] == Some(space) {
        let i = choose|i: int|
            0 <= i < t.state.screens.len() && i < spaces@.len() && #[trigger] t.state.screens[i]
                == frame && spaces@[i] == Some(space);
        assert(pairs[i] == (frame, Some(space)));
    }
    if exists|i: int| 0 <= i < pairs.len() && #[trigger] pairs[i] == (frame, Some(space)) {
        let i = choose|i: int| 0 <= i < pairs.len() && #[trigger] pairs[i] == (frame, Some(space));
        assert(t.state.screens[i] == frame);
    }
}

proof fn lemma_shown_contains(
    screens: Seq<(CGRect, Option<SpaceId>)>,
    frame: CGRect,
    space: SpaceId,
)
    ensures
        shown_spaces(screens).contains((frame, space)) <==> exists|i: int|
            0 <= i < screens.len() && #[trigger] screens[i] == (frame, Some(space)),
    decreases screens.len(),
{
    if screens.len() > 0 {
        let fewer = screens.drop_last();
        lemma_shown_contains(fewer, frame, space);
        let before = shown_spaces(fewer);
        let now = shown_spaces(screens);
        if before.contains((frame, space)) {
            let k = choose|k: int| 0 <= k < before.len() && before[k] == (frame, space);
            assert(now[k] == (frame, space));
            let i = choose|i: int| 0 <= i < fewer.len() && #[trigger] fewer[i] == (
                frame,
                Some(space),
            );
            assert(screens[i] == (frame, Some(space)));
        }
        if screens.last() == (frame, Some(space)) {
            assert(now[before.len() as int] == (frame, space));
            assert(screens[screens.len() - 1] == (frame, Some(space)));
        }
        if now.contains((frame, space)) && !before.contains((frame, space)) {
            let k = choose|k: int| 0 <= k < now.len() && now[k] == (frame, space);
            if k < before.len() {
                assert(before[k] == (frame, space));
            }
            assert(screens[screens.len() - 1] == (frame, Some(space)));
        }
        if exists|i: int| 0 <= i < screens.len() && #[trigger] screens[i] == (frame, Some(space)) {
            let i = choose|i: int| 0 <= i < screens.len() && #[trigger] screens[i] == (
                frame,
                Some(space),
            );
            if i < fewer.len() {
                assert(fewer[i] == (frame, Some(space)));
            }
        }
    }
}

/// Switching the processing of events off forgets the raise that waits; switching it
/// on forgets all that was hovered and starts sampling anew. The mask follows.
pub proof fn law_processing_is_switched(t: TapModel, held: Modifiers)
    ensures
        ({
            let off = StateModel {
                event_processing_enabled: false,
                pending_ffm_raise: None,
                ..t.state
            };
            let on = StateModel {
                event_processing_enabled: true,
                pending_ffm_raise: None,
                above_window: None,
                last_loc: None,
                last_timestamp: 0,
                ..t.state
            };
            &&& after_request(t, Request::SetEventProcessing(false), held) == after_mask_check(
                TapModel { state: off, ..t },
            )
            &&& after_request(t, Request::SetEventProcessing(true), held) == after_mask_check(
                TapModel { state: on, ..t },
            )
        }),
{
}

/// So it is with focus follows mouse, where the switch changes it; else nothing
/// happens.
pub proof fn law_focus_follows_mouse_is_switched(t: TapModel, held: Modifiers)
    ensures
        ({
            let off = StateModel { ffm_enabled: false, pending_ffm_raise: None, ..t.state };
            let on = StateModel {
                ffm_enabled: true,
                pending_ffm_raise: None,
                above_window: None,
                last_loc: None,
                last_timestamp: 0,
                ..t.state
            };
            &&& t.state.ffm_enabled ==> after_request(
                t,
                Request::SetFocusFollowsMouseEnabled(false),
                held,
            ) == after_mask_check(TapModel { state: off, ..t })
            &&& !t.state.ffm_enabled ==> after_request(
                t,
                Request::SetFocusFollowsMouseEnabled(true),
                held,
            ) == after_mask_check(TapModel { state: on, ..t })
            &&& t.state.ffm_enabled ==> after_request(
                t,
                Request::SetFocusFollowsMouseEnabled(true),
                held,
            ) == t
            &&& !t.state.ffm_enabled ==> after_request(
                t,
                Request::SetFocusFollowsMouseEnabled(false),
                held,
            ) == t
        }),
{
}

/// A change of the power mode starts sampling anew; no change changes nothing.
pub proof fn law_power_mode_is_switched(t: TapModel, enabled: bool, held: Modifiers)
    ensures
        t.state.low_power_mode != enabled ==> after_request(
            t,
            Request::SetLowPowerMode(enabled),
            held,
        ) == (TapModel {
            state: StateModel {
                low_power_mode: enabled,
                last_loc: None,
                last_timestamp: 0,
                ..t.state
            },
            ..t
        }),
        t.state.low_power_mode == enabled ==> after_request(
            t,
            Request::SetLowPowerMode(enabled),
            held,
        ) == t,
{
}

/// The layout modes are replaced: a space has the mode it is listed with last, and
/// one not listed has none.
pub proof fn law_new_layout_modes(
    t: TapModel,
    modes: Vec<(SpaceId, LayoutMode)>,
    held: Modifiers,
    space: SpaceId,
    i: int,
)
    requires
        -1 <= i < modes@.len(),
        i >= 0 ==> modes@[i].0 == space,
        forall|j: int| i < j < modes@.len() ==> (#[trigger] modes@[j]).0 != space,
    ensures
        ({
            let after = after_request(t, Request::LayoutModesChanged(modes), held);
            &&& i >= 0 ==> after.state.layout_modes.dom().contains(space)
                && after.state.layout_modes[space] == modes@[i].1
            &&& i < 0 ==> !after.state.layout_modes.dom().contains(space)
            &&& after == (TapModel {
                state: StateModel { layout_modes: after.state.layout_modes, ..t.state },
                ..t
            })
        }),
{
    lemma_modes(modes@, space, i);
}

proof fn lemma_modes(modes: Seq<(SpaceId, LayoutMode)>, space: SpaceId, i: int)
    requires
        -1 <= i < modes.len(),
        i >= 0 ==> modes[i].0 == space,
        forall|j: int| i < j < modes.len() ==> (#[trigger] modes[j]).0 != space,
    ensures
        i >= 0 ==> modes_map(modes).dom().contains(space) && modes_map(modes)[space] == modes[i].1,
        i < 0 ==> !modes_map(modes).dom().contains(space),
    decreases modes.len(),
{
    if modes.len() > 0 && i < modes.len() - 1 {
        let fewer = modes.drop_last();
        assert forall|j: int| i < j < fewer.len() implies (#[trigger] fewer[j]).0 != space by {
            assert(fewer[j] == modes[j]);
        }
        assert(modes[modes.len() - 1].0 != space);
        lemma_modes(fewer, space, i);
    }
}

// ---------------------------------------------------------------------------
// Bindings
// ---------------------------------------------------------------------------

/// What a description stands for: the hotkey itself, or, where it leaves a side open,
/// its key under each of the modifier sets.
pub open spec fn stands_for(r: ResolvedHotkey, hotkey: Hotkey) -> bool {
    match r.expansions {
        None => hotkey == r.hotkey,
        Some(sets) => hotkey.key_code == r.hotkey.key_code && exists|k: int|
            0 <= k < sets@.len() && #[trigger] sets@[k] == hotkey.modifiers,
    }
}

/// A command is bound to a hotkey exactly where one of its descriptions stands for
/// that hotkey. Descriptions that mean nothing on the layout bind nothing.
pub proof fn law_what_is_bound(
    specs: Seq<(Seq<char>, WmCommand)>,
    resolved: Seq<Option<ResolvedHotkey>>,
    hotkey: Hotkey,
    command: WmCommand,
)
    ensures
        binding_table(specs, resolved, specs.len() as int).contains((hotkey, command))
            <==> exists|i: int|
            0 <= i < specs.len() && i < resolved.len() && (#[trigger] specs[i]).1 == command && (
            resolved[i] matches Some(r) && stands_for(r, hotkey)),
{
    lemma_bound(specs, resolved, specs.len() as int, hotkey, command);
}

proof fn lemma_bound(
    specs: Seq<(Seq<char>, WmCommand)>,
    resolved: Seq<Option<ResolvedHotkey>>,
    count: int,
    hotkey: Hotkey,
    command: WmCommand,
)
    requires
        0 <= count <= specs.len(),
    ensures
        binding_table(specs, resolved, count).contains((hotkey, command)) <==> exists|i: int|
            0 <= i < count && i < resolved.len() && (#[trigger] specs[i]).1 == command && (
            resolved[i] matches Some(r) && stands_for(r, hotkey)),
    decreases count,
{
    if count > 0 {
        lemma_bound(specs, resolved, count - 1, hotkey, command);
        let before = binding_table(specs, resolved, count - 1);
        let now = binding_table(specs, resolved, count);
        let own = specs[count - 1].1;
        if count - 1 < resolved.len() {
            lemma_resolved(before, resolved[count - 1], own, hotkey, command);
            if resolved[count - 1] is Some && stands_for(resolved[count - 1]->0, hotkey) && own
                == command {
                assert(specs[count - 1].1 == command);
            }
        }
        if before.contains((hotkey, command)) {
            let i = choose|i: int|
                0 <= i < count - 1 && i < resolved.len() && (#[trigger] specs[i]).1 == command && (
                resolved[i] matches Some(r) && stands_for(r, hotkey));
            assert(specs[i].1 == command);
        }
    }
}

proof fn lemma_resolved(
    table: Seq<(Hotkey, WmCommand)>,
    resolved: Option<ResolvedHotkey>,
    own: WmCommand,
    hotkey: Hotkey,
    command: WmCommand,
)
    ensures
        with_resolved(table, resolved, own).contains((hotkey, command)) <==> table.contains(
            (hotkey, command),
        ) || (own == command && (resolved matches Some(r) && stands_for(r, hotkey))),
{
    if let Some(r) = resolved {
        match r.expansions {
            None => lemma_binding(table, r.hotkey, own, hotkey, command),
            Some(sets) => lemma_expansions(table, sets@, r.hotkey.key_code, own, hotkey, command),
        }
    }
}

proof fn lemma_binding(
    table: Seq<(Hotkey, WmCommand)>,
    bound: Hotkey,
    own: WmCommand,
    hotkey: Hotkey,
    command: WmCommand,
)
    ensures
        with_binding(table, bound, own).contains((hotkey, command)) <==> table.contains(
            (hotkey, command),
        ) || (bound == hotkey && own == command),
{
    let now = with_binding(table, bound, own);
    if table.contains((hotkey, command)) {
        let k = choose|k: int| 0 <= k < table.len() && table[k] == (hotkey, command);
        assert(now[k] == (hotkey, command));
    }
    if bound == hotkey && own == command && !table.contains((hotkey, command)) {
        assert(now[table.len() as int] == (hotkey, command));
    }
    if now.contains((hotkey, command)) {
        let k = choose|k: int| 0 <= k < now.len() && now[k] == (hotkey, command);
        if k < table.len() {
            assert(table[k] == (hotkey, command));
        }
    }
}

proof fn lemma_expansions(
    table: Seq<(Hotkey, WmCommand)>,
    sets: Seq<Modifiers>,
    key_code: KeyCode,
    own: WmCommand,
    hotkey: Hotkey,
    command: WmCommand,
)
    ensures
        with_expansions(table, sets, key_code, own).contains((hotkey, command)) <==> table.contains(
            (hotkey, command),
        ) || (own == command && hotkey.key_code == key_code && exists|k: int|
            0 <= k < sets.len() && #[trigger] sets[k] == hotkey.modifiers),
    decreases sets.len(),
{
    if sets.len() > 0 {
        let fewer = sets.drop_last();
        lemma_expansions(table, fewer, key_code, own, hotkey, command);
        lemma_binding(
            with_expansions(table, fewer, key_code, own),
            Hotkey { modifiers: sets.last(), key_code },
            own,
            hotkey,
            command,
        );
        if exists|k: int| 0 <= k < fewer.len() && #[trigger] fewer[k] == hotkey.modifiers {
            let k = choose|k: int| 0 <= k < fewer.len() && #[trigger] fewer[k] == hotkey.modifiers;
            assert(sets[k] == hotkey.modifiers);
        }
        if exists|k: int| 0 <= k < sets.len() && #[trigger] sets[k] == hotkey.modifiers {
            let k = choose|k: int| 0 <= k < sets.len() && #[trigger] sets[k] == hotkey.modifiers;
            if k < fewer.len() {
                assert(fewer[k] == hotkey.modifiers);
            }
        }
        if sets.last() == hotkey.modifiers {
            assert(sets[sets.len() - 1] == hotkey.modifiers);
        }
    }
}

/// Bindings stand in the order of the descriptions that gave them: those of further
/// descriptions come after.
pub proof fn law_bindings_keep_the_order_of_descriptions(
    specs: Seq<(Seq<char>, WmCommand)>,
    resolved: Seq<Option<ResolvedHotkey>>,
    count: int,
)
    requires
        0 <= count <= specs.len(),
    ensures
        ({
            let some = binding_table(specs, resolved, count);
            let all = binding_table(specs, resolved, specs.len() as int);
            some.len() <= all.len() && all.take(some.len() as int) == some
        }),
{
    lemma_prefix(specs, resolved, count, specs.len() as int);
}

proof fn lemma_prefix(
    specs: Seq<(Seq<char>, WmCommand)>,
    resolved: Seq<Option<ResolvedHotkey>>,
    some: int,
    count: int,
)
    requires
        0 <= some <= count <= specs.len(),
    ensures
        ({
            let a = binding_table(specs, resolved, some);
            let b = binding_table(specs, resolved, count);
            a.len() <= b.len() && b.take(a.len() as int) == a
        }),
    decreases count,
{
    let a = binding_table(specs, resolved, some);
    let b = binding_table(specs, resolved, count);
    if some < count {
        lemma_prefix(specs, resolved, some, count - 1);
        let before = binding_table(specs, resolved, count - 1);
        if count - 1 < resolved.len() {
            if let Some(r) = resolved[count - 1] {
                if let Some(sets) = r.expansions {
                    lemma_expansions_prefix(
                        before,
                        sets@,
                        r.hotkey.key_code,
                        specs[count - 1].1,
                    );
                }
            }
        }
        assert(b.len() >= before.len() && b.take(before.len() as int) =~= before);
        assert(b.take(a.len() as int) =~= before.take(a.len() as int));
    } else {
        assert(b.take(a.len() as int) =~= a);
    }
}

proof fn lemma_expansions_prefix(
    table: Seq<(Hotkey, WmCommand)>,
    sets: Seq<Modifiers>,
    key_code: KeyCode,
    own: WmCommand,
)
    ensures
        ({
            let now = with_expansions(table, sets, key_code, own);
            now.len() >= table.len() && now.take(table.len() as int) == table
        }),
    decreases sets.len(),
{
    let now = with_expansions(table, sets, key_code, own);
    if sets.len() > 0 {
        lemma_expansions_prefix(table, sets.drop_last(), key_code, own);
        let before = with_expansions(table, sets.drop_last(), key_code, own);
        assert(now.take(table.len() as int) =~= before.take(table.len() as int));
    } else {
        assert(now.take(table.len() as int) =~= table);
    }
}

/// New bindings replace all old ones, and the mask follows.
pub proof fn law_new_hotkeys(
    t: TapModel,
    bindings: Vec<(String, WmCommand)>,
    resolved: Vec<Option<ResolvedHotkey>>,
    held: Modifiers,
    i: int,
)
    requires
        0 <= i < bindings@.len(),
    ensures
        ({
            let after = after_request(t, Request::SetHotkeys(bindings, resolved), held);
            &&& after.hotkey_specs.len() == bindings@.len()
            &&& after.hotkey_specs[i] == (bindings@[i].0@, bindings@[i].1)
            &&& after.hotkeys == binding_table(
                after.hotkey_specs,
                resolved@,
                after.hotkey_specs.len() as int,
            )
            &&& after == after_mask_check(
                TapModel { hotkey_specs: after.hotkey_specs, hotkeys: after.hotkeys, ..t },
            )
        }),
{
}

/// A new keyboard layout gives the same descriptions their new meaning, and the mask
/// follows.
pub proof fn law_new_keyboard_layout(
    t: TapModel,
    resolved: Vec<Option<ResolvedHotkey>>,
    held: Modifiers,
)
    ensures
        ({
            let after = after_request(t, Request::KeyboardLayoutChanged(resolved), held);
            &&& after.hotkey_specs == t.hotkey_specs
            &&& after.hotkeys == binding_table(
                t.hotkey_specs,
                resolved@,
                t.hotkey_specs.len() as int,
            )
            &&& after == after_mask_check(TapModel { hotkeys: after.hotkeys, ..t })
        }),
{
}

// ---------------------------------------------------------------------------
// Settings
// ---------------------------------------------------------------------------

/// New settings are taken over one for one; bindings, screens and what is pressed
/// stay.
pub proof fn law_new_settings(t: TapModel, config: TapConfig, held: Modifiers)
    ensures
        ({
            let after = after_request(t, Request::ConfigUpdated(config), held);
            &&& after.disable_hotkey == config.focus_follows_mouse_disable_hotkey
            &&& after.state.ffm_dwell_ms == config.focus_follows_mouse_dwell_ms
            &&& after.state.mouse_hides_on_focus == config.mouse_hides_on_focus
            &&& after.state.ffm_config_enabled == config.focus_follows_mouse
            &&& after.state.stack_line_enabled == config.stack_line_enabled
            &&& after.state.default_layout_mode == config.layout_mode
            &&& after.state.ffm_enabled == t.state.ffm_enabled
            &&& after.state.event_processing_enabled == t.state.event_processing_enabled
            &&& after.state.pressed_keys == t.state.pressed_keys
            &&& after.state.current_flags == t.state.current_flags
            &&& after.state.screen_spaces == t.state.screen_spaces
            &&& after.hotkeys == t.hotkeys
            &&& after.hotkey_specs == t.hotkey_specs
            &&& after.event_mask == t.event_mask
            &&& after.mouse == t.mouse
            &&& after.state.screens == t.state.screens
            &&& after.state.converter == t.state.converter
            &&& after.state.layout_modes == t.state.layout_modes
            &&& after.state.low_power_mode == t.state.low_power_mode
            &&& after.state.stuck_ticks == t.state.stuck_ticks
        }),
{
}

/// Under new settings a suspension lasts exactly while the hotkey now set for it is
/// held; without one there is none. Its end forgets what was hovered.
pub proof fn law_suspension_under_new_settings(
    t: TapModel,
    config: TapConfig,
    held: Modifiers,
    target: Hotkey,
)
    ensures
        ({
            let after = after_request(t, Request::ConfigUpdated(config), held).state;
            let ended = t.state.disable_hotkey_active && !after.disable_hotkey_active;
            &&& config.focus_follows_mouse_disable_hotkey is None ==> !after.disable_hotkey_active
            &&& config.focus_follows_mouse_disable_hotkey == Some(target) ==> {
                let key = target.key_code;
                after.disable_hotkey_active <==> modifiers_ok(target.modifiers, held) && (
                if key.modifier {
                    key.flag is Some && t.state.current_flags.bits & key.flag->0.bits
                        == key.flag->0.bits
                } else {
                    t.state.pressed_keys.contains(key)
                })
            }
            &&& ended ==> after.above_window is None && after.pending_ffm_raise is None
                && after.last_loc is None
            &&& !ended ==> after.above_window == t.state.above_window && after.pending_ffm_raise
                == t.state.pending_ffm_raise && after.last_loc == t.state.last_loc
        }),
{
}

/// Settings that no longer hide the cursor show it, where it is hidden; the mask is
/// seen to last.
pub proof fn law_cursor_under_new_settings(t: TapModel, config: TapConfig, held: Modifiers)
    ensures
        ({
            let after = after_request(t, Request::ConfigUpdated(config), held);
            let shows = t.state.mouse_hides_on_focus && !config.mouse_hides_on_focus
                && t.state.hidden;
            let shown = if shows {
                t.outbox.push(TapAction::ShowMouse)
            } else {
                t.outbox
            };
            &&& after.state.hidden == (t.state.hidden && !shows)
            &&& t.event_mask == wanted_mask(after) ==> after.outbox == shown
            &&& t.event_mask != wanted_mask(after) ==> after.outbox == shown.push(
                TapAction::RebuildTap(wanted_mask(after) as u64),
            )
        }),
{
}

/// A new tap processes no events yet, follows the mouse as configured, has nothing
/// pressed, hovered, bound or hidden, and is installed with the mask it wants.
pub proof fn law_new_tap(config: TapConfig, low_power_mode: bool, held: Modifiers)
    ensures
        ({
            let t = initial_tap(config, low_power_mode, held);
            &&& !t.state.event_processing_enabled
            &&& t.state.ffm_enabled
            &&& t.state.ffm_config_enabled == config.focus_follows_mouse
            &&& t.state.ffm_dwell_ms == config.focus_follows_mouse_dwell_ms
            &&& t.state.mouse_hides_on_focus == config.mouse_hides_on_focus
            &&& t.state.stack_line_enabled == config.stack_line_enabled
            &&& t.state.default_layout_mode == config.layout_mode
            &&& t.state.low_power_mode == low_power_mode
            &&& t.disable_hotkey == config.focus_follows_mouse_disable_hotkey
            &&& t.state.pressed_keys == Set::<KeyCode>::empty()
            &&& t.state.current_flags.bits == 0
            &&& t.state.above_window is None
            &&& t.state.pending_ffm_raise is None
            &&& t.state.last_loc is None
            &&& !t.state.hidden
            &&& t.hotkeys.len() == 0
            &&& t.hotkey_specs.len() == 0
            &&& t.state.screens.len() == 0
            &&& t.state.screen_spaces.len() == 0
            &&& t.state.layout_modes.dom() == Set::<SpaceId>::empty()
            &&& t.state.stuck_ticks == 0
            &&& t.outbox.len() == 0
            &&& t.mouse.state() is None
            &&& t.event_mask == wanted_mask(t)
            &&& config.focus_follows_mouse_disable_hotkey is None ==> !t.state.disable_hotkey_active
        }),
{
}

} // verus!
