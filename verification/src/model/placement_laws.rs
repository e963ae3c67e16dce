//! Where parked windows go, over the frames of the displays. A pixel is 48 units.

use vstd::prelude::*;

use crate::model::hidden_window_placement::{
    all_in_range, anchored, best_place, better_place, candidate_places, corner_rect,
    counts_as_hidden, first_overlapped, hidden_rect, left_edge_rect, left_neighbour,
    lemma_best_place, lemma_first_overlapped, lemma_hidden_rect_size, lemma_lowest_edge,
    lemma_moved_clear, lowest_edge, moved_clear, pushed, pushed_out, right_edge_rect,
    right_neighbour, worst_overlap, HideCorner,
};
use crate::sys::geometry::{CGRect, CGSize, COORD_LIMIT};

verus! {

/// The opposite corner is on the same edge above or below, at its other end.
pub proof fn law_opposite_corners()
    ensures
        HideCorner::TopLeft.mirrored() == HideCorner::TopRight,
        HideCorner::TopRight.mirrored() == HideCorner::TopLeft,
        HideCorner::BottomLeft.mirrored() == HideCorner::BottomRight,
        HideCorner::BottomRight.mirrored() == HideCorner::BottomLeft,
{
}

/// Where a display whose vertical extent meets that of the screen lies wholly left
/// of it and another such wholly right of it, a window becomes the one-pixel square
/// at the bottom left of the screen, whatever its size and the corner asked for.
pub proof fn law_boxed_in_windows_become_a_strip(
    screen: CGRect,
    size: CGSize,
    corner: HideCorner,
    others: Seq<CGRect>,
    i: int,
    j: int,
)
    requires
        screen.in_range(),
        0 <= i < others.len(),
        0 <= j < others.len(),
        others[i].origin.y < screen.origin.y + screen.size.height,
        screen.origin.y < others[i].origin.y + others[i].size.height,
        others[i].origin.x + others[i].size.width <= screen.origin.x,
        others[j].origin.y < screen.origin.y + screen.size.height,
        screen.origin.y < others[j].origin.y + others[j].size.height,
        others[j].origin.x >= screen.origin.x + screen.size.width,
    ensures
        ({
            let r = hidden_rect(screen, size, corner, others);
            &&& r.origin.x == screen.origin.x
            &&& r.origin.y == screen.origin.y + screen.size.height - 48
            &&& r.size.width == 48
            &&& r.size.height == 48
        }),
{
    assert(left_neighbour(screen, others[i]));
    assert(right_neighbour(screen, others[j]));
}

/// `screen` has no display beside it on the left, or none on the right, whose
/// vertical extent meets its own.
pub open spec fn open_to_a_side(screen: CGRect, others: Seq<CGRect>) -> bool {
    ||| forall|k: int|
        0 <= k < others.len() ==> {
            let o = #[trigger] others[k];
            o.origin.y >= screen.origin.y + screen.size.height || screen.origin.y >= o.origin.y
                + o.size.height || o.origin.x + o.size.width > screen.origin.x
        }
    ||| forall|k: int|
        0 <= k < others.len() ==> {
            let o = #[trigger] others[k];
            o.origin.y >= screen.origin.y + screen.size.height || screen.origin.y >= o.origin.y
                + o.size.height || o.origin.x < screen.origin.x + screen.size.width
        }
}

/// A screen that is open to a side keeps the sizes of its windows, and a parked
/// window shares no area with any other display.
pub proof fn law_windows_on_an_open_screen(
    screen: CGRect,
    size: CGSize,
    corner: HideCorner,
    others: Seq<CGRect>,
    k: int,
)
    requires
        screen.in_range(),
        size.within(COORD_LIMIT as int),
        all_in_range(others),
        open_to_a_side(screen, others),
        0 <= k < others.len(),
    ensures
        hidden_rect(screen, size, corner, others).size == size,
        !others[k].overlaps(hidden_rect(screen, size, corner, others)),
{
    lemma_not_boxed_in(screen, others);
    lemma_hidden_rect_size(screen, size, corner, others);
    crate::model::hidden_window_placement::law_parked_window_is_clear_of_other_displays(
        screen,
        size,
        corner,
        others,
    );
}

proof fn lemma_not_boxed_in(screen: CGRect, others: Seq<CGRect>)
    requires
        open_to_a_side(screen, others),
    ensures
        !crate::model::hidden_window_placement::boxed_in(screen, others),
{
    if crate::model::hidden_window_placement::boxed_in(screen, others) {
        let i = choose|i: int|
            0 <= i < others.len() && #[trigger] left_neighbour(screen, others[i]);
        let j = choose|j: int|
            0 <= j < others.len() && #[trigger] right_neighbour(screen, others[j]);
        let a = others[i];
        let b = others[j];
    }
}

/// Alone, a screen parks a window at the corner asked for, with one pixel in view.
pub proof fn law_corner_of_a_single_screen(screen: CGRect, size: CGSize, corner: HideCorner)
    requires
        screen.in_range(),
        size.within(COORD_LIMIT as int),
        screen.size.width >= 48,
        screen.size.height >= 48,
        size.width >= 48,
        size.height >= 48,
    ensures
        ({
            let r = hidden_rect(screen, size, corner, Seq::empty());
            &&& r.size == size
            &&& corner is TopLeft || corner is BottomLeft ==> r.origin.x + size.width
                == screen.origin.x + 48
            &&& corner is TopRight || corner is BottomRight ==> r.origin.x == screen.origin.x
                + screen.size.width - 48
            &&& corner is TopLeft || corner is TopRight ==> r.origin.y + size.height
                == screen.origin.y + 48
            &&& corner is BottomLeft || corner is BottomRight ==> r.origin.y == screen.origin.y
                + screen.size.height - 48
        }),
{
    crate::model::hidden_window_placement::law_single_display_uses_the_requested_corner(
        screen,
        size,
        corner,
    );
}

proof fn lemma_worst_overlap(others: Seq<CGRect>, rect: CGRect)
    ensures
        worst_overlap(others, rect) >= 0,
        (forall|k: int| 0 <= k < others.len() ==> !(#[trigger] others[k]).overlaps(rect))
            ==> worst_overlap(others, rect) == 0,
        forall|k: int|
            0 <= k < others.len() ==> (#[trigger] others[k]).shared_area(rect) <= worst_overlap(
                others,
                rect,
            ),
    decreases others.len(),
{
    if others.len() > 0 {
        let fewer = others.drop_last();
        lemma_worst_overlap(fewer, rect);
        let last = others.last();
        let w = last.shared_width(rect);
        let h = last.shared_height(rect);
        assert(w == 0 || h == 0 ==> w * h == 0) by (nonlinear_arith);
        if forall|k: int| 0 <= k < others.len() ==> !(#[trigger] others[k]).overlaps(rect) {
            assert forall|k: int| 0 <= k < fewer.len() implies !(#[trigger] fewer[k]).overlaps(
                rect,
            ) by {
                assert(fewer[k] == others[k]);
            }
            assert(!others[others.len() - 1].overlaps(rect));
        }
        assert forall|k: int| 0 <= k < others.len() implies (#[trigger] others[k]).shared_area(rect)
            <= worst_overlap(others, rect) by {
            if k < fewer.len() {
                assert(fewer[k] == others[k]);
            }
        }
    }
}

/// The overlap of a place is the greatest area it shares with one other display.
pub proof fn law_overlap_of_a_place(others: Seq<CGRect>, rect: CGRect, k: int)
    requires
        0 <= k < others.len(),
    ensures
        others[k].shared_area(rect) <= worst_overlap(others, rect),
        worst_overlap(others, rect) == 0 || exists|h: int|
            0 <= h < others.len() && (#[trigger] others[h]).shared_area(rect) == worst_overlap(
                others,
                rect,
            ),
{
    lemma_worst_overlap(others, rect);
    lemma_worst_is_reached(others, rect);
}

proof fn lemma_worst_is_reached(others: Seq<CGRect>, rect: CGRect)
    ensures
        worst_overlap(others, rect) == 0 || exists|h: int|
            0 <= h < others.len() && (#[trigger] others[h]).shared_area(rect) == worst_overlap(
                others,
                rect,
            ),
    decreases others.len(),
{
    if others.len() > 0 {
        let fewer = others.drop_last();
        lemma_worst_is_reached(fewer, rect);
        if worst_overlap(others, rect) == others.last().shared_area(rect) {
            assert(others[others.len() - 1] == others.last());
        } else if worst_overlap(fewer, rect) != 0 {
            let h = choose|h: int|
                0 <= h < fewer.len() && (#[trigger] fewer[h]).shared_area(rect) == worst_overlap(
                    fewer,
                    rect,
                );
            assert(others[h] == fewer[h]);
        }
    }
}

proof fn lemma_overlapping_place(others: Seq<CGRect>, rect: CGRect, k: int)
    requires
        0 <= k < others.len(),
        others[k].overlaps(rect),
    ensures
        worst_overlap(others, rect) > 0,
{
    lemma_worst_overlap(others, rect);
    let w = others[k].shared_width(rect);
    let h = others[k].shared_height(rect);
    assert(w > 0 && h > 0 ==> w * h > 0) by (nonlinear_arith);
}

/// The area that an edge or a corner place shares with the screen.
proof fn lemma_anchors(screen: CGRect, size: CGSize, corner: HideCorner)
    requires
        screen.in_range(),
        size.within(COORD_LIMIT as int),
        screen.size.width >= 48,
        screen.size.height >= 48,
        size.width >= 48,
        size.height >= 48,
    ensures
        screen.shared_area(right_edge_rect(screen, size)) == screen.shared_area(
            left_edge_rect(screen, size),
        ),
        screen.shared_area(right_edge_rect(screen, size)) >= 2304,
        screen.shared_area(corner_rect(screen, size, corner)) == 2304,
        anchored(screen, right_edge_rect(screen, size)),
        anchored(screen, left_edge_rect(screen, size)),
        anchored(screen, corner_rect(screen, size, corner)),
{
    let right = right_edge_rect(screen, size);
    let left = left_edge_rect(screen, size);
    let at = corner_rect(screen, size, corner);
    assert(screen.shared_width(right) == 48);
    assert(screen.shared_width(left) == 48);
    assert(screen.shared_height(right) == screen.shared_height(left));
    let h = screen.shared_height(right);
    assert(h >= 48);
    assert(48 * h >= 2304) by (nonlinear_arith)
        requires
            h >= 48,
    ;
    assert(screen.shared_width(at) == 48 && screen.shared_height(at) == 48);
}

/// Every place considered shows at least a pixel.
proof fn lemma_all_anchored(screen: CGRect, size: CGSize, corner: HideCorner)
    requires
        screen.in_range(),
        size.within(COORD_LIMIT as int),
        screen.size.width >= 48,
        screen.size.height >= 48,
        size.width >= 48,
        size.height >= 48,
    ensures
        ({
            let places = candidate_places(screen, size, corner);
            &&& forall|k: int| 0 <= k < 6 ==> anchored(screen, #[trigger] places[k])
            &&& forall|k: int|
                2 <= k < 6 ==> screen.shared_area(#[trigger] places[k]) == 2304
            &&& screen.shared_area(places[0]) == screen.shared_area(places[1])
            &&& screen.shared_area(places[0]) >= 2304
        }),
{
    lemma_anchors(screen, size, corner);
    lemma_anchors(screen, size, corner.mirrored());
    lemma_anchors(screen, size, HideCorner::TopRight);
    lemma_anchors(screen, size, HideCorner::TopLeft);
}

/// The best place is the first of those that are better than none.
proof fn lemma_best_place_is(screen: CGRect, others: Seq<CGRect>, places: Seq<CGRect>, i: int)
    requires
        0 <= i < places.len(),
        forall|k: int|
            0 <= k < i ==> better_place(screen, others, places[i], #[trigger] places[k]),
        forall|k: int|
            i < k < places.len() ==> !better_place(screen, others, #[trigger] places[k], places[i]),
    ensures
        best_place(screen, others, places) == places[i],
    decreases places.len(),
{
    if places.len() > 1 {
        let fewer = places.drop_last();
        assert forall|k: int| 0 <= k < fewer.len() implies #[trigger] fewer[k] == places[k] by {}
        if i < fewer.len() {
            assert(fewer[i] == places[i]);
            lemma_best_place_is(screen, others, fewer, i);
            assert(!better_place(screen, others, places[places.len() - 1], places[i]));
        } else {
            lemma_best_place(screen, others, fewer);
            let before = best_place(screen, others, fewer);
            let k = choose|k: int| 0 <= k < fewer.len() && fewer[k] == before;
            assert(places[k] == before);
            assert(better_place(screen, others, places[i], places[k]));
        }
    }
}

proof fn lemma_clear_stays(rect: CGRect, others: Seq<CGRect>)
    requires
        forall|k: int| 0 <= k < others.len() ==> !(#[trigger] others[k]).overlaps(rect),
    ensures
        pushed_out(rect, others) == rect,
{
    lemma_first_overlapped(others, rect, 0);
    if first_overlapped(others, rect, 0) < others.len() {
        let k = first_overlapped(others, rect, 0);
        assert(others[k].overlaps(rect));
    }
}

/// Beside other displays, a window goes to the right edge of its screen, level with
/// the screen's top and with a column of a pixel in view, where that place is clear
/// of all other displays, whatever corner was asked for.
pub proof fn law_right_edge_comes_first(
    screen: CGRect,
    size: CGSize,
    corner: HideCorner,
    others: Seq<CGRect>,
)
    requires
        screen.in_range(),
        size.within(COORD_LIMIT as int),
        screen.size.width >= 48,
        screen.size.height >= 48,
        size.width >= 48,
        size.height >= 48,
        others.len() > 0,
        open_to_a_side(screen, others),
        forall|k: int|
            0 <= k < others.len() ==> !(#[trigger] others[k]).overlaps(
                right_edge_rect(screen, size),
            ),
    ensures
        ({
            let r = hidden_rect(screen, size, corner, others);
            &&& r.size == size
            &&& r.origin.x == screen.origin.x + screen.size.width - 48
            &&& r.origin.y == screen.origin.y
        }),
{
    lemma_not_boxed_in(screen, others);
    let places = candidate_places(screen, size, corner);
    lemma_all_anchored(screen, size, corner);
    lemma_worst_overlap(others, places[0]);
    assert forall|k: int| 0 < k < places.len() implies !better_place(
        screen,
        others,
        #[trigger] places[k],
        places[0],
    ) by {
        lemma_worst_overlap(others, places[k]);
        assert(anchored(screen, places[k]));
        if k >= 2 {
            assert(screen.shared_area(places[k]) == 2304);
        }
    }
    lemma_best_place_is(screen, others, places, 0);
    lemma_clear_stays(places[0], others);
}

/// Where the right edge is not clear and the left edge is, it goes to the left edge.
pub proof fn law_left_edge_comes_second(
    screen: CGRect,
    size: CGSize,
    corner: HideCorner,
    others: Seq<CGRect>,
    i: int,
)
    requires
        screen.in_range(),
        size.within(COORD_LIMIT as int),
        screen.size.width >= 48,
        screen.size.height >= 48,
        size.width >= 48,
        size.height >= 48,
        open_to_a_side(screen, others),
        0 <= i < others.len(),
        others[i].overlaps(right_edge_rect(screen, size)),
        forall|k: int|
            0 <= k < others.len() ==> !(#[trigger] others[k]).overlaps(
                left_edge_rect(screen, size),
            ),
    ensures
        ({
            let r = hidden_rect(screen, size, corner, others);
            &&& r.size == size
            &&& r.origin.x + size.width == screen.origin.x + 48
            &&& r.origin.y == screen.origin.y
        }),
{
    lemma_not_boxed_in(screen, others);
    let places = candidate_places(screen, size, corner);
    lemma_all_anchored(screen, size, corner);
    lemma_worst_overlap(others, places[1]);
    lemma_overlapping_place(others, places[0], i);
    assert(anchored(screen, places[0]) && anchored(screen, places[1]));
    assert(better_place(screen, others, places[1], places[0]));
    assert forall|k: int| 1 < k < places.len() implies !better_place(
        screen,
        others,
        #[trigger] places[k],
        places[1],
    ) by {
        lemma_worst_overlap(others, places[k]);
        assert(anchored(screen, places[k]));
        assert(screen.shared_area(places[k]) == 2304);
    }
    lemma_best_place_is(screen, others, places, 1);
    lemma_clear_stays(places[1], others);
}

/// The corners in the order in which they are tried: the one asked for, its
/// opposite, the top right, the top left.
pub open spec fn tried_corner(corner: HideCorner, n: int) -> HideCorner {
    if n == 0 {
        corner
    } else if n == 1 {
        corner.mirrored()
    } else if n == 2 {
        HideCorner::TopRight
    } else {
        HideCorner::TopLeft
    }
}

/// Where neither edge is clear, it goes to the first corner that is.
pub proof fn law_corners_come_last(
    screen: CGRect,
    size: CGSize,
    corner: HideCorner,
    others: Seq<CGRect>,
    i: int,
    j: int,
    n: int,
)
    requires
        screen.in_range(),
        size.within(COORD_LIMIT as int),
        screen.size.width >= 48,
        screen.size.height >= 48,
        size.width >= 48,
        size.height >= 48,
        open_to_a_side(screen, others),
        0 <= i < others.len(),
        others[i].overlaps(right_edge_rect(screen, size)),
        0 <= j < others.len(),
        others[j].overlaps(left_edge_rect(screen, size)),
        0 <= n < 4,
        forall|k: int|
            0 <= k < others.len() ==> !(#[trigger] others[k]).overlaps(
                corner_rect(screen, size, tried_corner(corner, n)),
            ),
        forall|e: int|
            0 <= e < n ==> exists|k: int|
                0 <= k < others.len() && (#[trigger] others[k]).overlaps(
                    corner_rect(screen, size, #[trigger] tried_corner(corner, e)),
                ),
    ensures
        hidden_rect(screen, size, corner, others) == corner_rect(
            screen,
            size,
            tried_corner(corner, n),
        ),
{
    lemma_not_boxed_in(screen, others);
    let places = candidate_places(screen, size, corner);
    lemma_all_anchored(screen, size, corner);
    let at = n + 2;
    assert(places[at] == corner_rect(screen, size, tried_corner(corner, n)));
    lemma_worst_overlap(others, places[at]);
    assert(worst_overlap(others, places[at]) == 0);
    assert forall|k: int| 0 <= k < at implies better_place(
        screen,
        others,
        places[at],
        #[trigger] places[k],
    ) by {
        assert(anchored(screen, places[k]) && anchored(screen, places[at]));
        if k == 0 {
            lemma_overlapping_place(others, places[0], i);
        } else if k == 1 {
            lemma_overlapping_place(others, places[1], j);
        } else {
            let e = k - 2;
            assert(places[k] == corner_rect(screen, size, tried_corner(corner, e)));
            let h = choose|h: int|
                0 <= h < others.len() && (#[trigger] others[h]).overlaps(
                    corner_rect(screen, size, tried_corner(corner, e)),
                );
            lemma_overlapping_place(others, places[k], h);
        }
    }
    assert forall|k: int| at < k < places.len() implies !better_place(
        screen,
        others,
        #[trigger] places[k],
        places[at],
    ) by {
        lemma_worst_overlap(others, places[k]);
        assert(anchored(screen, places[k]) && anchored(screen, places[at]));
        assert(screen.shared_area(places[k]) == 2304);
        assert(screen.shared_area(places[at]) == 2304);
    }
    lemma_best_place_is(screen, others, places, at);
    lemma_clear_stays(places[at], others);
}

/// The place that is pushed out is the best of the six: one that shows a square pixel
/// or more, where any does; among such ones one with the least overlap; and among
/// those one that shows most.
pub proof fn law_best_place_is_chosen(
    screen: CGRect,
    size: CGSize,
    corner: HideCorner,
    others: Seq<CGRect>,
    k: int,
)
    requires
        others.len() > 0,
        open_to_a_side(screen, others),
        0 <= k < 6,
    ensures
        exists|n: int|
            {
                let places = candidate_places(screen, size, corner);
                let mine = screen.shared_area(places[n]);
                let other = screen.shared_area(places[k]);
                &&& 0 <= n < 6
                &&& hidden_rect(screen, size, corner, others) == pushed_out(
                    #[trigger] candidate_places(screen, size, corner)[n],
                    others,
                )
                &&& other >= 2304 ==> mine >= 2304
                &&& (mine >= 2304 <==> other >= 2304) ==> worst_overlap(others, places[n])
                    <= worst_overlap(others, places[k])
                &&& (mine >= 2304 <==> other >= 2304) && worst_overlap(others, places[n])
                    == worst_overlap(others, places[k]) ==> mine >= other
            },
{
    lemma_not_boxed_in(screen, others);
    let places = candidate_places(screen, size, corner);
    lemma_best_place(screen, others, places);
    let best = best_place(screen, others, places);
    let n = choose|n: int| 0 <= n < places.len() && places[n] == best;
    assert(!better_place(screen, others, places[k], best));
    assert(hidden_rect(screen, size, corner, others) == pushed_out(
        candidate_places(screen, size, corner)[n],
        others,
    ));
}

/// The six places: the right and the left edge, then the corners in the order in
/// which they are tried.
pub proof fn law_places_considered(screen: CGRect, size: CGSize, corner: HideCorner, n: int)
    requires
        screen.in_range(),
        size.within(COORD_LIMIT as int),
        0 <= n < 4,
    ensures
        ({
            let places = candidate_places(screen, size, corner);
            let r = places[n + 2];
            let at = tried_corner(corner, n);
            &&& places.len() == 6
            &&& places[0].origin.x == screen.origin.x + screen.size.width - 48
            &&& places[0].origin.y == screen.origin.y
            &&& places[0].size == size
            &&& places[1].origin.x + size.width == screen.origin.x + 48
            &&& places[1].origin.y == screen.origin.y
            &&& places[1].size == size
            &&& r.size == size
            &&& at is TopLeft || at is BottomLeft ==> r.origin.x + size.width == screen.origin.x
                + 48
            &&& at is TopRight || at is BottomRight ==> r.origin.x == screen.origin.x
                + screen.size.width - 48
            &&& at is TopLeft || at is TopRight ==> r.origin.y + size.height == screen.origin.y + 48
            &&& at is BottomLeft || at is BottomRight ==> r.origin.y == screen.origin.y
                + screen.size.height - 48
        }),
{
}

/// A window clear of the other displays is not pushed.
pub proof fn law_clear_windows_are_not_pushed(rect: CGRect, others: Seq<CGRect>)
    requires
        forall|k: int| 0 <= k < others.len() ==> !(#[trigger] others[k]).overlaps(rect),
    ensures
        pushed_out(rect, others) == rect,
{
    lemma_clear_stays(rect, others);
}

/// A window on one other display is pushed a pixel clear of it, straight and by the
/// shortest way; of equally short ways left goes before right, right before up, and
/// up before down.
pub proof fn law_push_out_of_one_display(rect: CGRect, other: CGRect)
    requires
        rect.reachable(),
        other.in_range(),
        other.overlaps(rect),
    ensures
        ({
            let r = pushed_out(rect, seq![other]);
            let left = rect.origin.x + rect.size.width - other.origin.x + 48;
            let right = other.origin.x + other.size.width - rect.origin.x + 48;
            let up = rect.origin.y + rect.size.height - other.origin.y + 48;
            let down = other.origin.y + other.size.height - rect.origin.y + 48;
            &&& r.size == rect.size
            &&& left <= right && left <= up && left <= down ==> r.origin.x == rect.origin.x - left
                && r.origin.y == rect.origin.y
            &&& right < left && right <= up && right <= down ==> r.origin.x == rect.origin.x + right
                && r.origin.y == rect.origin.y
            &&& up < left && up < right && up <= down ==> r.origin.x == rect.origin.x && r.origin.y
                == rect.origin.y - up
            &&& down < left && down < right && down < up ==> r.origin.x == rect.origin.x
                && r.origin.y == rect.origin.y + down
        }),
{
    let others = seq![other];
    lemma_first_overlapped(others, rect, 0);
    assert(others[0].overlaps(rect));
    assert(first_overlapped(others, rect, 0) == 0);
    lemma_moved_clear(rect, other);
    let moved = moved_clear(rect, other);
    lemma_first_overlapped(others, moved, 0);
    if first_overlapped(others, moved, 0) < others.len() {
        assert(others[0].overlaps(moved));
    }
    let steps = crate::model::hidden_window_placement::push_steps(others);
    assert(steps >= 1);
    assert(pushed(rect, others, steps) == pushed(moved, others, (steps - 1) as nat));
    assert(pushed(moved, others, (steps - 1) as nat) == moved);
}

/// On several displays a window is pushed off the first it overlaps, then off the
/// first it then overlaps, and so on.
pub proof fn law_push_goes_display_by_display(
    rect: CGRect,
    others: Seq<CGRect>,
    steps: nat,
    k: int,
)
    requires
        0 <= k < others.len(),
        others[k].overlaps(rect),
        forall|j: int| 0 <= j < k ==> !(#[trigger] others[j]).overlaps(rect),
    ensures
        pushed(rect, others, steps + 1) == pushed(moved_clear(rect, others[k]), others, steps),
        pushed(rect, others, 0) == rect,
{
    lemma_first_overlapped(others, rect, 0);
    let f = first_overlapped(others, rect, 0);
    if f < k {
        assert(!others[f].overlaps(rect));
    }
    if f > k {
        assert(!others[k].overlaps(rect));
    }
}

/// A window that four pushes for each display did not get clear goes a pixel below
/// everything: below its first place and below every other display.
pub proof fn law_push_falls_back_below_everything(rect: CGRect, others: Seq<CGRect>, k: int, i: int)
    requires
        rect.reachable(),
        all_in_range(others),
        4 * others.len() <= usize::MAX,
        0 <= k < others.len(),
        others[k].overlaps(pushed(rect, others, (4 * others.len()) as nat)),
        0 <= i < others.len(),
    ensures
        ({
            let r = pushed_out(rect, others);
            &&& r.origin.x == pushed(rect, others, (4 * others.len()) as nat).origin.x
            &&& r.origin.y >= rect.origin.y + rect.size.height + 48
            &&& r.origin.y >= others[i].origin.y + others[i].size.height + 48
            &&& r.origin.y == rect.origin.y + rect.size.height + 48 || exists|j: int|
                0 <= j < others.len() && r.origin.y == (#[trigger] others[j]).origin.y
                    + others[j].size.height + 48
        }),
{
    let moved = pushed(rect, others, (4 * others.len()) as nat);
    lemma_first_overlapped(others, moved, 0);
    if first_overlapped(others, moved, 0) == others.len() {
        assert(!others[k].overlaps(moved));
    }
    lemma_lowest_edge(rect, others);
    lemma_lowest_is_reached(rect, others);
    assert(others[i].max_y() <= lowest_edge(rect, others));
    if lowest_edge(rect, others) != rect.max_y() {
        let j = choose|j: int|
            0 <= j < others.len() && (#[trigger] others[j]).max_y() == lowest_edge(rect, others);
        assert(others[j].origin.y + others[j].size.height == lowest_edge(rect, others));
    }
}

proof fn lemma_lowest_is_reached(rect: CGRect, others: Seq<CGRect>)
    ensures
        lowest_edge(rect, others) == rect.max_y() || exists|j: int|
            0 <= j < others.len() && (#[trigger] others[j]).max_y() == lowest_edge(rect, others),
    decreases others.len(),
{
    if others.len() > 0 {
        let fewer = others.drop_last();
        lemma_lowest_is_reached(rect, fewer);
        if lowest_edge(rect, others) == others.last().max_y() {
            assert(others[others.len() - 1] == others.last());
        } else if lowest_edge(rect, fewer) != rect.max_y() {
            let j = choose|j: int|
                0 <= j < fewer.len() && (#[trigger] fewer[j]).max_y() == lowest_edge(rect, fewer);
            assert(others[j] == fewer[j]);
        }
    }
}

/// A window counts as hidden where it is where one of the corners would park it, or
/// where no more than three pixels of it show in either direction; else it does not.
pub proof fn law_what_counts_as_hidden(screen: CGRect, window: CGRect, others: Seq<CGRect>)
    ensures
        counts_as_hidden(screen, window, others) <==> {
            ||| hidden_rect(screen, window.size, HideCorner::TopLeft, others) == window
            ||| hidden_rect(screen, window.size, HideCorner::TopRight, others) == window
            ||| hidden_rect(screen, window.size, HideCorner::BottomLeft, others) == window
            ||| hidden_rect(screen, window.size, HideCorner::BottomRight, others) == window
            ||| window.shared_width(screen) <= 144 && window.shared_height(screen) <= 144
        },
{
    if exists|corner: HideCorner| #[trigger]
        hidden_rect(screen, window.size, corner, others) == window {
        let corner = choose|corner: HideCorner| #[trigger]
            hidden_rect(screen, window.size, corner, others) == window;
        match corner {
            HideCorner::TopLeft => {},
            HideCorner::TopRight => {},
            HideCorner::BottomLeft => {},
            HideCorner::BottomRight => {},
        }
    }
}

} // verus!
