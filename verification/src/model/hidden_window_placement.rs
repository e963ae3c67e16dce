//! Where the windows of inactive workspaces are parked.

use vstd::prelude::*;

use crate::sys::geometry::{imax, imin, max_i64, min_i64, CGPoint, CGRect, CGSize, COORD_LIMIT, PX};

verus! {

#[derive(Debug, Clone, Copy, PartialEq, Eq, Structural)]
pub enum HideCorner {
    TopLeft,
    TopRight,
    BottomLeft,
    BottomRight,
}

impl Default for HideCorner {
    fn default() -> (corner: HideCorner)
        ensures
            corner == HideCorner::BottomRight,
    {
        HideCorner::BottomRight
    }
}

impl HideCorner {
    /// The corner at the other end of the same horizontal edge.
    pub open spec fn mirrored(self) -> HideCorner {
        match self {
            HideCorner::TopLeft => HideCorner::TopRight,
            HideCorner::TopRight => HideCorner::TopLeft,
            HideCorner::BottomLeft => HideCorner::BottomRight,
            HideCorner::BottomRight => HideCorner::BottomLeft,
        }
    }

    pub fn opposite(self) -> (corner: HideCorner)
        ensures
            corner == self.mirrored(),
    {
        match self {
            HideCorner::TopLeft => HideCorner::TopRight,
            HideCorner::TopRight => HideCorner::TopLeft,
            HideCorner::BottomLeft => HideCorner::BottomRight,
            HideCorner::BottomRight => HideCorner::BottomLeft,
        }
    }
}

/// Going to the opposite corner twice leads back.
pub proof fn law_opposite_is_an_involution(corner: HideCorner)
    ensures
        corner.mirrored().mirrored() == corner,
        corner.mirrored() != corner,
{
}

/// Pure geometry used to place inactive-workspace windows just offscreen.
///
/// With no other display a window goes to the requested corner. Next to others,
/// edges and top corners are preferred, so that hidden windows do not land on
/// lower displays; a window on a display boxed in horizontally becomes a
/// one-pixel strip at its bottom; and whatever was chosen is pushed out of the
/// other displays.
pub struct HiddenWindowPlacement;

/// How much of a parked window stays on its screen.
pub const REVEAL: i64 = PX;

/// A window that shows no more than this in either direction counts as hidden.
pub const VISIBLE_THRESHOLD: i64 = 3 * PX;

/// Least shared area, in square units, that keeps a window on its screen.
pub const MIN_ANCHOR_AREA: i128 = 2304;

/// The window rectangle that shows one pixel at `corner` of the screen.
pub open spec fn corner_rect(screen: CGRect, size: CGSize, corner: HideCorner) -> CGRect {
    let left = screen.min_x() - size.width + REVEAL;
    let right = screen.max_x() - REVEAL;
    let top = screen.min_y() - size.height + REVEAL;
    let bottom = screen.max_y() - REVEAL;
    let origin = match corner {
        HideCorner::TopLeft => CGPoint { x: left as i64, y: top as i64 },
        HideCorner::TopRight => CGPoint { x: right as i64, y: top as i64 },
        HideCorner::BottomLeft => CGPoint { x: left as i64, y: bottom as i64 },
        HideCorner::BottomRight => CGPoint { x: right as i64, y: bottom as i64 },
    };
    CGRect { origin, size }
}

/// The window rectangle that shows a one-pixel column at the right edge.
pub open spec fn right_edge_rect(screen: CGRect, size: CGSize) -> CGRect {
    CGRect { origin: CGPoint { x: (screen.max_x() - REVEAL) as i64, y: screen.origin.y }, size }
}

/// The window rectangle that shows a one-pixel column at the left edge.
pub open spec fn left_edge_rect(screen: CGRect, size: CGSize) -> CGRect {
    CGRect {
        origin: CGPoint {
            x: (screen.min_x() - size.width + REVEAL) as i64,
            y: screen.origin.y,
        },
        size,
    }
}

/// One pixel at the bottom left of the screen.
pub open spec fn bottom_strip_rect(screen: CGRect) -> CGRect {
    CGRect {
        origin: CGPoint { x: screen.origin.x, y: (screen.max_y() - REVEAL) as i64 },
        size: CGSize { width: PX, height: PX },
    }
}

/// `other` stands in the same row as `screen`.
pub open spec fn same_row(screen: CGRect, other: CGRect) -> bool {
    other.min_y() < screen.max_y() && other.max_y() > screen.min_y()
}

/// `other` stands in the same row, wholly to the left.
pub open spec fn left_neighbour(screen: CGRect, other: CGRect) -> bool {
    same_row(screen, other) && other.max_x() <= screen.min_x()
}

/// `other` stands in the same row, wholly to the right.
pub open spec fn right_neighbour(screen: CGRect, other: CGRect) -> bool {
    same_row(screen, other) && other.min_x() >= screen.max_x()
}

/// Displays in the same row stand on both sides of `screen`.
pub open spec fn boxed_in(screen: CGRect, others: Seq<CGRect>) -> bool {
    &&& exists|k: int| 0 <= k < others.len() && #[trigger] left_neighbour(screen, others[k])
    &&& exists|k: int| 0 <= k < others.len() && #[trigger] right_neighbour(screen, others[k])
}

/// A window at `rect` keeps its anchor on the screen.
pub open spec fn anchored(screen: CGRect, rect: CGRect) -> bool {
    screen.shared_area(rect) >= MIN_ANCHOR_AREA
}

/// Greatest area that `rect` shares with one of the other displays.
pub open spec fn worst_overlap(others: Seq<CGRect>, rect: CGRect) -> int
    decreases others.len(),
{
    if others.len() == 0 {
        0
    } else {
        imax(worst_overlap(others.drop_last(), rect), others.last().shared_area(rect))
    }
}

/// `rect` overlaps none of the other displays.
pub open spec fn clear_of(others: Seq<CGRect>, rect: CGRect) -> bool {
    forall|k: int| 0 <= k < others.len() ==> !(#[trigger] others[k]).overlaps(rect)
}

/// `a` is a strictly better place than `b`: anchored before unanchored, then the
/// smaller overlap with other displays, then the larger anchor.
pub open spec fn better_place(screen: CGRect, others: Seq<CGRect>, a: CGRect, b: CGRect) -> bool {
    if anchored(screen, a) != anchored(screen, b) {
        anchored(screen, a)
    } else if worst_overlap(others, a) != worst_overlap(others, b) {
        worst_overlap(others, a) < worst_overlap(others, b)
    } else {
        screen.shared_area(a) > screen.shared_area(b)
    }
}

/// The first of the best places among `places`.
pub open spec fn best_place(screen: CGRect, others: Seq<CGRect>, places: Seq<CGRect>) -> CGRect
    decreases places.len(),
{
    if places.len() <= 1 {
        places[0]
    } else {
        let before = best_place(screen, others, places.drop_last());
        if better_place(screen, others, places.last(), before) {
            places.last()
        } else {
            before
        }
    }
}

/// The places considered, in order: both edges, then the corners.
pub open spec fn candidate_places(screen: CGRect, size: CGSize, corner: HideCorner) -> Seq<CGRect> {
    seq![
        right_edge_rect(screen, size),
        left_edge_rect(screen, size),
        corner_rect(screen, size, corner),
        corner_rect(screen, size, corner.mirrored()),
        corner_rect(screen, size, HideCorner::TopRight),
        corner_rect(screen, size, HideCorner::TopLeft),
    ]
}

/// Index of the first display that `rect` overlaps, `others.len()` if none.
pub open spec fn first_overlapped(others: Seq<CGRect>, rect: CGRect, from: int) -> int
    decreases others.len() - from,
{
    if from >= others.len() || others[from].overlaps(rect) {
        from
    } else {
        first_overlapped(others, rect, from + 1)
    }
}

/// `rect` moved by the shortest way to a pixel clear of `screen`; of equally
/// short ways the first of left, right, up, down.
pub open spec fn moved_clear(rect: CGRect, screen: CGRect) -> CGRect {
    let left = rect.max_x() - screen.min_x() + PX;
    let right = screen.max_x() - rect.min_x() + PX;
    let up = rect.max_y() - screen.min_y() + PX;
    let down = screen.max_y() - rect.min_y() + PX;
    let origin = if left <= right && left <= up && left <= down {
        CGPoint { x: (rect.origin.x - left) as i64, y: rect.origin.y }
    } else if right <= up && right <= down {
        CGPoint { x: (rect.origin.x + right) as i64, y: rect.origin.y }
    } else if up <= down {
        CGPoint { x: rect.origin.x, y: (rect.origin.y - up) as i64 }
    } else {
        CGPoint { x: rect.origin.x, y: (rect.origin.y + down) as i64 }
    };
    CGRect { origin, size: rect.size }
}

/// `rect` moved clear of the first overlapped display, up to `steps` times.
pub open spec fn pushed(rect: CGRect, others: Seq<CGRect>, steps: nat) -> CGRect
    decreases steps,
{
    let k = first_overlapped(others, rect, 0);
    if steps == 0 || k >= others.len() {
        rect
    } else {
        pushed(moved_clear(rect, others[k]), others, (steps - 1) as nat)
    }
}

/// How often a window may be moved before the fallback.
pub open spec fn push_steps(others: Seq<CGRect>) -> nat {
    imax(imin(4 * others.len() as int, usize::MAX as int), 1) as nat
}

/// The lowest bottom edge of `rect` and the displays.
pub open spec fn lowest_edge(rect: CGRect, others: Seq<CGRect>) -> int
    decreases others.len(),
{
    if others.len() == 0 {
        rect.max_y()
    } else {
        imax(lowest_edge(rect, others.drop_last()), others.last().max_y())
    }
}

/// `rect` pushed out of the other displays; below everything if moving it about
/// does not get it clear.
pub open spec fn pushed_out(rect: CGRect, others: Seq<CGRect>) -> CGRect {
    let moved = pushed(rect, others, push_steps(others));
    if first_overlapped(others, moved, 0) < others.len() {
        CGRect {
            origin: CGPoint {
                x: moved.origin.x,
                y: (lowest_edge(rect, others) + PX) as i64,
            },
            size: moved.size,
        }
    } else {
        moved
    }
}

/// Where a window of the given size is parked.
pub open spec fn hidden_rect(
    screen: CGRect,
    size: CGSize,
    corner: HideCorner,
    others: Seq<CGRect>,
) -> CGRect {
    let asked = corner_rect(screen, size, corner);
    if boxed_in(screen, others) {
        bottom_strip_rect(screen)
    } else if others.len() == 0 && anchored(screen, asked) {
        asked
    } else {
        pushed_out(best_place(screen, others, candidate_places(screen, size, corner)), others)
    }
}

/// What shows of the window on the screen is within the threshold.
pub open spec fn barely_visible(screen: CGRect, window: CGRect) -> bool {
    window.shared_width(screen) <= VISIBLE_THRESHOLD && window.shared_height(screen)
        <= VISIBLE_THRESHOLD
}

/// The window counts as parked.
pub open spec fn counts_as_hidden(screen: CGRect, window: CGRect, others: Seq<CGRect>) -> bool {
    ||| exists|corner: HideCorner| #[trigger]
        hidden_rect(screen, window.size, corner, others) == window
    ||| barely_visible(screen, window)
}

pub open spec fn all_in_range(rects: Seq<CGRect>) -> bool {
    forall|k: int| 0 <= k < rects.len() ==> (#[trigger] rects[k]).in_range()
}

// ---------------------------------------------------------------------------
// Facts about the definitions
// ---------------------------------------------------------------------------

pub proof fn lemma_first_overlapped(others: Seq<CGRect>, rect: CGRect, from: int)
    requires
        0 <= from <= others.len(),
    ensures
        from <= first_overlapped(others, rect, from) <= others.len(),
        first_overlapped(others, rect, from) < others.len() ==> others[first_overlapped(
            others,
            rect,
            from,
        )].overlaps(rect),
        forall|k: int|
            from <= k < first_overlapped(others, rect, from) ==> !(#[trigger] others[k]).overlaps(
                rect,
            ),
    decreases others.len() - from,
{
    if from < others.len() && !others[from].overlaps(rect) {
        lemma_first_overlapped(others, rect, from + 1);
    }
}

pub proof fn lemma_moved_clear(rect: CGRect, screen: CGRect)
    requires
        rect.reachable(),
        screen.in_range(),
        screen.overlaps(rect),
    ensures
        moved_clear(rect, screen).reachable(),
        moved_clear(rect, screen).size == rect.size,
        !screen.overlaps(moved_clear(rect, screen)),
{
}

proof fn lemma_pushed_reachable(rect: CGRect, others: Seq<CGRect>, steps: nat)
    requires
        rect.reachable(),
        all_in_range(others),
    ensures
        pushed(rect, others, steps).reachable(),
        pushed(rect, others, steps).size == rect.size,
    decreases steps,
{
    lemma_first_overlapped(others, rect, 0);
    let k = first_overlapped(others, rect, 0);
    if steps > 0 && k < others.len() {
        lemma_moved_clear(rect, others[k]);
        lemma_pushed_reachable(moved_clear(rect, others[k]), others, (steps - 1) as nat);
    }
}

pub proof fn lemma_lowest_edge(rect: CGRect, others: Seq<CGRect>)
    requires
        rect.reachable(),
        all_in_range(others),
    ensures
        lowest_edge(rect, others) >= rect.max_y(),
        -5 * COORD_LIMIT <= lowest_edge(rect, others) <= 5 * COORD_LIMIT,
        forall|k: int|
            0 <= k < others.len() ==> (#[trigger] others[k]).max_y() <= lowest_edge(rect, others),
    decreases others.len(),
{
    if others.len() > 0 {
        let fewer = others.drop_last();
        assert forall|k: int| 0 <= k < fewer.len() implies (#[trigger] fewer[k]).in_range() by {
            assert(fewer[k] == others[k]);
        }
        lemma_lowest_edge(rect, fewer);
        assert forall|k: int| 0 <= k < others.len() implies (#[trigger] others[k]).max_y()
            <= lowest_edge(rect, others) by {
            if k < fewer.len() {
                assert(fewer[k] == others[k]);
            }
        }
    }
}

pub proof fn lemma_best_place(screen: CGRect, others: Seq<CGRect>, places: Seq<CGRect>)
    requires
        places.len() > 0,
    ensures
        places.contains(best_place(screen, others, places)),
        forall|k: int|
            0 <= k < places.len() ==> !better_place(
                screen,
                others,
                #[trigger] places[k],
                best_place(screen, others, places),
            ),
    decreases places.len(),
{
    if places.len() == 1 {
        assert(places[0] == best_place(screen, others, places));
    } else {
        let fewer = places.drop_last();
        lemma_best_place(screen, others, fewer);
        let before = best_place(screen, others, fewer);
        let i = choose|i: int| 0 <= i < fewer.len() && fewer[i] == before;
        assert(places[i] == before);
        assert(places[places.len() - 1] == places.last());
        assert forall|k: int| 0 <= k < places.len() implies !better_place(
            screen,
            others,
            #[trigger] places[k],
            best_place(screen, others, places),
        ) by {
            if k < fewer.len() {
                assert(fewer[k] == places[k]);
            }
        }
    }
}

proof fn lemma_candidates_reachable(screen: CGRect, size: CGSize, corner: HideCorner)
    requires
        screen.in_range(),
        size.within(COORD_LIMIT as int),
    ensures
        forall|k: int|
            0 <= k < candidate_places(screen, size, corner).len() ==> (#[trigger] candidate_places(
                screen,
                size,
                corner,
            )[k]).reachable() && candidate_places(screen, size, corner)[k].size == size,
{
}

proof fn lemma_pushed_out(rect: CGRect, others: Seq<CGRect>)
    requires
        rect.reachable(),
        all_in_range(others),
    ensures
        pushed_out(rect, others).size == rect.size,
        pushed_out(rect, others).origin.within(6 * COORD_LIMIT),
        clear_of(others, pushed_out(rect, others)),
{
    let moved = pushed(rect, others, push_steps(others));
    lemma_pushed_reachable(rect, others, push_steps(others));
    lemma_first_overlapped(others, moved, 0);
    lemma_lowest_edge(rect, others);
}

pub proof fn lemma_hidden_rect_size(
    screen: CGRect,
    size: CGSize,
    corner: HideCorner,
    others: Seq<CGRect>,
)
    requires
        screen.in_range(),
        size.within(COORD_LIMIT as int),
        all_in_range(others),
    ensures
        !boxed_in(screen, others) ==> hidden_rect(screen, size, corner, others).size == size,
        hidden_rect(screen, size, corner, others).origin.within(6 * COORD_LIMIT),
{
    let places = candidate_places(screen, size, corner);
    lemma_candidates_reachable(screen, size, corner);
    lemma_best_place(screen, others, places);
    let best = best_place(screen, others, places);
    let i = choose|i: int| 0 <= i < places.len() && places[i] == best;
    assert(places[i].reachable());
    lemma_pushed_out(best, others);
}

// ---------------------------------------------------------------------------
// Laws
// ---------------------------------------------------------------------------

/// A parked window overlaps no other display, unless its own display is boxed in
/// (it is then a strip inside that display).
pub proof fn law_parked_window_is_clear_of_other_displays(
    screen: CGRect,
    size: CGSize,
    corner: HideCorner,
    others: Seq<CGRect>,
)
    requires
        screen.in_range(),
        size.within(COORD_LIMIT as int),
        all_in_range(others),
        !boxed_in(screen, others),
    ensures
        clear_of(others, hidden_rect(screen, size, corner, others)),
{
    let places = candidate_places(screen, size, corner);
    lemma_candidates_reachable(screen, size, corner);
    lemma_best_place(screen, others, places);
    let best = best_place(screen, others, places);
    let i = choose|i: int| 0 <= i < places.len() && places[i] == best;
    assert(places[i].reachable());
    lemma_pushed_out(best, others);
}

/// The strip used on a boxed-in display stays on that display, so it overlaps no
/// display that does not overlap this one.
pub proof fn law_strip_stays_on_its_display(screen: CGRect, others: Seq<CGRect>)
    requires
        screen.in_range(),
        screen.size.width >= PX,
        screen.size.height >= PX,
        clear_of(others, screen),
    ensures
        clear_of(others, bottom_strip_rect(screen)),
        screen.covers(bottom_strip_rect(screen).origin),
{
    let strip = bottom_strip_rect(screen);
    assert forall|k: int| 0 <= k < others.len() implies !(#[trigger] others[k]).overlaps(strip) by {
        assert(!others[k].overlaps(screen));
    }
}

/// A window that was just parked counts as hidden, whichever corner it was sent
/// to.
pub proof fn law_parked_window_counts_as_hidden(
    screen: CGRect,
    size: CGSize,
    corner: HideCorner,
    others: Seq<CGRect>,
)
    requires
        screen.in_range(),
        size.within(COORD_LIMIT as int),
        all_in_range(others),
    ensures
        counts_as_hidden(screen, hidden_rect(screen, size, corner, others), others),
{
    lemma_hidden_rect_size(screen, size, corner, others);
    let window = hidden_rect(screen, size, corner, others);
    assert(hidden_rect(screen, window.size, corner, others) == window);
}

/// Parking keeps a window's size, unless its display is boxed in.
pub proof fn law_parking_keeps_the_size(
    screen: CGRect,
    size: CGSize,
    corner: HideCorner,
    others: Seq<CGRect>,
)
    requires
        screen.in_range(),
        size.within(COORD_LIMIT as int),
        all_in_range(others),
        !boxed_in(screen, others),
    ensures
        hidden_rect(screen, size, corner, others).size == size,
{
    lemma_hidden_rect_size(screen, size, corner, others);
}

/// With no other display the requested corner is always used, for a window and a
/// screen of a pixel or more.
pub proof fn law_single_display_uses_the_requested_corner(
    screen: CGRect,
    size: CGSize,
    corner: HideCorner,
)
    requires
        screen.in_range(),
        size.within(COORD_LIMIT as int),
        screen.size.width >= PX,
        screen.size.height >= PX,
        size.width >= PX,
        size.height >= PX,
    ensures
        hidden_rect(screen, size, corner, Seq::empty()) == corner_rect(screen, size, corner),
{
    let rect = corner_rect(screen, size, corner);
    assert(screen.shared_width(rect) == PX);
    assert(screen.shared_height(rect) == PX);
    assert(screen.shared_area(rect) == 2304) by (nonlinear_arith)
        requires
            screen.shared_area(rect) == screen.shared_width(rect) * screen.shared_height(rect),
            screen.shared_width(rect) == 48,
            screen.shared_height(rect) == 48,
    ;
}

// ---------------------------------------------------------------------------
// The computation
// ---------------------------------------------------------------------------

impl HiddenWindowPlacement {
    fn rect_for_corner(screen: CGRect, size: CGSize, corner: HideCorner) -> (r: CGRect)
        requires
            screen.in_range(),
            size.within(COORD_LIMIT as int),
        ensures
            r == corner_rect(screen, size, corner),
            r.reachable(),
    {
        let max = screen.max();
        let left: i64 = screen.origin.x - size.width + REVEAL;
        let right: i64 = max.x - REVEAL;
        let top: i64 = screen.origin.y - size.height + REVEAL;
        let bottom: i64 = max.y - REVEAL;
        let origin = match corner {
            HideCorner::TopLeft => CGPoint::new(left, top),
            HideCorner::TopRight => CGPoint::new(right, top),
            HideCorner::BottomLeft => CGPoint::new(left, bottom),
            HideCorner::BottomRight => CGPoint::new(right, bottom),
        };
        CGRect::new(origin, size)
    }

    fn hidden_edge_rects(screen: CGRect, size: CGSize) -> (r: (CGRect, CGRect))
        requires
            screen.in_range(),
            size.within(COORD_LIMIT as int),
        ensures
            r.0 == right_edge_rect(screen, size),
            r.1 == left_edge_rect(screen, size),
            r.0.reachable(),
            r.1.reachable(),
    {
        let right = CGRect::new(CGPoint::new(screen.max().x - REVEAL, screen.origin.y), size);
        let left = CGRect::new(
            CGPoint::new(screen.origin.x - size.width + REVEAL, screen.origin.y),
            size,
        );
        (right, left)
    }

    /// Area shared by two rectangles, in square units.
    pub fn intersection_area(a: CGRect, b: CGRect) -> (area: i128)
        requires
            a.wide(),
            b.wide(),
        ensures
            area == a.shared_area(b),
            area >= 0,
            area > 0 <==> a.overlaps(b),
    {
        let am = a.max();
        let bm = b.max();
        let width: i64 = max_i64(min_i64(am.x, bm.x) - max_i64(a.origin.x, b.origin.x), 0);
        let height: i64 = max_i64(min_i64(am.y, bm.y) - max_i64(a.origin.y, b.origin.y), 0);
        proof {
            crate::sys::geometry::lemma_meet_area(a, b);
            let w = width as int;
            let h = height as int;
            assert(w * h <= i128::MAX) by (nonlinear_arith)
                requires
                    0 <= w <= i64::MAX,
                    0 <= h <= i64::MAX,
            ;
        }
        width as i128 * height as i128
    }

    fn is_horizontally_boxed_by_same_row_screens(
        screen: CGRect,
        other_screens: &Vec<CGRect>,
    ) -> (b: bool)
        requires
            screen.in_range(),
            all_in_range(other_screens@),
        ensures
            b == boxed_in(screen, other_screens@),
    {
        let mut has_left = false;
        let mut has_right = false;
        let max = screen.max();
        let mut k: usize = 0;
        while k < other_screens.len()
            invariant
                k <= other_screens@.len(),
                screen.in_range(),
                all_in_range(other_screens@),
                max.x == screen.max_x(),
                max.y == screen.max_y(),
                has_left <==> exists|h: int|
                    0 <= h < k && #[trigger] left_neighbour(screen, other_screens@[h]),
                has_right <==> exists|h: int|
                    0 <= h < k && #[trigger] right_neighbour(screen, other_screens@[h]),
            decreases other_screens@.len() - k,
        {
            let other = other_screens[k];
            let other_max = other.max();
            if other.origin.y < max.y && other_max.y > screen.origin.y {
                if other_max.x <= screen.origin.x {
                    assert(left_neighbour(screen, other_screens@[k as int]));
                    has_left = true;
                }
                if other.origin.x >= max.x {
                    assert(right_neighbour(screen, other_screens@[k as int]));
                    has_right = true;
                }
            }
            k += 1;
        }
        has_left && has_right
    }

    fn hidden_bottom_strip_rect(screen: CGRect) -> (r: CGRect)
        requires
            screen.in_range(),
        ensures
            r == bottom_strip_rect(screen),
    {
        CGRect::new(CGPoint::new(screen.origin.x, screen.max().y - REVEAL), CGSize::new(PX, PX))
    }

    /// The greatest overlap of `rect` with one of the other displays.
    fn largest_overlap(other_screens: &Vec<CGRect>, rect: CGRect) -> (area: i128)
        requires
            rect.reachable(),
            all_in_range(other_screens@),
        ensures
            area == worst_overlap(other_screens@, rect),
    {
        let mut largest: i128 = 0;
        let mut k: usize = 0;
        assert(other_screens@.take(0) =~= Seq::<CGRect>::empty());
        while k < other_screens.len()
            invariant
                k <= other_screens@.len(),
                rect.reachable(),
                all_in_range(other_screens@),
                largest == worst_overlap(other_screens@.take(k as int), rect),
            decreases other_screens@.len() - k,
        {
            let area: i128 = Self::intersection_area(other_screens[k], rect);
            assert(other_screens@.take(k + 1).drop_last() =~= other_screens@.take(k as int));
            if area > largest {
                largest = area;
            }
            k += 1;
        }
        assert(other_screens@.take(k as int) =~= other_screens@);
        largest
    }

    /// The first of the best places.
    fn choose_place(screen: CGRect, other_screens: &Vec<CGRect>, places: &Vec<CGRect>) -> (r: CGRect)
        requires
            screen.in_range(),
            all_in_range(other_screens@),
            places@.len() > 0,
            forall|k: int| 0 <= k < places@.len() ==> (#[trigger] places@[k]).reachable(),
        ensures
            r == best_place(screen, other_screens@, places@),
            r.reachable(),
    {
        let mut best = places[0];
        let mut anchor: i128 = Self::intersection_area(screen, best);
        let mut overlap: i128 = Self::largest_overlap(other_screens, best);
        let mut k: usize = 1;
        assert(places@.take(1)[0] == places@[0]);
        while k < places.len()
            invariant
                1 <= k <= places@.len(),
                screen.in_range(),
                all_in_range(other_screens@),
                forall|h: int| 0 <= h < places@.len() ==> (#[trigger] places@[h]).reachable(),
                best.reachable(),
                best == best_place(screen, other_screens@, places@.take(k as int)),
                anchor == screen.shared_area(best),
                overlap == worst_overlap(other_screens@, best),
            decreases places@.len() - k,
        {
            let next = places[k];
            let next_anchor: i128 = Self::intersection_area(screen, next);
            let next_overlap: i128 = Self::largest_overlap(other_screens, next);
            let better = if (next_anchor >= MIN_ANCHOR_AREA) != (anchor >= MIN_ANCHOR_AREA) {
                next_anchor >= MIN_ANCHOR_AREA
            } else if next_overlap != overlap {
                next_overlap < overlap
            } else {
                next_anchor > anchor
            };
            assert(places@.take(k + 1).drop_last() =~= places@.take(k as int));
            assert(places@.take(k + 1).last() == next);
            if better {
                best = next;
                anchor = next_anchor;
                overlap = next_overlap;
            }
            k += 1;
        }
        assert(places@.take(k as int) =~= places@);
        best
    }

    /// Index of the first display that `rect` overlaps.
    fn find_overlapped(other_screens: &Vec<CGRect>, rect: CGRect) -> (k: usize)
        requires
            rect.reachable(),
            all_in_range(other_screens@),
        ensures
            k == first_overlapped(other_screens@, rect, 0),
            k <= other_screens@.len(),
    {
        let mut k: usize = 0;
        while k < other_screens.len() && !(Self::intersection_area(other_screens[k], rect) > 0)
            invariant
                k <= other_screens@.len(),
                rect.reachable(),
                all_in_range(other_screens@),
                first_overlapped(other_screens@, rect, 0) == first_overlapped(
                    other_screens@,
                    rect,
                    k as int,
                ),
            decreases other_screens@.len() - k,
        {
            k += 1;
        }
        k
    }

    /// The lowest bottom edge of `rect` and the displays.
    fn topology_bottom(rect: CGRect, other_screens: &Vec<CGRect>) -> (y: i64)
        requires
            rect.reachable(),
            all_in_range(other_screens@),
        ensures
            y == lowest_edge(rect, other_screens@),
    {
        let mut y: i64 = rect.max().y;
        let mut k: usize = 0;
        assert(other_screens@.take(0) =~= Seq::<CGRect>::empty());
        while k < other_screens.len()
            invariant
                k <= other_screens@.len(),
                all_in_range(other_screens@),
                y == lowest_edge(rect, other_screens@.take(k as int)),
            decreases other_screens@.len() - k,
        {
            assert(other_screens@.take(k + 1).drop_last() =~= other_screens@.take(k as int));
            y = max_i64(y, other_screens[k].max().y);
            k += 1;
        }
        assert(other_screens@.take(k as int) =~= other_screens@);
        y
    }

    /// One move out of an overlapped display.
    fn move_clear(rect: CGRect, screen: CGRect) -> (r: CGRect)
        requires
            rect.reachable(),
            screen.in_range(),
            screen.overlaps(rect),
        ensures
            r == moved_clear(rect, screen),
            r.reachable(),
            r.size == rect.size,
    {
        let rm = rect.max();
        let sm = screen.max();
        let left: i64 = max_i64(rm.x - screen.origin.x, 0) + PX;
        let right: i64 = max_i64(sm.x - rect.origin.x, 0) + PX;
        let up: i64 = max_i64(rm.y - screen.origin.y, 0) + PX;
        let down: i64 = max_i64(sm.y - rect.origin.y, 0) + PX;
        let origin = if left <= right && left <= up && left <= down {
            CGPoint::new(rect.origin.x - left, rect.origin.y)
        } else if right <= up && right <= down {
            CGPoint::new(rect.origin.x + right, rect.origin.y)
        } else if up <= down {
            CGPoint::new(rect.origin.x, rect.origin.y - up)
        } else {
            CGPoint::new(rect.origin.x, rect.origin.y + down)
        };
        proof {
            lemma_moved_clear(rect, screen);
        }
        CGRect::new(origin, rect.size)
    }

    fn push_out_of_other_screens(rect: CGRect, other_screens: &Vec<CGRect>) -> (r: CGRect)
        requires
            rect.reachable(),
            all_in_range(other_screens@),
        ensures
            r == pushed_out(rect, other_screens@),
    {
        let mut moved = rect;
        let mut steps: usize = if other_screens.len() == 0 {
            1
        } else if other_screens.len() > usize::MAX / 4 {
            usize::MAX
        } else {
            other_screens.len() * 4
        };
        let mut k: usize = Self::find_overlapped(other_screens, moved);
        while steps > 0 && k < other_screens.len()
            invariant
                moved.reachable(),
                all_in_range(other_screens@),
                k == first_overlapped(other_screens@, moved, 0),
                k <= other_screens@.len(),
                moved.size == rect.size,
                pushed(rect, other_screens@, push_steps(other_screens@)) == pushed(
                    moved,
                    other_screens@,
                    steps as nat,
                ),
            decreases steps,
        {
            proof {
                lemma_first_overlapped(other_screens@, moved, 0);
            }
            moved = Self::move_clear(moved, other_screens[k]);
            steps -= 1;
            k = Self::find_overlapped(other_screens, moved);
        }
        if k < other_screens.len() {
            proof {
                lemma_lowest_edge(rect, other_screens@);
            }
            moved.origin.y = Self::topology_bottom(rect, other_screens) + PX;
        }
        moved
    }

    pub fn calculate(
        screen: CGRect,
        window: CGRect,
        preferred_corner: HideCorner,
        other_screens: &Vec<CGRect>,
    ) -> (r: CGRect)
        requires
            screen.in_range(),
            window.size.within(COORD_LIMIT as int),
            all_in_range(other_screens@),
        ensures
            r == hidden_rect(screen, window.size, preferred_corner, other_screens@),
            r.wide(),
            r.size.within(COORD_LIMIT as int),
    {
        if Self::is_horizontally_boxed_by_same_row_screens(screen, other_screens) {
            return Self::hidden_bottom_strip_rect(screen);
        }
        let size = window.size;
        let asked = Self::rect_for_corner(screen, size, preferred_corner);
        proof {
            lemma_hidden_rect_size(screen, size, preferred_corner, other_screens@);
        }
        if other_screens.len() == 0 && Self::intersection_area(screen, asked) >= MIN_ANCHOR_AREA {
            return asked;
        }
        let (right, left) = Self::hidden_edge_rects(screen, size);
        let mut places: Vec<CGRect> = Vec::new();
        places.push(right);
        places.push(left);
        places.push(asked);
        places.push(Self::rect_for_corner(screen, size, preferred_corner.opposite()));
        places.push(Self::rect_for_corner(screen, size, HideCorner::TopRight));
        places.push(Self::rect_for_corner(screen, size, HideCorner::TopLeft));
        assert(places@ =~= candidate_places(screen, size, preferred_corner));
        let best = Self::choose_place(screen, other_screens, &places);
        Self::push_out_of_other_screens(best, other_screens)
    }

    pub fn is_hidden(screen: CGRect, window: CGRect, other_screens: &Vec<CGRect>) -> (b: bool)
        requires
            screen.in_range(),
            window.wide(),
            window.size.within(COORD_LIMIT as int),
            all_in_range(other_screens@),
        ensures
            b == counts_as_hidden(screen, window, other_screens@),
    {
        let bottom_left = Self::calculate(screen, window, HideCorner::BottomLeft, other_screens);
        let bottom_right = Self::calculate(screen, window, HideCorner::BottomRight, other_screens);
        let top_left = Self::calculate(screen, window, HideCorner::TopLeft, other_screens);
        let top_right = Self::calculate(screen, window, HideCorner::TopRight, other_screens);
        if bottom_left == window || bottom_right == window || top_left == window || top_right
            == window {
            return true;
        }
        proof {
            assert forall|corner: HideCorner| #[trigger]
                hidden_rect(screen, window.size, corner, other_screens@) != window by {
                match corner {
                    HideCorner::TopLeft => {},
                    HideCorner::TopRight => {},
                    HideCorner::BottomLeft => {},
                    HideCorner::BottomRight => {},
                }
            }
        }
        let wm = window.max();
        let sm = screen.max();
        let visible_width: i64 = max_i64(
            min_i64(wm.x, sm.x) - max_i64(window.origin.x, screen.origin.x),
            0,
        );
        let visible_height: i64 = max_i64(
            min_i64(wm.y, sm.y) - max_i64(window.origin.y, screen.origin.y),
            0,
        );
        visible_width <= VISIBLE_THRESHOLD && visible_height <= VISIBLE_THRESHOLD
    }
}

} // verus!
