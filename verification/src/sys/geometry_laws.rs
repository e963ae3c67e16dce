//! What the measures of rectangles are, over their corners and sides.

use vstd::prelude::*;

use crate::sys::geometry::{
    clearance_sq, distance_sq, edge_depth, is_warp_point, lemma_obstructing_keeps,
    lemma_sample_inside, obstructing, round_units, warp_sample, CGPoint, CGRect, CGRectExt, CGSize,
    IsWithin, Round,
};

verus! {

/// A rectangle holds the points from its origin to its far corner, borders counted
/// in.
pub proof fn law_points_of_a_rectangle(r: CGRect, p: CGPoint)
    ensures
        r.covers(p) <==> r.origin.x <= p.x && p.x <= r.origin.x + r.size.width && r.origin.y <= p.y
            && p.y <= r.origin.y + r.size.height,
        r.has_point(p) == r.covers(p),
{
}

/// The middle is as far from one side as from the other, to a unit.
pub proof fn law_middle_of_a_rectangle(r: CGRect)
    requires
        r.wide(),
    ensures
        0 <= (r.origin.x + r.size.width - r.middle().x) - (r.middle().x - r.origin.x) <= 1,
        0 <= (r.origin.y + r.size.height - r.middle().y) - (r.middle().y - r.origin.y) <= 1,
{
}

/// Two rectangles overlap where each begins before the other ends, in both
/// directions; rectangles that only touch, or are empty, do not.
pub proof fn law_overlap(a: CGRect, b: CGRect)
    ensures
        a.overlaps(b) <==> {
            &&& a.size.width > 0 && b.size.width > 0 && a.size.height > 0 && b.size.height > 0
            &&& a.origin.x < b.origin.x + b.size.width && b.origin.x < a.origin.x + a.size.width
            &&& a.origin.y < b.origin.y + b.size.height && b.origin.y < a.origin.y + a.size.height
        },
        a.overlaps(b) == b.overlaps(a),
{
}

/// The area shared by two rectangles that overlap is that of the rectangle from the
/// greater origins to the lesser ends; those that do not overlap share none.
pub proof fn law_shared_area(a: CGRect, b: CGRect, x0: int, x1: int, y0: int, y1: int)
    requires
        x0 == a.origin.x || x0 == b.origin.x,
        x0 >= a.origin.x && x0 >= b.origin.x,
        x1 == a.origin.x + a.size.width || x1 == b.origin.x + b.size.width,
        x1 <= a.origin.x + a.size.width && x1 <= b.origin.x + b.size.width,
        y0 == a.origin.y || y0 == b.origin.y,
        y0 >= a.origin.y && y0 >= b.origin.y,
        y1 == a.origin.y + a.size.height || y1 == b.origin.y + b.size.height,
        y1 <= a.origin.y + a.size.height && y1 <= b.origin.y + b.size.height,
    ensures
        x1 > x0 && y1 > y0 ==> a.shared_area(b) == (x1 - x0) * (y1 - y0),
        x1 <= x0 || y1 <= y0 ==> a.shared_area(b) == 0,
        x1 > x0 ==> a.shared_width(b) == x1 - x0,
        x1 <= x0 ==> a.shared_width(b) == 0,
        y1 > y0 ==> a.shared_height(b) == y1 - y0,
        y1 <= y0 ==> a.shared_height(b) == 0,
{
    let w = a.shared_width(b);
    let h = a.shared_height(b);
    assert(w == 0 || h == 0 ==> w * h == 0) by (nonlinear_arith);
}

/// A point lies in the common part of two overlapping rectangles exactly where it
/// lies in both.
pub proof fn law_intersection(a: CGRect, b: CGRect, p: CGPoint)
    requires
        a.wide(),
        b.wide(),
        a.overlaps(b),
    ensures
        a.meet(b).covers(p) <==> a.covers(p) && b.covers(p),
{
}

/// The common part of two rectangles that share nothing is empty.
pub proof fn law_empty_intersection(a: CGRect, b: CGRect)
    requires
        a.wide(),
        b.wide(),
        !a.overlaps(b),
    ensures
        a.meet(b).size.width == 0 || a.meet(b).size.height == 0,
        a.meet(b).size.width >= 0 && a.meet(b).size.height >= 0,
{
}

/// A rectangle holds another exactly where it holds all its points.
pub proof fn law_rectangle_in_a_rectangle(a: CGRect, b: CGRect, p: CGPoint)
    requires
        b.wide(),
        b.size.width >= 0,
        b.size.height >= 0,
    ensures
        a.has_rect(b) && b.covers(p) ==> a.covers(p),
        a.covers(b.origin) && a.covers(
            CGPoint {
                x: (b.origin.x + b.size.width) as i64,
                y: (b.origin.y + b.size.height) as i64,
            },
        ) ==> a.has_rect(b),
        a.product() == a.size.width * a.size.height,
{
}

/// Rounding goes to the nearest multiple of 48 units, and away from zero from the
/// middle between two.
pub proof fn law_rounding(n: int)
    ensures
        round_units(n) % 48 == 0,
        -24 <= round_units(n) - n <= 24,
        n >= 0 ==> round_units(n) - n > -24,
        n < 0 ==> round_units(n) - n < 24,
        round_units(-n) == -round_units(n),
{
    if n >= 0 {
        let q = (n + 24) / 48;
        assert((q * 48) % 48 == 0) by (nonlinear_arith);
    } else {
        let q = (24 - n) / 48;
        assert((-(q * 48)) % 48 == 0) by (nonlinear_arith);
    }
}

/// A rectangle is rounded at both corners; a point and a size in both components.
pub proof fn law_what_is_rounded(r: CGRect, p: CGPoint, s: CGSize)
    requires
        r.wide(),
        p.can_round(),
        s.can_round(),
    ensures
        r.rounded().origin.x == round_units(r.origin.x as int),
        r.rounded().origin.y == round_units(r.origin.y as int),
        r.rounded().origin.x + r.rounded().size.width == round_units(r.origin.x + r.size.width),
        r.rounded().origin.y + r.rounded().size.height == round_units(r.origin.y + r.size.height),
        p.rounded().x == round_units(p.x as int),
        p.rounded().y == round_units(p.y as int),
        s.rounded().width == round_units(s.width as int),
        s.rounded().height == round_units(s.height as int),
{
}

/// Two values are near where every component differs by less than the bound.
pub proof fn law_near(a: CGRect, b: CGRect, m: i64, n: i64, how_much: int)
    ensures
        m.near(how_much, n) <==> -how_much < m - n && m - n < how_much,
        a.near(how_much, b) <==> {
            &&& -how_much < a.origin.x - b.origin.x < how_much
            &&& -how_much < a.origin.y - b.origin.y < how_much
            &&& -how_much < a.size.width - b.size.width < how_much
            &&& -how_much < a.size.height - b.size.height < how_much
        },
        a.origin.near(how_much, b.origin) <==> {
            &&& -how_much < a.origin.x - b.origin.x < how_much
            &&& -how_much < a.origin.y - b.origin.y < how_much
        },
        a.size.near(how_much, b.size) <==> {
            &&& -how_much < a.size.width - b.size.width < how_much
            &&& -how_much < a.size.height - b.size.height < how_much
        },
{
}

// ---------------------------------------------------------------------------
// Where the mouse warps to
// ---------------------------------------------------------------------------

/// The samples are the middles of a grid of 24 by 24 cells, column by column, each
/// column from its top.
pub proof fn law_samples_are_cell_middles(frame: CGRect, column: int, row: int)
    requires
        frame.in_range(),
        frame.size.width >= 0,
        frame.size.height >= 0,
        0 <= column < 24,
        0 <= row < 24,
    ensures
        ({
            let p = warp_sample(frame, 24 * column + row);
            &&& 0 <= (2 * column + 1) * frame.size.width - 48 * (p.x - frame.origin.x) < 48
            &&& 0 <= (2 * row + 1) * frame.size.height - 48 * (p.y - frame.origin.y) < 48
        }),
{
    let n = 24 * column + row;
    lemma_sample_inside(frame, n);
    assert(n / 24 == column && n % 24 == row);
}

/// How clear a point is: no farther than the nearest edge of the frame, and no
/// farther than any occluder.
pub proof fn law_clearance_is_a_lower_bound(
    frame: CGRect,
    occluders: Seq<CGRect>,
    p: CGPoint,
    k: int,
)
    requires
        0 <= k < occluders.len(),
    ensures
        clearance_sq(frame, occluders, p) <= edge_depth(frame, p) * edge_depth(frame, p),
        clearance_sq(frame, occluders, p) <= distance_sq(occluders[k], p),
    decreases occluders.len(),
{
    let fewer = occluders.drop_last();
    if k < fewer.len() {
        law_clearance_is_a_lower_bound(frame, fewer, p, k);
        assert(fewer[k] == occluders[k]);
    } else if fewer.len() > 0 {
        law_clearance_is_a_lower_bound(frame, fewer, p, 0);
    }
}

/// It is the distance to one of them.
pub proof fn law_clearance_is_reached(frame: CGRect, occluders: Seq<CGRect>, p: CGPoint)
    ensures
        clearance_sq(frame, occluders, p) == edge_depth(frame, p) * edge_depth(frame, p)
            || exists|k: int|
            0 <= k < occluders.len() && clearance_sq(frame, occluders, p) == distance_sq(
                #[trigger] occluders[k],
                p,
            ),
    decreases occluders.len(),
{
    if occluders.len() > 0 {
        let fewer = occluders.drop_last();
        law_clearance_is_reached(frame, fewer, p);
        if clearance_sq(frame, occluders, p) == distance_sq(occluders.last(), p) {
            assert(occluders[occluders.len() - 1] == occluders.last());
        } else if exists|k: int|
            0 <= k < fewer.len() && clearance_sq(frame, fewer, p) == distance_sq(
                #[trigger] fewer[k],
                p,
            ) {
            let k = choose|k: int|
                0 <= k < fewer.len() && clearance_sq(frame, fewer, p) == distance_sq(
                    #[trigger] fewer[k],
                    p,
                );
            assert(occluders[k] == fewer[k]);
        }
    }
}

/// The depth of a point in a frame is its distance to the nearest of the four edges.
pub proof fn law_depth_in_a_frame(frame: CGRect, p: CGPoint)
    ensures
        ({
            let left = p.x - frame.origin.x;
            let right = frame.origin.x + frame.size.width - p.x;
            let up = p.y - frame.origin.y;
            let down = frame.origin.y + frame.size.height - p.y;
            let d = edge_depth(frame, p);
            &&& d <= left && d <= right && d <= up && d <= down
            &&& d == left || d == right || d == up || d == down
        }),
{
}

/// The distance of a point to a rectangle is none inside, straight beside it, and
/// the diagonal off a corner.
pub proof fn law_distance_to_a_rectangle(r: CGRect, p: CGPoint, dx: int, dy: int)
    requires
        r.size.width >= 0,
        r.size.height >= 0,
        p.x < r.origin.x ==> dx == r.origin.x - p.x,
        p.x > r.origin.x + r.size.width ==> dx == p.x - (r.origin.x + r.size.width),
        r.origin.x <= p.x <= r.origin.x + r.size.width ==> dx == 0,
        p.y < r.origin.y ==> dy == r.origin.y - p.y,
        p.y > r.origin.y + r.size.height ==> dy == p.y - (r.origin.y + r.size.height),
        r.origin.y <= p.y <= r.origin.y + r.size.height ==> dy == 0,
    ensures
        distance_sq(r, p) == dx * dx + dy * dy,
{
}

/// Where some sample is uncovered by the occluders that overlap the frame, the warp
/// point is uncovered and at least as clear as every uncovered sample; of equally
/// clear ones it is the first.
pub proof fn law_warp_point_is_the_clearest_sample(
    frame: CGRect,
    occluders: Seq<CGRect>,
    p: CGPoint,
    m: int,
)
    requires
        is_warp_point(frame, occluders, p),
        0 <= m < 576,
        obstructing(frame, occluders).len() > 0,
        forall|k: int|
            0 <= k < obstructing(frame, occluders).len() ==> !(#[trigger] obstructing(
                frame,
                occluders,
            )[k]).covers(warp_sample(frame, m)),
    ensures
        ({
            let hits = obstructing(frame, occluders);
            let q = warp_sample(frame, m);
            &&& clearance_sq(frame, hits, q) <= clearance_sq(frame, hits, p)
            &&& forall|k: int| 0 <= k < hits.len() ==> !(#[trigger] hits[k]).covers(p)
            &&& exists|n: int|
                0 <= n < 576 && p == #[trigger] warp_sample(frame, n) && (clearance_sq(
                    frame,
                    hits,
                    q,
                ) == clearance_sq(frame, hits, p) ==> n <= m)
        }),
{
    let hits = obstructing(frame, occluders);
    assert(!crate::sys::geometry::obstructed(hits, warp_sample(frame, m)));
    let n = choose|n: int|
        crate::sys::geometry::best_sample(frame, hits, 576, n) && p == #[trigger] warp_sample(
            frame,
            n,
        );
    assert(!crate::sys::geometry::obstructed(hits, warp_sample(frame, n)));
}

/// An occluder counts exactly where it overlaps the frame.
pub proof fn law_which_occluders_count(frame: CGRect, occluders: Seq<CGRect>, r: CGRect)
    ensures
        obstructing(frame, occluders).contains(r) <==> occluders.contains(r) && frame.overlaps(r),
    decreases occluders.len(),
{
    if occluders.contains(r) && frame.overlaps(r) {
        let k = choose|k: int| 0 <= k < occluders.len() && occluders[k] == r;
        lemma_obstructing_keeps(frame, occluders, k);
    }
    if obstructing(frame, occluders).contains(r) && occluders.len() > 0 {
        let fewer = occluders.drop_last();
        law_which_occluders_count(frame, fewer, r);
        let hits = obstructing(frame, occluders);
        let before = obstructing(frame, fewer);
        let h = choose|h: int| 0 <= h < hits.len() && hits[h] == r;
        if h < before.len() {
            assert(before[h] == r);
            let k = choose|k: int| 0 <= k < fewer.len() && fewer[k] == r;
            assert(occluders[k] == r);
        } else {
            assert(occluders[occluders.len() - 1] == r);
        }
    }
}

/// Where every sample is covered by an occluder that overlaps the frame, the warp
/// point is the middle.
pub proof fn law_covered_samples_leave_the_middle(
    frame: CGRect,
    occluders: Seq<CGRect>,
    p: CGPoint,
)
    requires
        is_warp_point(frame, occluders, p),
        forall|n: int|
            0 <= n < 576 ==> exists|k: int|
                0 <= k < obstructing(frame, occluders).len() && (#[trigger] obstructing(
                    frame,
                    occluders,
                )[k]).covers(#[trigger] warp_sample(frame, n)),
    ensures
        p == frame.middle(),
{
    let hits = obstructing(frame, occluders);
    assert forall|n: int| 0 <= n < 576 implies crate::sys::geometry::obstructed(
        hits,
        #[trigger] warp_sample(frame, n),
    ) by {
        let k = choose|k: int|
            0 <= k < hits.len() && (#[trigger] hits[k]).covers(warp_sample(frame, n));
        assert(hits[k].covers(warp_sample(frame, n)));
    }
}

} // verus!
