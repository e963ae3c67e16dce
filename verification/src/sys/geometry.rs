//! Fixed-point screen geometry.
//!
//! Coordinates are whole numbers of *units*, [`PX`] units to a pixel. The unit
//! is fine enough that halves, thirds, quarters and every point of the warp
//! sampling grid of a whole-pixel frame are exact.

use vstd::prelude::*;

verus! {

/// Units per pixel: twice the side of the warp sampling grid.
pub const PX: i64 = 48;

/// Side of the grid sampled by [`visible_warp_point`].
pub const WARP_GRID: i64 = 24;

/// Bound on the coordinates of the screens and windows handed in.
pub const COORD_LIMIT: i64 = 0x100_0000_0000;

/// Bound on the coordinates of rectangles derived from those.
pub const WIDE_LIMIT: i64 = 0x4_0000_0000_0000;

#[derive(Debug, Clone, Copy, PartialEq, Eq, Hash, Structural)]
pub struct CGPoint {
    pub x: i64,
    pub y: i64,
}

#[derive(Debug, Clone, Copy, PartialEq, Eq, Hash, Structural)]
pub struct CGSize {
    pub width: i64,
    pub height: i64,
}

/// A rectangle, closed on all four sides. Sizes are taken as they are: a
/// negative size puts `max` before `min`.
#[derive(Debug, Clone, Copy, PartialEq, Eq, Hash, Structural)]
pub struct CGRect {
    pub origin: CGPoint,
    pub size: CGSize,
}

pub open spec fn imin(a: int, b: int) -> int {
    if a <= b {
        a
    } else {
        b
    }
}

pub open spec fn imax(a: int, b: int) -> int {
    if a >= b {
        a
    } else {
        b
    }
}

pub open spec fn iabs(a: int) -> int {
    if a < 0 {
        -a
    } else {
        a
    }
}

impl CGPoint {
    pub open spec fn within(self, bound: int) -> bool {
        -bound <= self.x <= bound && -bound <= self.y <= bound
    }

    pub fn new(x: i64, y: i64) -> (p: CGPoint)
        ensures
            p == (CGPoint { x, y }),
    {
        CGPoint { x, y }
    }
}

impl CGSize {
    pub open spec fn within(self, bound: int) -> bool {
        -bound <= self.width <= bound && -bound <= self.height <= bound
    }

    pub fn new(width: i64, height: i64) -> (s: CGSize)
        ensures
            s == (CGSize { width, height }),
    {
        CGSize { width, height }
    }
}

impl CGRect {
    pub open spec fn within(self, bound: int) -> bool {
        self.origin.within(bound) && self.size.within(bound)
    }

    /// A rectangle as the window server reports it.
    pub open spec fn in_range(self) -> bool {
        self.within(COORD_LIMIT as int)
    }

    /// A rectangle on which the arithmetic below cannot overflow.
    pub open spec fn wide(self) -> bool {
        self.within(WIDE_LIMIT as int)
    }

    /// A rectangle of in-range size at most four in-range extents away: one that
    /// was derived from rectangles in range.
    pub open spec fn reachable(self) -> bool {
        self.origin.within(4 * COORD_LIMIT) && self.size.within(COORD_LIMIT as int)
    }

    pub open spec fn min_x(self) -> int {
        self.origin.x as int
    }

    pub open spec fn min_y(self) -> int {
        self.origin.y as int
    }

    pub open spec fn max_x(self) -> int {
        self.origin.x + self.size.width
    }

    pub open spec fn max_y(self) -> int {
        self.origin.y + self.size.height
    }

    /// The point halfway between `min` and `max`, rounded down to a unit.
    pub open spec fn middle(self) -> CGPoint {
        CGPoint {
            x: (self.origin.x + self.size.width as int / 2) as i64,
            y: (self.origin.y + self.size.height as int / 2) as i64,
        }
    }

    /// Width of the part shared with `other`, never negative.
    pub open spec fn shared_width(self, other: CGRect) -> int {
        imax(imin(self.max_x(), other.max_x()) - imax(self.min_x(), other.min_x()), 0)
    }

    /// Height of the part shared with `other`, never negative.
    pub open spec fn shared_height(self, other: CGRect) -> int {
        imax(imin(self.max_y(), other.max_y()) - imax(self.min_y(), other.min_y()), 0)
    }

    /// The two rectangles share a part of positive area.
    pub open spec fn overlaps(self, other: CGRect) -> bool {
        self.shared_width(other) > 0 && self.shared_height(other) > 0
    }

    /// Area of the part shared with `other`.
    pub open spec fn shared_area(self, other: CGRect) -> int {
        self.shared_width(other) * self.shared_height(other)
    }

    /// `p` lies in the rectangle, its border counted in.
    pub open spec fn covers(self, p: CGPoint) -> bool {
        self.min_x() <= p.x <= self.max_x() && self.min_y() <= p.y <= self.max_y()
    }

    pub fn new(origin: CGPoint, size: CGSize) -> (r: CGRect)
        ensures
            r == (CGRect { origin, size }),
    {
        CGRect { origin, size }
    }

    /// A rectangle given in whole pixels.
    pub fn from_px(x: i32, y: i32, width: i32, height: i32) -> (r: CGRect)
        ensures
            r.origin.x == x * PX,
            r.origin.y == y * PX,
            r.size.width == width * PX,
            r.size.height == height * PX,
            r.in_range(),
    {
        CGRect {
            origin: CGPoint { x: x as i64 * PX, y: y as i64 * PX },
            size: CGSize { width: width as i64 * PX, height: height as i64 * PX },
        }
    }

    pub fn min(&self) -> (p: CGPoint)
        ensures
            p == self.origin,
    {
        self.origin
    }

    pub fn max(&self) -> (p: CGPoint)
        requires
            self.wide(),
        ensures
            p.x == self.max_x(),
            p.y == self.max_y(),
            p.within(2 * WIDE_LIMIT),
    {
        CGPoint { x: self.origin.x + self.size.width, y: self.origin.y + self.size.height }
    }

    pub fn mid(&self) -> (p: CGPoint)
        requires
            self.wide(),
        ensures
            p == self.middle(),
            p.x == self.origin.x + self.size.width as int / 2,
            p.y == self.origin.y + self.size.height as int / 2,
    {
        CGPoint {
            x: self.origin.x + half(self.size.width),
            y: self.origin.y + half(self.size.height),
        }
    }
}

/// Half of `n`, rounded down.
pub fn half(n: i64) -> (h: i64)
    requires
        -i64::MAX < n,
    ensures
        h == n as int / 2,
{
    if n >= 0 {
        n / 2
    } else {
        -((1 - n) / 2)
    }
}

pub fn min_i64(a: i64, b: i64) -> (r: i64)
    ensures
        r == imin(a as int, b as int),
{
    if a <= b {
        a
    } else {
        b
    }
}

pub fn max_i64(a: i64, b: i64) -> (r: i64)
    ensures
        r == imax(a as int, b as int),
{
    if a >= b {
        a
    } else {
        b
    }
}

/// Rounding to whole pixels.
pub trait Round: Sized {
    /// The rounded value can be represented.
    spec fn can_round(&self) -> bool;

    spec fn rounded(&self) -> Self;

    fn round(&self) -> (r: Self)
        requires
            self.can_round(),
        ensures
            r == self.rounded(),
    ;
}

/// `n` units rounded to the nearest whole pixel, halves away from zero.
pub open spec fn round_units(n: int) -> int {
    if n >= 0 {
        ((n + PX / 2) / (PX as int)) * PX
    } else {
        -(((PX / 2 - n) / (PX as int)) * PX)
    }
}

fn round_to_px(n: i64) -> (r: i64)
    requires
        -2 * WIDE_LIMIT <= n <= 2 * WIDE_LIMIT,
    ensures
        r == round_units(n as int),
        -2 * WIDE_LIMIT - PX <= r <= 2 * WIDE_LIMIT + PX,
{
    if n >= 0 {
        ((n + PX / 2) / PX) * PX
    } else {
        -(((PX / 2 - n) / PX) * PX)
    }
}

impl Round for CGRect {
    open spec fn can_round(&self) -> bool {
        self.wide()
    }

    open spec fn rounded(&self) -> Self {
        CGRect {
            origin: CGPoint {
                x: round_units(self.min_x()) as i64,
                y: round_units(self.min_y()) as i64,
            },
            size: CGSize {
                width: (round_units(self.max_x()) - round_units(self.min_x())) as i64,
                height: (round_units(self.max_y()) - round_units(self.min_y())) as i64,
            },
        }
    }

    /// Rounds both corners, so that edges shared with a neighbour stay shared.
    fn round(&self) -> (r: Self) {
        let max = self.max();
        let min_x: i64 = round_to_px(self.origin.x);
        let min_y: i64 = round_to_px(self.origin.y);
        let max_x: i64 = round_to_px(max.x);
        let max_y: i64 = round_to_px(max.y);
        CGRect {
            origin: CGPoint { x: min_x, y: min_y },
            size: CGSize { width: max_x - min_x, height: max_y - min_y },
        }
    }
}

impl Round for CGPoint {
    open spec fn can_round(&self) -> bool {
        self.within(WIDE_LIMIT as int)
    }

    open spec fn rounded(&self) -> Self {
        CGPoint { x: round_units(self.x as int) as i64, y: round_units(self.y as int) as i64 }
    }

    fn round(&self) -> (r: Self) {
        CGPoint { x: round_to_px(self.x), y: round_to_px(self.y) }
    }
}

impl Round for CGSize {
    open spec fn can_round(&self) -> bool {
        self.within(WIDE_LIMIT as int)
    }

    open spec fn rounded(&self) -> Self {
        CGSize {
            width: round_units(self.width as int) as i64,
            height: round_units(self.height as int) as i64,
        }
    }

    fn round(&self) -> (r: Self) {
        CGSize { width: round_to_px(self.width), height: round_to_px(self.height) }
    }
}

/// Two rectangles that share an edge still share it after rounding.
pub proof fn law_rounding_keeps_shared_edges(a: CGRect, b: CGRect)
    requires
        a.can_round(),
        b.can_round(),
        a.max_x() == b.min_x(),
    ensures
        a.rounded().max_x() == b.rounded().min_x(),
{
}

/// Componentwise closeness.
pub trait IsWithin: Sized {
    spec fn near(&self, how_much: int, other: Self) -> bool;

    fn is_within(&self, how_much: i64, other: Self) -> (b: bool)
        ensures
            b == self.near(how_much as int, other),
    ;
}

impl IsWithin for i64 {
    open spec fn near(&self, how_much: int, other: Self) -> bool {
        iabs(*self - other) < how_much
    }

    fn is_within(&self, how_much: i64, other: Self) -> (b: bool) {
        let d: i128 = *self as i128 - other as i128;
        (if d < 0 {
            -d
        } else {
            d
        }) < how_much as i128
    }
}

impl IsWithin for CGPoint {
    open spec fn near(&self, how_much: int, other: Self) -> bool {
        self.x.near(how_much, other.x) && self.y.near(how_much, other.y)
    }

    fn is_within(&self, how_much: i64, other: Self) -> (b: bool) {
        self.x.is_within(how_much, other.x) && self.y.is_within(how_much, other.y)
    }
}

impl IsWithin for CGSize {
    open spec fn near(&self, how_much: int, other: Self) -> bool {
        self.width.near(how_much, other.width) && self.height.near(how_much, other.height)
    }

    fn is_within(&self, how_much: i64, other: Self) -> (b: bool) {
        self.width.is_within(how_much, other.width) && self.height.is_within(how_much, other.height)
    }
}

impl IsWithin for CGRect {
    open spec fn near(&self, how_much: int, other: Self) -> bool {
        self.origin.near(how_much, other.origin) && self.size.near(how_much, other.size)
    }

    fn is_within(&self, how_much: i64, other: Self) -> (b: bool) {
        self.origin.is_within(how_much, other.origin) && self.size.is_within(how_much, other.size)
    }
}

/// The least distance in units that is not below a tenth of a pixel.
pub const SAME_AS_UNITS: i64 = 5;

/// Equality up to (but not at) a tenth of a pixel in every component.
pub trait SameAs: IsWithin {
    fn same_as(&self, other: Self) -> (b: bool)
        ensures
            b == self.near(SAME_AS_UNITS as int, other),
    ;
}

impl SameAs for CGRect {
    fn same_as(&self, other: Self) -> (b: bool) {
        self.is_within(SAME_AS_UNITS, other)
    }
}

impl SameAs for CGPoint {
    fn same_as(&self, other: Self) -> (b: bool) {
        self.is_within(SAME_AS_UNITS, other)
    }
}

impl SameAs for CGSize {
    fn same_as(&self, other: Self) -> (b: bool) {
        self.is_within(SAME_AS_UNITS, other)
    }
}

/// A whole number of units is below [`SAME_AS_UNITS`] exactly when it is below
/// a tenth of a pixel.
pub proof fn law_same_as_is_a_tenth_of_a_pixel(units: int)
    ensures
        units < SAME_AS_UNITS <==> 10 * units < PX,
{
}

/// Set operations on rectangles.
pub trait CGRectExt: Sized {
    /// The arithmetic of these operations cannot overflow.
    spec fn computable(&self) -> bool;

    spec fn meet(&self, other: Self) -> Self;

    spec fn has_point(&self, point: CGPoint) -> bool;

    spec fn has_rect(&self, other: Self) -> bool;

    spec fn product(&self) -> int;

    fn intersection(&self, other: &Self) -> (r: Self)
        requires
            self.computable(),
            other.computable(),
        ensures
            r == self.meet(*other),
    ;

    fn contains(&self, point: CGPoint) -> (b: bool)
        requires
            self.computable(),
        ensures
            b == self.has_point(point),
    ;

    fn contains_rect(&self, other: Self) -> (b: bool)
        requires
            self.computable(),
            other.computable(),
        ensures
            b == self.has_rect(other),
    ;

    /// Width times height, in square units.
    fn area(&self) -> (a: i128)
        ensures
            a == self.product(),
    ;
}

impl CGRectExt for CGRect {
    open spec fn computable(&self) -> bool {
        self.wide()
    }

    /// The common part; where there is none, an empty rectangle at the larger
    /// of the two origins.
    open spec fn meet(&self, other: Self) -> Self {
        CGRect {
            origin: CGPoint {
                x: imax(self.min_x(), other.min_x()) as i64,
                y: imax(self.min_y(), other.min_y()) as i64,
            },
            size: CGSize {
                width: self.shared_width(other) as i64,
                height: self.shared_height(other) as i64,
            },
        }
    }

    open spec fn has_point(&self, point: CGPoint) -> bool {
        self.covers(point)
    }

    open spec fn has_rect(&self, other: Self) -> bool {
        self.min_x() <= other.min_x() && self.min_y() <= other.min_y() && self.max_x()
            >= other.max_x() && self.max_y() >= other.max_y()
    }

    open spec fn product(&self) -> int {
        self.size.width * self.size.height
    }

    fn intersection(&self, other: &Self) -> (r: Self) {
        let a = self.max();
        let b = other.max();
        let min_x: i64 = max_i64(self.origin.x, other.origin.x);
        let max_x: i64 = min_i64(a.x, b.x);
        let min_y: i64 = max_i64(self.origin.y, other.origin.y);
        let max_y: i64 = min_i64(a.y, b.y);
        CGRect {
            origin: CGPoint::new(min_x, min_y),
            size: CGSize::new(max_i64(max_x - min_x, 0), max_i64(max_y - min_y, 0)),
        }
    }

    fn contains(&self, point: CGPoint) -> (b: bool) {
        let max = self.max();
        self.origin.x <= point.x && point.x <= max.x && self.origin.y <= point.y && point.y <= max.y
    }

    fn contains_rect(&self, other: Self) -> (b: bool) {
        let a = self.max();
        let b = other.max();
        self.origin.x <= other.origin.x && self.origin.y <= other.origin.y && a.x >= b.x && a.y
            >= b.y
    }

    fn area(&self) -> (a: i128) {
        proof {
            lemma_i64_product_fits(self.size.width as int, self.size.height as int);
        }
        self.size.width as i128 * self.size.height as i128
    }
}

proof fn lemma_i64_product_fits(a: int, b: int)
    by (nonlinear_arith)
    requires
        i64::MIN <= a <= i64::MAX,
        i64::MIN <= b <= i64::MAX,
    ensures
        i128::MIN <= a * b <= i128::MAX,
{
}

/// The area of the intersection is the shared area, and it is positive exactly
/// when the rectangles overlap.
pub proof fn lemma_meet_area(a: CGRect, b: CGRect)
    requires
        a.wide(),
        b.wide(),
    ensures
        a.meet(b).product() == a.shared_area(b),
        a.shared_area(b) > 0 <==> a.overlaps(b),
        a.shared_area(b) >= 0,
{
    let w = a.shared_width(b);
    let h = a.shared_height(b);
    assert(w * h > 0 <==> (w > 0 && h > 0)) by (nonlinear_arith)
        requires
            w >= 0,
            h >= 0,
    ;
    assert(w * h >= 0) by (nonlinear_arith)
        requires
            w >= 0,
            h >= 0,
    ;
}

/// The rectangles of `occluders` that overlap `frame`, in order.
pub open spec fn obstructing(frame: CGRect, occluders: Seq<CGRect>) -> Seq<CGRect>
    decreases occluders.len(),
{
    if occluders.len() == 0 {
        Seq::empty()
    } else {
        let before = obstructing(frame, occluders.drop_last());
        if frame.overlaps(occluders.last()) {
            before.push(occluders.last())
        } else {
            before
        }
    }
}

/// Some rectangle of `occluders` covers `p`.
pub open spec fn obstructed(occluders: Seq<CGRect>, p: CGPoint) -> bool {
    exists|k: int| 0 <= k < occluders.len() && (#[trigger] occluders[k]).covers(p)
}

/// Number of points on the sampling grid.
pub const WARP_SAMPLES: i64 = 576;

/// Offset of the centre of cell `i` of the grid along a side of length `side`.
pub open spec fn cell_centre(i: int, side: int) -> int {
    (2 * i + 1) * side / (PX as int)
}

/// Sample `n`: the cells are walked column by column, each from its top.
pub open spec fn warp_sample(frame: CGRect, n: int) -> CGPoint {
    CGPoint {
        x: (frame.origin.x + cell_centre(n / (WARP_GRID as int), frame.size.width as int)) as i64,
        y: (frame.origin.y + cell_centre(n % (WARP_GRID as int), frame.size.height as int)) as i64,
    }
}

/// Distance from `c` to the interval from `lo` to `hi`.
pub open spec fn axis_gap(lo: int, hi: int, c: int) -> int {
    imax(imax(lo - c, c - hi), 0)
}

/// Square of the distance from `p` to the rectangle.
pub open spec fn distance_sq(r: CGRect, p: CGPoint) -> int {
    let dx = axis_gap(r.min_x(), r.max_x(), p.x as int);
    let dy = axis_gap(r.min_y(), r.max_y(), p.y as int);
    dx * dx + dy * dy
}

/// Distance from `p` to the nearest edge of the frame.
pub open spec fn edge_depth(frame: CGRect, p: CGPoint) -> int {
    imin(
        imin(p.x - frame.min_x(), frame.max_x() - p.x),
        imin(p.y - frame.min_y(), frame.max_y() - p.y),
    )
}

/// Square of the distance from `p` to the nearest of the frame's edges and the
/// occluders.
pub open spec fn clearance_sq(frame: CGRect, occluders: Seq<CGRect>, p: CGPoint) -> int
    decreases occluders.len(),
{
    if occluders.len() == 0 {
        edge_depth(frame, p) * edge_depth(frame, p)
    } else {
        imin(
            distance_sq(occluders.last(), p),
            clearance_sq(frame, occluders.drop_last(), p),
        )
    }
}

/// Among the first `count` samples, `n` is the first of those with the greatest
/// clearance that no occluder covers.
pub open spec fn best_sample(frame: CGRect, occluders: Seq<CGRect>, count: int, n: int) -> bool {
    &&& 0 <= n < count
    &&& !obstructed(occluders, warp_sample(frame, n))
    &&& forall|m: int|
        0 <= m < count && !obstructed(occluders, #[trigger] warp_sample(frame, m)) ==> {
            let at_m = clearance_sq(frame, occluders, warp_sample(frame, m));
            let at_n = clearance_sq(frame, occluders, warp_sample(frame, n));
            at_m <= at_n && (m < n ==> at_m < at_n)
        }
}

/// Every one of the first `count` samples is covered.
pub open spec fn all_obstructed(frame: CGRect, occluders: Seq<CGRect>, count: int) -> bool {
    forall|n: int| 0 <= n < count ==> obstructed(occluders, #[trigger] warp_sample(frame, n))
}

/// `p` is where the mouse warps to for `frame` under `occluders`.
pub open spec fn is_warp_point(frame: CGRect, occluders: Seq<CGRect>, p: CGPoint) -> bool {
    let hits = obstructing(frame, occluders);
    if hits.len() == 0 || all_obstructed(frame, hits, WARP_SAMPLES as int) {
        p == frame.middle()
    } else {
        exists|n: int|
            best_sample(frame, hits, WARP_SAMPLES as int, n) && p == #[trigger] warp_sample(
                frame,
                n,
            )
    }
}

proof fn lemma_cell_centre(i: int, side: int)
    requires
        0 <= i < WARP_GRID,
        0 <= side,
    ensures
        0 <= (2 * i + 1) * side <= PX * side,
        0 <= cell_centre(i, side) <= side,
{
    let k = 2 * i + 1;
    assert(0 <= k * side <= 48 * side) by (nonlinear_arith)
        requires
            0 <= k <= 48,
            0 <= side,
    ;
}

pub proof fn lemma_sample_inside(frame: CGRect, n: int)
    requires
        frame.in_range(),
        frame.size.width >= 0,
        frame.size.height >= 0,
        0 <= n < WARP_SAMPLES,
    ensures
        frame.covers(warp_sample(frame, n)),
        warp_sample(frame, n).x == frame.origin.x + cell_centre(
            n / (WARP_GRID as int),
            frame.size.width as int,
        ),
        warp_sample(frame, n).y == frame.origin.y + cell_centre(
            n % (WARP_GRID as int),
            frame.size.height as int,
        ),
{
    lemma_cell_centre(n / (WARP_GRID as int), frame.size.width as int);
    lemma_cell_centre(n % (WARP_GRID as int), frame.size.height as int);
}

proof fn lemma_obstructing_positive(frame: CGRect, occluders: Seq<CGRect>)
    ensures
        obstructing(frame, occluders).len() > 0 ==> frame.size.width > 0 && frame.size.height > 0,
        forall|k: int|
            0 <= k < obstructing(frame, occluders).len() ==> occluders.contains(
                #[trigger] obstructing(frame, occluders)[k],
            ),
    decreases occluders.len(),
{
    if occluders.len() > 0 {
        lemma_obstructing_positive(frame, occluders.drop_last());
        let hits = obstructing(frame, occluders);
        let before = obstructing(frame, occluders.drop_last());
        assert forall|k: int| 0 <= k < hits.len() implies occluders.contains(
            #[trigger] hits[k],
        ) by {
            if k < before.len() {
                assert(hits[k] == before[k]);
                let i = choose|i: int|
                    0 <= i < occluders.drop_last().len() && occluders.drop_last()[i] == before[k];
                assert(occluders[i] == hits[k]);
            } else {
                assert(occluders[occluders.len() - 1] == hits[k]);
            }
        }
    }
}

/// The warp point lies inside the frame.
pub proof fn law_warp_point_is_inside_the_frame(
    frame: CGRect,
    occluders: Seq<CGRect>,
    p: CGPoint,
)
    requires
        frame.in_range(),
        frame.size.width >= 0,
        frame.size.height >= 0,
        is_warp_point(frame, occluders, p),
    ensures
        frame.covers(p),
{
    let hits = obstructing(frame, occluders);
    if !(hits.len() == 0 || all_obstructed(frame, hits, WARP_SAMPLES as int)) {
        let n = choose|n: int|
            best_sample(frame, hits, WARP_SAMPLES as int, n) && p == #[trigger] warp_sample(
                frame,
                n,
            );
        lemma_sample_inside(frame, n);
    }
}

/// The warp point lies on no occluder that overlaps the frame, unless those
/// leave no sample uncovered.
pub proof fn law_warp_point_avoids_occluders(
    frame: CGRect,
    occluders: Seq<CGRect>,
    p: CGPoint,
    k: int,
)
    requires
        is_warp_point(frame, occluders, p),
        0 <= k < occluders.len(),
        frame.overlaps(occluders[k]),
        !all_obstructed(frame, obstructing(frame, occluders), WARP_SAMPLES as int),
    ensures
        !occluders[k].covers(p),
{
    let hits = obstructing(frame, occluders);
    lemma_obstructing_keeps(frame, occluders, k);
    let h = choose|h: int| 0 <= h < hits.len() && hits[h] == occluders[k];
    assert(hits[h] == occluders[k]);
}

pub proof fn lemma_obstructing_keeps(frame: CGRect, occluders: Seq<CGRect>, k: int)
    requires
        0 <= k < occluders.len(),
        frame.overlaps(occluders[k]),
    ensures
        obstructing(frame, occluders).contains(occluders[k]),
    decreases occluders.len(),
{
    let hits = obstructing(frame, occluders);
    if k == occluders.len() - 1 {
        assert(hits[hits.len() - 1] == occluders[k]);
    } else {
        lemma_obstructing_keeps(frame, occluders.drop_last(), k);
        let before = obstructing(frame, occluders.drop_last());
        let h = choose|h: int| 0 <= h < before.len() && before[h] == occluders[k];
        assert(hits[h] == before[h]);
    }
}

/// With no overlapping occluder the warp point is exactly the middle.
pub proof fn law_unobstructed_warp_point_is_the_middle(
    frame: CGRect,
    occluders: Seq<CGRect>,
    p: CGPoint,
)
    requires
        is_warp_point(frame, occluders, p),
        forall|k: int| 0 <= k < occluders.len() ==> !frame.overlaps(#[trigger] occluders[k]),
    ensures
        p == frame.middle(),
{
    lemma_nothing_obstructing(frame, occluders);
}

proof fn lemma_nothing_obstructing(frame: CGRect, occluders: Seq<CGRect>)
    requires
        forall|k: int| 0 <= k < occluders.len() ==> !frame.overlaps(#[trigger] occluders[k]),
    ensures
        obstructing(frame, occluders).len() == 0,
    decreases occluders.len(),
{
    if occluders.len() > 0 {
        let fewer = occluders.drop_last();
        assert forall|k: int| 0 <= k < fewer.len() implies !frame.overlaps(
            #[trigger] fewer[k],
        ) by {
            assert(fewer[k] == occluders[k]);
        }
        lemma_nothing_obstructing(frame, fewer);
        assert(!frame.overlaps(occluders[occluders.len() - 1]));
    }
}

/// Where one occluder covers the whole frame the warp point is the middle.
pub proof fn law_covered_warp_point_is_the_middle(
    frame: CGRect,
    occluders: Seq<CGRect>,
    p: CGPoint,
    k: int,
)
    requires
        frame.in_range(),
        frame.size.width > 0,
        frame.size.height > 0,
        is_warp_point(frame, occluders, p),
        0 <= k < occluders.len(),
        occluders[k].has_rect(frame),
    ensures
        p == frame.middle(),
{
    let hits = obstructing(frame, occluders);
    assert(frame.overlaps(occluders[k]));
    lemma_obstructing_keeps(frame, occluders, k);
    let h = choose|h: int| 0 <= h < hits.len() && hits[h] == occluders[k];
    assert forall|n: int| 0 <= n < WARP_SAMPLES implies obstructed(
        hits,
        #[trigger] warp_sample(frame, n),
    ) by {
        lemma_sample_inside(frame, n);
        assert(hits[h].covers(warp_sample(frame, n)));
    }
}

/// One frame and one list of occluders have one warp point.
pub proof fn law_warp_point_is_unique(
    frame: CGRect,
    occluders: Seq<CGRect>,
    p: CGPoint,
    q: CGPoint,
)
    requires
        is_warp_point(frame, occluders, p),
        is_warp_point(frame, occluders, q),
    ensures
        p == q,
{
    let hits = obstructing(frame, occluders);
    let all = WARP_SAMPLES as int;
    if !(hits.len() == 0 || all_obstructed(frame, hits, all)) {
        let n = choose|n: int|
            best_sample(frame, hits, all, n) && p == #[trigger] warp_sample(frame, n);
        let m = choose|m: int|
            best_sample(frame, hits, all, m) && q == #[trigger] warp_sample(frame, m);
        assert(n == m);
    }
}

/// Squares of distances between points in range stay far from overflow.
proof fn lemma_square_fits(d: int)
    by (nonlinear_arith)
    requires
        -8 * COORD_LIMIT <= d <= 8 * COORD_LIMIT,
    ensures
        0 <= d * d <= 64 * 0x100_0000_0000 * 0x100_0000_0000,
{
}

fn axis_gap_of(lo: i64, hi: i64, c: i64) -> (d: i64)
    requires
        -2 * COORD_LIMIT <= lo <= 2 * COORD_LIMIT,
        -2 * COORD_LIMIT <= hi <= 2 * COORD_LIMIT,
        -2 * COORD_LIMIT <= c <= 2 * COORD_LIMIT,
    ensures
        d == axis_gap(lo as int, hi as int, c as int),
        0 <= d <= 4 * COORD_LIMIT,
{
    max_i64(max_i64(lo - c, c - hi), 0)
}

fn distance_sq_to(r: CGRect, p: CGPoint) -> (d: i128)
    requires
        r.in_range(),
        p.within(2 * COORD_LIMIT),
    ensures
        d == distance_sq(r, p),
{
    let max = r.max();
    let dx: i64 = axis_gap_of(r.origin.x, max.x, p.x);
    let dy: i64 = axis_gap_of(r.origin.y, max.y, p.y);
    proof {
        lemma_square_fits(dx as int);
        lemma_square_fits(dy as int);
    }
    dx as i128 * dx as i128 + dy as i128 * dy as i128
}

/// [`clearance_sq`] of an uncovered point; `None` where an occluder covers it.
fn clearance_of(frame: CGRect, occluders: &Vec<CGRect>, p: CGPoint) -> (c: Option<i128>)
    requires
        frame.in_range(),
        p.within(2 * COORD_LIMIT),
        forall|k: int| 0 <= k < occluders@.len() ==> (#[trigger] occluders@[k]).in_range(),
    ensures
        c is None <==> obstructed(occluders@, p),
        c matches Some(v) ==> v == clearance_sq(frame, occluders@, p),
{
    let max = frame.max();
    let edge: i64 = min_i64(
        min_i64(p.x - frame.origin.x, max.x - p.x),
        min_i64(p.y - frame.origin.y, max.y - p.y),
    );
    proof {
        lemma_square_fits(edge as int);
    }
    let mut score: i128 = edge as i128 * edge as i128;
    let mut k: usize = 0;
    assert(occluders@.take(0) =~= Seq::<CGRect>::empty());
    while k < occluders.len()
        invariant
            k <= occluders@.len(),
            frame.in_range(),
            p.within(2 * COORD_LIMIT),
            forall|h: int| 0 <= h < occluders@.len() ==> (#[trigger] occluders@[h]).in_range(),
            forall|h: int| 0 <= h < k ==> !(#[trigger] occluders@[h]).covers(p),
            score == clearance_sq(frame, occluders@.take(k as int), p),
        decreases occluders@.len() - k,
    {
        let o = occluders[k];
        if o.contains(p) {
            assert(occluders@[k as int].covers(p));
            return None;
        }
        let d: i128 = distance_sq_to(o, p);
        assert(occluders@.take(k + 1).drop_last() =~= occluders@.take(k as int));
        if d <= score {
            score = d;
        }
        k += 1;
    }
    assert(occluders@.take(k as int) =~= occluders@);
    Some(score)
}

/// A point inside `frame` on a visible (unoccluded) part of the window, for
/// mouse warps. With no overlapping occluder this is exactly the middle of the
/// frame; where floats cover parts of the frame it is the sampled point deepest
/// inside the uncovered region (farthest from every occluder and from the frame
/// edge); where no sample is uncovered it falls back to the middle.
pub fn visible_warp_point(frame: CGRect, occluders: &Vec<CGRect>) -> (p: CGPoint)
    requires
        frame.in_range(),
        forall|k: int| 0 <= k < occluders@.len() ==> (#[trigger] occluders@[k]).in_range(),
    ensures
        is_warp_point(frame, occluders@, p),
{
    let mut hits: Vec<CGRect> = Vec::new();
    let mut k: usize = 0;
    assert(occluders@.take(0) =~= Seq::<CGRect>::empty());
    while k < occluders.len()
        invariant
            k <= occluders@.len(),
            frame.in_range(),
            forall|h: int| 0 <= h < occluders@.len() ==> (#[trigger] occluders@[h]).in_range(),
            hits@ == obstructing(frame, occluders@.take(k as int)),
        decreases occluders@.len() - k,
    {
        let o = occluders[k];
        proof {
            lemma_meet_area(frame, o);
            assert(occluders@.take(k + 1).drop_last() =~= occluders@.take(k as int));
        }
        if frame.intersection(&o).area() > 0 {
            hits.push(o);
        }
        k += 1;
    }
    assert(occluders@.take(k as int) =~= occluders@);
    proof {
        lemma_obstructing_positive(frame, occluders@);
    }
    if hits.len() == 0 {
        return frame.mid();
    }
    let mut best: Option<(i128, CGPoint)> = None;
    let ghost mut chosen: int = 0;
    let mut n: i64 = 0;
    while n < WARP_SAMPLES
        invariant
            0 <= n <= WARP_SAMPLES,
            frame.in_range(),
            frame.size.width > 0,
            frame.size.height > 0,
            forall|h: int| 0 <= h < hits@.len() ==> (#[trigger] hits@[h]).in_range(),
            best is None ==> all_obstructed(frame, hits@, n as int),
            best matches Some((score, at)) ==> best_sample(frame, hits@, n as int, chosen) && at
                == warp_sample(frame, chosen) && score == clearance_sq(frame, hits@, at),
        decreases WARP_SAMPLES - n,
    {
        proof {
            lemma_cell_centre(n as int / (WARP_GRID as int), frame.size.width as int);
            lemma_cell_centre(n as int % (WARP_GRID as int), frame.size.height as int);
            lemma_sample_inside(frame, n as int);
        }
        let at = CGPoint {
            x: frame.origin.x + (2 * (n / WARP_GRID) + 1) * frame.size.width / PX,
            y: frame.origin.y + (2 * (n % WARP_GRID) + 1) * frame.size.height / PX,
        };
        assert(at == warp_sample(frame, n as int));
        if let Some(score) = clearance_of(frame, &hits, at) {
            let better = match best {
                None => true,
                Some((so_far, _)) => score > so_far,
            };
            if better {
                best = Some((score, at));
                proof {
                    chosen = n as int;
                }
            }
        }
        n += 1;
    }
    match best {
        Some((_, at)) => at,
        None => frame.mid(),
    }
}

} // verus!
