use objc2_core_foundation as ic;
use rift::sys::geometry::{
    half, visible_warp_point, CGPoint, CGRect, CGRectExt, CGSize, IsWithin, Round, SameAs, PX,
};

fn rect(x: i32, y: i32, w: i32, h: i32) -> CGRect {
    CGRect::from_px(x, y, w, h)
}

fn point(x: i64, y: i64) -> CGPoint {
    CGPoint::new(x * PX, y * PX)
}

#[test]
fn no_occluders_is_exactly_center() {
    let frame = rect(100, 100, 400, 300);
    assert_eq!(visible_warp_point(frame, &vec![]), frame.mid());
    assert_eq!(frame.mid(), point(300, 250));
}

#[test]
fn non_intersecting_occluder_is_exactly_center() {
    let frame = rect(0, 0, 200, 200);
    assert_eq!(visible_warp_point(frame, &vec![rect(300, 0, 100, 100)]), frame.mid());
}

#[test]
fn occluded_center_moves_point_to_visible_region() {
    let frame = rect(0, 0, 400, 300);
    // float covering the center and the whole left half
    let float = rect(-50, -50, 350, 400);
    let p = visible_warp_point(frame, &vec![float]);
    assert!(frame.contains(p), "point must stay inside the frame: {p:?}");
    assert!(!float.contains(p), "point must not land on the occluder: {p:?}");
    // visible strip is x in (300, 400); the deepest point is around x=350
    assert!(p.x > 300 * PX, "expected point in the visible strip, got {p:?}");
}

#[test]
fn multiple_occluders_picks_clearest_gap() {
    let frame = rect(0, 0, 400, 400);
    let occ = vec![rect(0, 0, 400, 180), rect(0, 220, 400, 180)];
    let p = visible_warp_point(frame, &occ);
    assert!(!occ[0].contains(p) && !occ[1].contains(p), "landed on an occluder: {p:?}");
    assert!((p.y - 200 * PX).abs() < 20 * PX, "expected the horizontal gap, got {p:?}");
}

#[test]
fn fully_covered_falls_back_to_center() {
    let frame = rect(0, 0, 200, 200);
    let p = visible_warp_point(frame, &vec![rect(-10, -10, 220, 220)]);
    assert_eq!(p, frame.mid());
}

#[test]
fn the_deepest_sample_of_a_half_covered_frame() {
    // 24 by 24 pixels, so that samples lie on the pixel centres. The left half is
    // covered; the strip from 12 to 24 is deepest along its middle, and the first
    // deepest sample is the highest one that keeps that depth.
    let frame = rect(0, 0, 24, 24);
    let p = visible_warp_point(frame, &vec![rect(-4, -4, 16, 32)]);
    assert_eq!(p, CGPoint::new(17 * PX + PX / 2, 5 * PX + PX / 2));
}

#[test]
fn touching_occluders_do_not_count() {
    let frame = rect(0, 0, 100, 100);
    // shares an edge, but no area
    assert_eq!(visible_warp_point(frame, &vec![rect(100, 0, 50, 100)]), frame.mid());
    // has no area itself
    assert_eq!(visible_warp_point(frame, &vec![rect(50, 50, 0, 0)]), frame.mid());
}

#[test]
fn rounding_goes_to_whole_pixels_away_from_zero() {
    assert_eq!(CGPoint::new(PX / 2, -PX / 2).round(), point(1, -1));
    assert_eq!(CGPoint::new(PX / 2 - 1, 1 - PX / 2).round(), point(0, 0));
    assert_eq!(CGSize::new(3 * PX + 1, 3 * PX - 1).round(), CGSize::new(3 * PX, 3 * PX));
}

#[test]
fn rounding_a_rect_rounds_both_corners() {
    // from 0.5 to 2.25 pixels: corners round to 1 and 2
    let r = CGRect::new(CGPoint::new(24, 24), CGSize::new(84, 84)).round();
    assert_eq!(r, rect(1, 1, 1, 1));
}

#[test]
fn neighbours_still_touch_after_rounding() {
    let a = CGRect::new(CGPoint::new(0, 0), CGSize::new(100, 10));
    let b = CGRect::new(CGPoint::new(100, 0), CGSize::new(77, 10));
    assert_eq!(a.round().max().x, b.round().min().x);
}

#[test]
fn same_as_is_below_a_tenth_of_a_pixel() {
    let p = point(10, 10);
    assert!(p.same_as(CGPoint::new(p.x + 4, p.y - 4)));
    assert!(!p.same_as(CGPoint::new(p.x + 5, p.y)));
    assert!(!rect(0, 0, 10, 10).same_as(CGRect::new(point(0, 0), CGSize::new(10 * PX, 10 * PX + 5))));
    assert!(CGSize::new(1, 1).same_as(CGSize::new(2, 3)));
}

#[test]
fn is_within_is_strict() {
    assert!(5i64.is_within(3, 7));
    assert!(!5i64.is_within(2, 7));
    assert!(!i64::MIN.is_within(i64::MAX, i64::MAX));
    assert!(rect(0, 0, 1, 1).is_within(PX + 1, rect(1, 0, 1, 0)));
}

#[test]
fn intersection_contains_and_area() {
    let a = rect(0, 0, 10, 10);
    let b = rect(4, 6, 10, 10);
    assert_eq!(a.intersection(&b), rect(4, 6, 6, 4));
    assert_eq!(a.intersection(&b).area(), 24 * (PX as i128) * (PX as i128));
    // apart: empty, at the larger origin
    assert_eq!(a.intersection(&rect(20, 3, 5, 5)), rect(20, 3, 0, 5));
    assert!(a.contains(point(10, 10)), "the border counts");
    assert!(!a.contains(CGPoint::new(10 * PX + 1, 0)));
    assert!(a.contains_rect(rect(0, 0, 10, 10)));
    assert!(!a.contains_rect(b));
}

#[test]
fn halves_round_down() {
    assert_eq!(half(7), 3);
    assert_eq!(half(-7), -4);
    assert_eq!(half(-8), -4);
}

#[test]
fn corners_and_middles_agree_with_the_system_rectangles() {
    for (x, y, w, h) in [(0, 0, 10, 10), (-7, 3, 25, 11), (100, -50, 1, 3)] {
        let ours = rect(x, y, w, h);
        let theirs = ic::CGRect::new(
            ic::CGPoint::new(x as f64, y as f64),
            ic::CGSize::new(w as f64, h as f64),
        );
        let units = |v: f64| (v * PX as f64) as i64;
        assert_eq!(ours.min(), CGPoint::new(units(theirs.min().x), units(theirs.min().y)));
        assert_eq!(ours.max(), CGPoint::new(units(theirs.max().x), units(theirs.max().y)));
        assert_eq!(ours.mid(), CGPoint::new(units(theirs.mid().x), units(theirs.mid().y)));
    }
}
