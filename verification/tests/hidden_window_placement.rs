use rift::model::hidden_window_placement::{HiddenWindowPlacement, HideCorner};
use rift::sys::geometry::CGRect;

fn rect(x: i32, y: i32, width: i32, height: i32) -> CGRect {
    CGRect::from_px(x, y, width, height)
}

#[test]
fn anchors_to_requested_corner() {
    let hidden = HiddenWindowPlacement::calculate(
        rect(0, 0, 1000, 800),
        rect(10, 20, 200, 100),
        HideCorner::BottomRight,
        &vec![],
    );
    assert_eq!(hidden, rect(999, 799, 200, 100));
}

#[test]
fn avoids_an_adjacent_monitor() {
    let screen = rect(0, 0, 1000, 800);
    let hidden = HiddenWindowPlacement::calculate(
        screen,
        rect(0, 0, 200, 100),
        HideCorner::BottomRight,
        &vec![rect(1000, 0, 1000, 800)],
    );
    // Prefer left edge / top-left over overlapping the monitor to the right.
    assert!(hidden.origin.x < screen.origin.x || hidden.origin.y < screen.origin.y);
    assert_eq!(HiddenWindowPlacement::intersection_area(rect(1000, 0, 1000, 800), hidden), 0);
}

#[test]
fn uses_bottom_strip_when_horizontally_boxed() {
    let screen = rect(1000, 0, 1000, 800);
    let hidden = HiddenWindowPlacement::calculate(
        screen,
        rect(1100, 100, 200, 100),
        HideCorner::BottomRight,
        &vec![rect(0, 0, 1000, 800), rect(2000, 0, 1000, 800)],
    );
    assert_eq!(hidden, rect(1000, 799, 1, 1));
}

#[test]
fn every_corner_shows_one_pixel() {
    let screen = rect(0, 0, 1000, 800);
    let window = rect(0, 0, 200, 100);
    let at = |corner| HiddenWindowPlacement::calculate(screen, window, corner, &vec![]);
    assert_eq!(at(HideCorner::TopLeft), rect(-199, -99, 200, 100));
    assert_eq!(at(HideCorner::TopRight), rect(999, -99, 200, 100));
    assert_eq!(at(HideCorner::BottomLeft), rect(-199, 799, 200, 100));
    assert_eq!(at(HideCorner::BottomRight), rect(999, 799, 200, 100));
}

#[test]
fn the_left_edge_is_used_beside_a_right_neighbour() {
    // the neighbour takes both right-hand corners and the right edge
    let hidden = HiddenWindowPlacement::calculate(
        rect(0, 0, 1000, 800),
        rect(0, 0, 200, 100),
        HideCorner::BottomRight,
        &vec![rect(1000, 0, 1000, 800)],
    );
    assert_eq!(hidden, rect(-199, 0, 200, 100));
}

#[test]
fn a_display_below_is_left_alone() {
    let below = rect(0, 800, 1000, 800);
    let hidden = HiddenWindowPlacement::calculate(
        rect(0, 0, 1000, 800),
        rect(0, 0, 200, 100),
        HideCorner::BottomLeft,
        &vec![below],
    );
    assert_eq!(HiddenWindowPlacement::intersection_area(below, hidden), 0);
    assert_eq!(hidden, rect(999, 0, 200, 100));
}

#[test]
fn a_window_without_an_anchor_is_still_pushed_clear() {
    // displays on all sides but none in the same row on the left
    let others = vec![rect(1000, 0, 1000, 800), rect(-1000, -800, 3000, 800), rect(-1000, 800, 3000, 800)];
    let hidden = HiddenWindowPlacement::calculate(
        rect(0, 0, 1000, 800),
        rect(0, 0, 200, 2000),
        HideCorner::TopRight,
        &others,
    );
    for other in &others {
        assert_eq!(HiddenWindowPlacement::intersection_area(*other, hidden), 0);
    }
    assert_eq!(hidden.size, rect(0, 0, 200, 2000).size);
}

#[test]
fn a_parked_window_is_hidden() {
    let screen = rect(0, 0, 1000, 800);
    let others = vec![rect(1000, 0, 1000, 800)];
    for corner in [HideCorner::TopLeft, HideCorner::TopRight, HideCorner::BottomLeft, HideCorner::BottomRight] {
        let hidden = HiddenWindowPlacement::calculate(screen, rect(5, 5, 300, 200), corner, &others);
        assert!(HiddenWindowPlacement::is_hidden(screen, hidden, &others));
    }
    let boxed = vec![rect(-1000, 0, 1000, 800), rect(1000, 0, 1000, 800)];
    let strip = HiddenWindowPlacement::calculate(screen, rect(5, 5, 300, 200), HideCorner::TopLeft, &boxed);
    assert!(HiddenWindowPlacement::is_hidden(screen, strip, &boxed));
}

#[test]
fn a_window_in_the_middle_is_not_hidden() {
    let screen = rect(0, 0, 1000, 800);
    assert!(!HiddenWindowPlacement::is_hidden(screen, rect(10, 20, 200, 100), &vec![]));
}

#[test]
fn a_window_that_barely_shows_is_hidden() {
    let screen = rect(0, 0, 1000, 800);
    assert!(HiddenWindowPlacement::is_hidden(screen, rect(997, 797, 200, 100), &vec![]));
    assert!(!HiddenWindowPlacement::is_hidden(screen, rect(996, 797, 200, 100), &vec![]));
}

#[test]
fn opposite_mirrors_along_the_edge() {
    assert_eq!(HideCorner::TopLeft.opposite(), HideCorner::TopRight);
    assert_eq!(HideCorner::BottomRight.opposite(), HideCorner::BottomLeft);
    for corner in [HideCorner::TopLeft, HideCorner::TopRight, HideCorner::BottomLeft, HideCorner::BottomRight] {
        assert_eq!(corner.opposite().opposite(), corner);
    }
    assert_eq!(HideCorner::default(), HideCorner::BottomRight);
}

#[test]
fn the_strip_stays_on_its_display() {
    let screen = rect(1000, 0, 1000, 800);
    let others = vec![rect(0, 0, 1000, 800), rect(2000, 0, 1000, 800), rect(1000, 800, 1000, 800)];
    let strip = HiddenWindowPlacement::calculate(screen, rect(0, 0, 50, 50), HideCorner::TopLeft, &others);
    for other in &others {
        assert_eq!(HiddenWindowPlacement::intersection_area(*other, strip), 0);
    }
    assert_eq!(HiddenWindowPlacement::intersection_area(screen, strip), 48 * 48);
}

#[test]
fn next_to_another_display_an_edge_is_preferred_to_a_free_corner() {
    let hidden = HiddenWindowPlacement::calculate(
        rect(0, 0, 1000, 800),
        rect(0, 0, 200, 100),
        HideCorner::BottomLeft,
        &vec![rect(1000, 0, 1000, 800)],
    );
    assert_eq!(hidden, rect(-199, 0, 200, 100));
    // far away, it takes nothing, but edges still come first
    let hidden = HiddenWindowPlacement::calculate(
        rect(0, 0, 1000, 800),
        rect(0, 0, 200, 100),
        HideCorner::BottomRight,
        &vec![rect(5000, 5000, 100, 100)],
    );
    assert_eq!(hidden, rect(999, 0, 200, 100));
}
