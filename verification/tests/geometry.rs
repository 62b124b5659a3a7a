use pong::geometry::{Rect, Viewport};
use pong::units::{rescale_about, sat_add, sat_neg, UNIT};

#[test]
fn unit_is_a_thousandth_of_a_pixel() {
    assert_eq!(UNIT, 1000);
}

#[test]
fn rects_apart_do_not_overlap() {
    let a = Rect { x: 0, y: 0, w: 10, h: 10 };
    assert!(!a.overlaps(&Rect { x: 11, y: 0, w: 10, h: 10 }));
    assert!(!a.overlaps(&Rect { x: 0, y: 11, w: 10, h: 10 }));
    assert!(!a.overlaps(&Rect { x: -21, y: 0, w: 20, h: 10 }));
    assert!(!a.overlaps(&Rect { x: 0, y: -21, w: 10, h: 20 }));
}

#[test]
fn rects_that_share_area_overlap() {
    let a = Rect { x: 0, y: 0, w: 10, h: 10 };
    assert!(a.overlaps(&Rect { x: 5, y: 5, w: 10, h: 10 }));
    assert!(a.overlaps(&Rect { x: 2, y: 2, w: 3, h: 3 }));
    assert!(a.overlaps(&a));
}

#[test]
fn rects_that_touch_overlap() {
    let a = Rect { x: 0, y: 0, w: 10, h: 10 };
    assert!(a.overlaps(&Rect { x: 10, y: 0, w: 10, h: 10 }));
    assert!(a.overlaps(&Rect { x: 10, y: 10, w: 10, h: 10 }));
    assert!(a.overlaps(&Rect { x: -10, y: -10, w: 10, h: 10 }));
}

#[test]
fn overlap_is_mutual() {
    let a = Rect { x: 3, y: 4, w: 10, h: 2 };
    let b = Rect { x: 12, y: 5, w: 1, h: 30 };
    let c = Rect { x: 14, y: 5, w: 1, h: 30 };
    assert_eq!(a.overlaps(&b), b.overlaps(&a));
    assert_eq!(a.overlaps(&c), c.overlaps(&a));
    assert!(a.overlaps(&b));
    assert!(!a.overlaps(&c));
}

#[test]
fn overlap_at_the_limits_of_the_range() {
    let a = Rect { x: i64::MAX, y: 0, w: i64::MAX, h: 10 };
    let b = Rect { x: i64::MIN, y: 0, w: 10, h: 10 };
    assert!(!a.overlaps(&b));
    assert!(a.overlaps(&a));
}

#[test]
fn viewport_needs_positive_sides() {
    assert_eq!(Viewport::new(1, 1), Some(Viewport { w: 1, h: 1 }));
    assert_eq!(Viewport::new(0, 10), None);
    assert_eq!(Viewport::new(10, 0), None);
    assert_eq!(Viewport::new(-5, 10), None);
    assert_eq!(Viewport::new(10, -5), None);
}

#[test]
fn sums_saturate() {
    assert_eq!(sat_add(2, 3), 5);
    assert_eq!(sat_add(-2, -3), -5);
    assert_eq!(sat_add(i64::MAX, 1), i64::MAX);
    assert_eq!(sat_add(i64::MIN, -1), i64::MIN);
    assert_eq!(sat_add(i64::MAX, i64::MIN), -1);
}

#[test]
fn negation_saturates() {
    assert_eq!(sat_neg(5), -5);
    assert_eq!(sat_neg(-5), 5);
    assert_eq!(sat_neg(0), 0);
    assert_eq!(sat_neg(i64::MIN), i64::MAX);
    assert_eq!(sat_neg(i64::MAX), -i64::MAX);
}

#[test]
fn rescaling_keeps_proportion() {
    assert_eq!(rescale_about(300, 0, 720, 1440), 600);
    assert_eq!(rescale_about(300, 0, 720, 360), 150);
    assert_eq!(rescale_about(0, 0, 720, 360), 0);
    assert_eq!(rescale_about(720, 0, 720, 1), 1);
}

#[test]
fn rescaling_rounds_toward_zero() {
    assert_eq!(rescale_about(1, 0, 3, 2), 0);
    assert_eq!(rescale_about(2, 0, 3, 2), 1);
    assert_eq!(rescale_about(-1, 0, 3, 2), 0);
    assert_eq!(rescale_about(-2, 0, 3, 2), -1);
    assert_eq!(rescale_about(-5, 0, 3, 2), -3);
}

#[test]
fn rescaling_about_an_offset() {
    // The point 12 beyond 88 is 100; half of it is 50; 12 before that is 38.
    assert_eq!(rescale_about(88, 12, 200, 100), 38);
    assert_eq!(rescale_about(-12, 12, 200, 100), -12);
}

#[test]
fn rescaling_saturates() {
    assert_eq!(rescale_about(i64::MAX, 0, 1, 2), i64::MAX);
    assert_eq!(rescale_about(i64::MIN, 0, 1, 2), i64::MIN);
    assert_eq!(rescale_about(i64::MAX, i64::MAX, 1, i64::MAX), i64::MAX);
    assert_eq!(rescale_about(i64::MIN, i64::MIN, 1, i64::MAX), i64::MIN);
    assert_eq!(rescale_about(i64::MAX, 0, i64::MAX, i64::MAX), i64::MAX);
}
