use rusttracer::bounding_box::{BoundingBox, KeyPoint};
use rusttracer::{KEY_HALF, KEY_NEG_INF, KEY_ONE, KEY_POS_INF, KEY_ZERO};

fn key(x: f64) -> i64 {
    let x = if x == 0.0 { 0.0 } else { x };
    let b = x.to_bits() as i64;
    b ^ ((((b >> 63) as u64) >> 1) as i64)
}

fn pt(x: f64, y: f64, z: f64) -> KeyPoint {
    KeyPoint::new(key(x), key(y), key(z))
}

fn bx(a: (f64, f64, f64), b: (f64, f64, f64)) -> BoundingBox {
    BoundingBox::new(pt(a.0, a.1, a.2), pt(b.0, b.1, b.2))
}

#[test]
fn keys_match_their_values() {
    assert_eq!(key(f64::INFINITY), KEY_POS_INF);
    assert_eq!(key(f64::NEG_INFINITY), KEY_NEG_INF);
    assert_eq!(key(0.0), KEY_ZERO);
    assert_eq!(key(-0.0), KEY_ZERO);
    assert_eq!(key(0.5), KEY_HALF);
    assert_eq!(key(1.0), KEY_ONE);
    let values = [-1e300, -2.5, -1.0, -1e-300, 0.0, 1e-300, 0.5, 1.0, 3.0, 1e300];
    for w in values.windows(2) {
        assert!(key(w[0]) < key(w[1]));
    }
}

#[test]
fn contains_bounds_inclusive() {
    let b = bx((-1.0, -1.0, -1.0), (1.0, 2.0, 3.0));
    assert!(b.contains(&pt(0.0, 0.0, 0.0)));
    assert!(b.contains(&pt(1.0, 2.0, 3.0)));
    assert!(b.contains(&pt(-1.0, -1.0, -1.0)));
    assert!(!b.contains(&pt(1.5, 0.0, 0.0)));
    assert!(!b.contains(&pt(0.0, 0.0, -1.25)));
}

#[test]
fn union_contains_points_of_both() {
    let a = bx((0.0, 0.0, 0.0), (1.0, 1.0, 1.0));
    let b = bx((2.0, -3.0, 0.5), (4.0, -1.0, 0.75));
    let u = a.union(&b);
    assert_eq!(u, bx((0.0, -3.0, 0.0), (4.0, 1.0, 1.0)));
    for p in [pt(0.5, 0.5, 0.5), pt(3.0, -2.0, 0.6), pt(1.0, 1.0, 1.0), pt(4.0, -3.0, 0.5)] {
        assert!(u.contains(&p));
    }
}

#[test]
fn empty_is_identity_of_union() {
    let x = bx((-2.0, 0.25, 7.0), (3.0, 0.5, 9.0));
    assert_eq!(BoundingBox::empty().union(&x), x);
    assert!(BoundingBox::empty().is_empty());
    assert!(!BoundingBox::empty().contains(&pt(0.0, 0.0, 0.0)));
    assert!(!x.is_empty());
    assert!(bx((1.0, 0.0, 0.0), (0.0, 1.0, 1.0)).is_empty());
}

#[test]
fn union_point_grows_box() {
    let b = bx((0.0, 0.0, 0.0), (1.0, 1.0, 1.0)).union_point(&pt(-1.0, 5.0, 0.5));
    assert_eq!(b, bx((-1.0, 0.0, 0.0), (1.0, 5.0, 1.0)));
    let single = BoundingBox::empty().union_point(&pt(2.0, 3.0, 4.0));
    assert_eq!(single, bx((2.0, 3.0, 4.0), (2.0, 3.0, 4.0)));
}

#[test]
fn intersects_overlap_and_touching() {
    let a = bx((0.0, 0.0, 0.0), (1.0, 1.0, 1.0));
    assert!(a.intersects(&bx((0.5, 0.5, 0.5), (2.0, 2.0, 2.0))));
    assert!(a.intersects(&bx((1.0, 1.0, 1.0), (2.0, 2.0, 2.0))));
    assert!(!a.intersects(&bx((1.5, 0.0, 0.0), (2.0, 1.0, 1.0))));
    assert!(!a.intersects(&BoundingBox::empty()));
}

#[test]
fn from_objects_folds_union() {
    assert_eq!(BoundingBox::from_objects(&vec![]), BoundingBox::empty());
    let boxes = vec![
        bx((0.0, 0.0, 0.0), (1.0, 1.0, 1.0)),
        bx((-1.0, 2.0, 0.0), (0.0, 3.0, 0.5)),
        bx((0.0, 0.0, -4.0), (0.25, 0.25, 0.0)),
    ];
    assert_eq!(BoundingBox::from_objects(&boxes), bx((-1.0, 0.0, -4.0), (1.0, 3.0, 1.0)));
}

#[test]
fn infinite_box_holds_everything() {
    let all = bx(
        (f64::NEG_INFINITY, f64::NEG_INFINITY, f64::NEG_INFINITY),
        (f64::INFINITY, f64::INFINITY, f64::INFINITY),
    );
    assert!(all.contains(&pt(1e300, -1e300, 0.0)));
    assert_eq!(all.union(&bx((0.0, 0.0, 0.0), (1.0, 1.0, 1.0))), all);
}
