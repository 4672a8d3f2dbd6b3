use rusttracer::bounding_box::{slabs_overlap, BoundingBox, KeyPoint};
use rusttracer::color::{hex_from_rgb, rgb_from_hex};
use rusttracer::primitives::{plane_hit, sphere_hit, triangle_hit};
use rusttracer::{KEY_NEG_INF, KEY_POS_INF};

fn key(x: f64) -> i64 {
    let x = if x == 0.0 { 0.0 } else { x };
    let b = x.to_bits() as i64;
    b ^ ((((b >> 63) as u64) >> 1) as i64)
}

/// Roots of |o + t d - c|^2 = r^2 for a ray along the x axis from `ox`
/// towards `dir` (+1 or -1) and a sphere of radius `r` at the origin.
fn sphere_roots(ox: f64, dir: f64, r: f64) -> (f64, f64, f64) {
    let a = dir * dir;
    let b = 2.0 * ox * dir;
    let c = ox * ox - r * r;
    let disc = b * b - 4.0 * a * c;
    let s = disc.max(0.0).sqrt();
    (disc, (-b - s) / (2.0 * a), (-b + s) / (2.0 * a))
}

#[test]
fn sphere_aimed_away_misses() {
    let (disc, t1, t2) = sphere_roots(5.0, 1.0, 1.0);
    assert_eq!(sphere_hit(key(disc), key(t1), key(t2)), None);
}

#[test]
fn sphere_through_center_hits_near_side() {
    let (disc, t1, t2) = sphere_roots(5.0, -1.0, 1.0);
    let hit = sphere_hit(key(disc), key(t1), key(t2));
    assert_eq!(hit, Some(key(4.0)));
}

#[test]
fn sphere_from_inside_takes_exit() {
    assert_eq!(sphere_hit(key(4.0), key(-1.0), key(1.0)), Some(key(1.0)));
    assert_eq!(sphere_hit(key(4.0), key(3.0), key(-1.0)), Some(key(3.0)));
    assert_eq!(sphere_hit(key(4.0), key(3.0), key(2.0)), Some(key(2.0)));
}

#[test]
fn sphere_negative_discriminant_misses() {
    assert_eq!(sphere_hit(key(-0.5), key(1.0), key(2.0)), None);
    assert_eq!(sphere_hit(key(0.0), key(2.0), key(2.0)), Some(key(2.0)));
}

#[test]
fn plane_is_one_sided() {
    assert_eq!(plane_hit(key(-1.0), key(2.0)), Some(key(2.0)));
    assert_eq!(plane_hit(key(1.0), key(2.0)), None);
    assert_eq!(plane_hit(key(0.0), key(f64::INFINITY)), None);
    assert_eq!(plane_hit(key(-1.0), key(-2.0)), None);
}

#[test]
fn triangle_acceptance() {
    assert_eq!(triangle_hit(key(0.5), key(0.25), key(0.25), key(0.5), key(3.0)), Some(key(3.0)));
    assert_eq!(triangle_hit(key(1e-9), key(0.25), key(0.25), key(0.5), key(3.0)), None);
    assert_eq!(triangle_hit(key(0.5), key(-0.1), key(0.25), key(0.15), key(3.0)), None);
    assert_eq!(triangle_hit(key(0.5), key(1.1), key(0.0), key(1.1), key(3.0)), None);
    assert_eq!(triangle_hit(key(0.5), key(0.5), key(-0.1), key(0.4), key(3.0)), None);
    assert_eq!(triangle_hit(key(0.5), key(0.6), key(0.6), key(1.2), key(3.0)), None);
    assert_eq!(triangle_hit(key(0.5), key(0.25), key(0.25), key(0.5), key(1e-7)), None);
    assert_eq!(triangle_hit(key(0.5), key(1.0), key(0.0), key(1.0), key(2.0)), Some(key(2.0)));
}

#[test]
fn slab_test() {
    // a ray along +x through the unit box from x = -5
    let inf = f64::INFINITY;
    assert!(slabs_overlap((key(5.0), key(6.0)), (key(-inf), key(inf)), (key(-inf), key(inf))));
    // disjoint x and y intervals
    assert!(!slabs_overlap((key(1.0), key(2.0)), (key(3.0), key(4.0)), (key(0.0), key(9.0))));
    // x and y overlap on [1.5, 2] which misses z's [3, 4]
    assert!(!slabs_overlap((key(1.0), key(2.0)), (key(1.5), key(4.0)), (key(3.0), key(4.0))));
    assert!(slabs_overlap((key(1.0), key(2.0)), (key(1.5), key(4.0)), (key(2.0), key(4.0))));
    // box [0, 1]^3 seen from (2, 2, 2) along (-1, -1, -1): crossings come far plane first
    let pair = (key(2.0), key(1.0));
    assert!(slabs_overlap(pair, pair, pair));
    // the same ray shifted sideways misses
    assert!(!slabs_overlap((key(2.0), key(1.0)), (key(5.0), key(4.0)), (key(2.0), key(1.0))));
}

#[test]
fn boxes_of_plane_and_triangle() {
    let all = BoundingBox::universe();
    assert_eq!(all.min, KeyPoint::new(KEY_NEG_INF, KEY_NEG_INF, KEY_NEG_INF));
    assert_eq!(all.max, KeyPoint::new(KEY_POS_INF, KEY_POS_INF, KEY_POS_INF));
    let a = KeyPoint::new(key(0.0), key(1.0), key(-2.0));
    let b = KeyPoint::new(key(3.0), key(-1.0), key(0.0));
    let c = KeyPoint::new(key(1.0), key(0.5), key(5.0));
    let t = BoundingBox::of_triangle(&a, &b, &c);
    assert_eq!(t.min, KeyPoint::new(key(0.0), key(-1.0), key(-2.0)));
    assert_eq!(t.max, KeyPoint::new(key(3.0), key(1.0), key(5.0)));
}

#[test]
fn hex_colors() {
    assert_eq!(rgb_from_hex("#1CB5E0"), Some((0x1c, 0xb5, 0xe0)));
    assert_eq!(rgb_from_hex("#FFFFFF"), Some((255, 255, 255)));
    assert_eq!(rgb_from_hex("00ff00"), Some((0, 255, 0)));
    assert_eq!(rgb_from_hex("##a0b0c0ff"), Some((0xa0, 0xb0, 0xc0)));
    assert_eq!(rgb_from_hex("#+f0a0b"), Some((15, 10, 11)));
    assert_eq!(rgb_from_hex("#12345"), None);
    assert_eq!(rgb_from_hex("#12g456"), None);
    assert_eq!(rgb_from_hex(""), None);
}

#[test]
fn hex_text_round_trip() {
    let s = hex_from_rgb(0x1c, 0xb5, 0xe0);
    assert_eq!(String::from_utf8(s.clone()).unwrap(), "#1cb5e0");
    assert_eq!(rgb_from_hex(&String::from_utf8(s).unwrap()), Some((0x1c, 0xb5, 0xe0)));
    assert_eq!(String::from_utf8(hex_from_rgb(0, 9, 255)).unwrap(), "#0009ff");
}
