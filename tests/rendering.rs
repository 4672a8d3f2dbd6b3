use rusttracer::raster::{neighbors, pixel_coords, supersample};
use rusttracer::shading::{casts_into_scene, clamp_unit, lit_lights, reflection_step, spot_factor, Reflection};
use rusttracer::{KEY_ONE, KEY_ZERO};

fn key(x: f64) -> i64 {
    let x = if x == 0.0 { 0.0 } else { x };
    let b = x.to_bits() as i64;
    b ^ ((((b >> 63) as u64) >> 1) as i64)
}

#[test]
fn cast_past_bounce_limit_sees_background() {
    assert!(!casts_into_scene(1, 0));
    assert!(!casts_into_scene(6, 5));
    assert!(!casts_into_scene(u32::MAX, 3));
    assert!(casts_into_scene(0, 0));
    assert!(casts_into_scene(5, 5));
}

#[test]
fn reflection_steps() {
    assert_eq!(reflection_step(0, 3, false), Reflection::Skip);
    assert_eq!(reflection_step(0, 3, true), Reflection::Cast(1));
    assert_eq!(reflection_step(2, 3, true), Reflection::Cast(3));
    assert_eq!(reflection_step(3, 3, true), Reflection::Background);
    assert_eq!(reflection_step(0, 0, true), Reflection::Background);
    assert_eq!(reflection_step(u32::MAX, u32::MAX, true), Reflection::Background);
}

#[test]
fn full_reflection_chain_traces_bounded_times() {
    let max_bounces = 3;
    let mut depth = 0;
    let mut traced = 0;
    loop {
        assert!(casts_into_scene(depth, max_bounces));
        traced += 1;
        match reflection_step(depth, max_bounces, true) {
            Reflection::Cast(d) => depth = d,
            Reflection::Background => break,
            Reflection::Skip => unreachable!(),
        }
    }
    assert_eq!(traced, 4);
}

#[test]
fn lights_behind_occluders_are_dropped() {
    assert_eq!(lit_lights(&vec![false, true, false, true]), vec![0, 2]);
    assert_eq!(lit_lights(&vec![true, true]), Vec::<usize>::new());
    assert_eq!(lit_lights(&vec![]), Vec::<usize>::new());
    assert_eq!(lit_lights(&vec![false, false, false]), vec![0, 1, 2]);
}

#[test]
fn spot_cone_attenuation() {
    // inside the inner cone: full
    assert_eq!(spot_factor(key(0.95), key(0.5), key(0.9)), KEY_ONE);
    // between the two thresholds: the raw cosine
    assert_eq!(spot_factor(key(0.7), key(0.5), key(0.9)), key(0.7));
    // outside the cone: zero
    assert_eq!(spot_factor(key(0.2), key(0.5), key(0.9)), KEY_ZERO);
    // below the cutoff the factor is zero, whatever the falloff
    assert_eq!(spot_factor(key(-0.9), key(-0.8), key(-0.5)), KEY_ZERO);
    assert_eq!(spot_factor(key(0.2), key(0.5), key(-0.1)), KEY_ZERO);
    // a wide cone: above a negative falloff the factor is one
    assert_eq!(spot_factor(key(-0.2), key(-0.8), key(-0.5)), KEY_ONE);
    // at the cutoff itself the cosine is kept
    assert_eq!(spot_factor(key(0.5), key(0.5), key(0.9)), key(0.5));
}

#[test]
fn channel_clamp() {
    assert_eq!(clamp_unit(key(-0.3)), KEY_ZERO);
    assert_eq!(clamp_unit(key(1.7)), KEY_ONE);
    assert_eq!(clamp_unit(key(0.25)), key(0.25));
    assert_eq!(clamp_unit(key(f64::INFINITY)), KEY_ONE);
}

#[test]
fn neighbours_of_interior_pixel() {
    let n = neighbors(1, 1, 3, 3);
    assert_eq!(n, vec![(0, 0), (0, 1), (0, 2), (1, 0), (1, 2), (2, 0), (2, 1), (2, 2)]);
}

#[test]
fn neighbours_of_corner_and_edge() {
    assert_eq!(neighbors(0, 0, 3, 3), vec![(0, 1), (1, 0), (1, 1)]);
    assert_eq!(neighbors(2, 2, 3, 3), vec![(1, 1), (1, 2), (2, 1)]);
    assert_eq!(neighbors(1, 0, 3, 2), vec![(0, 0), (0, 1), (1, 1), (2, 0), (2, 1)]);
    assert_eq!(neighbors(0, 0, 1, 1), Vec::<(usize, usize)>::new());
}

#[test]
fn pixels_in_row_major_order() {
    let p = pixel_coords(3, 2);
    assert_eq!(p, vec![(0, 0), (1, 0), (2, 0), (0, 1), (1, 1), (2, 1)]);
    assert_eq!(pixel_coords(0, 5), Vec::<(usize, usize)>::new());
    let q = pixel_coords(7, 5);
    assert_eq!(q.len(), 35);
    assert_eq!(q[3 + 4 * 7], (3, 4));
}

#[test]
fn supersampling_gate() {
    assert!(supersample(4, key(0.75)));
    assert!(!supersample(4, key(0.5)));
    assert!(!supersample(4, key(0.25)));
    assert!(!supersample(1, key(3.0)));
    assert!(!supersample(0, key(3.0)));
}
