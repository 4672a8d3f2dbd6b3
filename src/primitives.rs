//! The acceptance rules of the ray/primitive tests. The caller solves each
//! test's equations and hands over the order keys of the quantities; these
//! functions decide whether there is a hit and at which distance.
use vstd::prelude::*;

use crate::keys::{KEY_ONE, KEY_TRIANGLE_EPSILON, KEY_ZERO};

verus! {

/// Sphere: no hit when the discriminant is negative or both roots lie behind
/// the origin; else the smaller of the roots that are not negative.
pub open spec fn sphere_hit_spec(discriminant: i64, t1: i64, t2: i64) -> Option<i64> {
    if discriminant < KEY_ZERO || (t1 < KEY_ZERO && t2 < KEY_ZERO) {
        None
    } else if t1 < KEY_ZERO {
        Some(t2)
    } else if t2 < KEY_ZERO {
        Some(t1)
    } else if t1 <= t2 {
        Some(t1)
    } else {
        Some(t2)
    }
}

pub fn sphere_hit(discriminant: i64, t1: i64, t2: i64) -> (r: Option<i64>)
    ensures
        r == sphere_hit_spec(discriminant, t1, t2),
        r matches Some(t) ==> KEY_ZERO <= t && (t == t1 || t == t2),
        r matches Some(t) ==> (KEY_ZERO <= t1 ==> t <= t1) && (KEY_ZERO <= t2 ==> t <= t2),
        discriminant >= KEY_ZERO && (KEY_ZERO <= t1 || KEY_ZERO <= t2) ==> r is Some,
{
    if discriminant < KEY_ZERO {
        None
    } else if t1 < KEY_ZERO && t2 < KEY_ZERO {
        None
    } else if t1 < KEY_ZERO {
        Some(t2)
    } else if t2 < KEY_ZERO {
        Some(t1)
    } else if t1 <= t2 {
        Some(t1)
    } else {
        Some(t2)
    }
}

/// A sphere whose two roots both lie behind the ray's origin, as when the
/// origin is outside the sphere and the ray is aimed away from it, is not hit.
pub proof fn lemma_sphere_behind_misses(discriminant: i64, t1: i64, t2: i64)
    requires
        t1 < KEY_ZERO,
        t2 < KEY_ZERO,
    ensures
        sphere_hit_spec(discriminant, t1, t2) is None,
{
}

/// When both roots lie ahead of the origin, as when the origin is outside
/// the sphere and the ray is aimed through it, the hit is the near root.
pub proof fn lemma_sphere_near_side(discriminant: i64, t1: i64, t2: i64)
    requires
        KEY_ZERO <= discriminant,
        KEY_ZERO <= t1 <= t2,
    ensures
        sphere_hit_spec(discriminant, t1, t2) == Some(t1),
{
}

/// Plane: one-sided. A ray whose direction makes a non-negative dot product
/// with the plane's normal (parallel or from behind) misses, and so does a
/// hit behind the origin.
pub fn plane_hit(denominator: i64, t: i64) -> (r: Option<i64>)
    ensures
        r == if denominator >= KEY_ZERO || t < KEY_ZERO {
            None
        } else {
            Some(t)
        },
{
    if denominator >= KEY_ZERO || t < KEY_ZERO {
        None
    } else {
        Some(t)
    }
}

/// Triangle (Moller-Trumbore): a hit needs a determinant of size at least
/// the epsilon, barycentric coordinates `u` in `[0, 1]`, `v >= 0` and
/// `u + v <= 1`, and a distance above the epsilon.
pub open spec fn triangle_hit_spec(det_size: i64, u: i64, v: i64, u_plus_v: i64, t: i64) -> Option<i64> {
    if det_size < KEY_TRIANGLE_EPSILON {
        None
    } else if u < KEY_ZERO || u > KEY_ONE {
        None
    } else if v < KEY_ZERO || u_plus_v > KEY_ONE {
        None
    } else if t > KEY_TRIANGLE_EPSILON {
        Some(t)
    } else {
        None
    }
}

pub fn triangle_hit(det_size: i64, u: i64, v: i64, u_plus_v: i64, t: i64) -> (r: Option<i64>)
    ensures
        r == triangle_hit_spec(det_size, u, v, u_plus_v, t),
        r is Some <==> (KEY_TRIANGLE_EPSILON <= det_size && KEY_ZERO <= u <= KEY_ONE && KEY_ZERO
            <= v && u_plus_v <= KEY_ONE && t > KEY_TRIANGLE_EPSILON),
{
    if det_size < KEY_TRIANGLE_EPSILON {
        None
    } else if u < KEY_ZERO || u > KEY_ONE {
        None
    } else if v < KEY_ZERO || u_plus_v > KEY_ONE {
        None
    } else if t > KEY_TRIANGLE_EPSILON {
        Some(t)
    } else {
        None
    }
}

} // verus!
