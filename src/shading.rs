//! The decisions of the recursive shading step: when a cast stops, whether a
//! reflection is cast, which lights reach a point, and how a spot light's
//! cone attenuates.
use vstd::prelude::*;

use crate::keys::{KEY_ONE, KEY_ZERO};

verus! {

/// What becomes of the reflection term of a shaded hit.
#[derive(Clone, Copy, Debug, PartialEq, Eq, Structural)]
pub enum Reflection {
    /// The material does not reflect: the term is zero and nothing is cast.
    Skip,
    /// The reflected ray would exceed the bounce limit: it sees the
    /// background, and nothing is cast.
    Background,
    /// Cast the reflected ray at this depth.
    Cast(u32),
}

/// A cast at `depth` looks at the scene only while it is within the bounce
/// limit; past it, it yields the background whatever the scene holds.
pub open spec fn traces(depth: u32, max_bounces: u32) -> bool {
    depth <= max_bounces
}

/// Whether a cast at `depth` traces the scene (else it returns the
/// background at once).
pub fn casts_into_scene(depth: u32, max_bounces: u32) -> (r: bool)
    ensures
        r == traces(depth, max_bounces),
{
    depth <= max_bounces
}

/// The reflection step of a cast at `depth` that hit a surface whose
/// reflection coefficient is zero (`reflects == false`) or not.
pub fn reflection_step(depth: u32, max_bounces: u32, reflects: bool) -> (r: Reflection)
    requires
        traces(depth, max_bounces),
    ensures
        !reflects ==> r == Reflection::Skip,
        reflects && depth == max_bounces ==> r == Reflection::Background,
        reflects && depth < max_bounces ==> r == Reflection::Cast((depth + 1) as u32),
        r matches Reflection::Cast(d) ==> d == depth + 1 && traces(d, max_bounces),
{
    if !reflects {
        Reflection::Skip
    } else if depth == max_bounces {
        Reflection::Background
    } else {
        Reflection::Cast(depth + 1)
    }
}

/// Number of nested casts that trace the scene, starting from one at `depth`
/// on a surface that always reflects.
pub open spec fn nested_casts(depth: u32, max_bounces: u32) -> nat
    decreases max_bounces - depth,
{
    if !traces(depth, max_bounces) {
        0
    } else if depth == max_bounces {
        1
    } else {
        1 + nested_casts((depth + 1) as u32, max_bounces)
    }
}

/// A chain of reflections started at depth `depth` traces the scene at most
/// `max_bounces + 1 - depth` times, and exactly that often when every
/// surface reflects.
pub proof fn lemma_nested_casts(depth: u32, max_bounces: u32)
    ensures
        nested_casts(depth, max_bounces) == if depth <= max_bounces {
            max_bounces + 1 - depth
        } else {
            0
        },
    decreases max_bounces - depth,
{
    if depth < max_bounces {
        lemma_nested_casts((depth + 1) as u32, max_bounces);
    }
}

/// The indices of the lights whose shadow ray met nothing, in order.
pub fn lit_lights(blocked: &Vec<bool>) -> (r: Vec<usize>)
    ensures
        forall|i: int, j: int| 0 <= i < j < r@.len() ==> r@[i] < r@[j],
        forall|i: int| 0 <= i < r@.len() ==> r@[i] < blocked@.len() && !blocked@[r@[i] as int],
        forall|k: int| 0 <= k < blocked@.len() && !blocked@[k] ==> #[trigger] r@.contains(
            k as usize,
        ),
{
    let mut r: Vec<usize> = Vec::new();
    let mut k: usize = 0;
    while k < blocked.len()
        invariant
            k <= blocked.len(),
            forall|i: int, j: int| 0 <= i < j < r@.len() ==> r@[i] < r@[j],
            forall|i: int| 0 <= i < r@.len() ==> r@[i] < k && !blocked@[r@[i] as int],
            forall|m: int| 0 <= m < k && !blocked@[m] ==> #[trigger] r@.contains(m as usize),
        decreases blocked.len() - k,
    {
        let ghost before = r@;
        if !blocked[k] {
            r.push(k);
            assert(r@[r@.len() - 1] == k);
        }
        proof {
            assert forall|m: int| 0 <= m < k + 1 && !blocked@[m] implies #[trigger] r@.contains(
                m as usize,
            ) by {
                if m == k {
                    assert(r@[r@.len() - 1] == k);
                } else {
                    assert(0 <= m < k && !blocked@[m]);
                    assert(before.contains(m as usize));
                    let j = choose|j: int| 0 <= j < before.len() && before[j] == m as usize;
                    assert(r@[j] == m as usize);
                }
            }
        }
        k = k + 1;
    }
    r
}

/// The attenuation factor of a spot light, from the cosine between the
/// spot's aim and the direction from the point to the light: zero below
/// `cutoff`, one above `falloff`, the cosine itself in between. All four are
/// order keys.
pub open spec fn spot_factor_spec(cosine: i64, cutoff: i64, falloff: i64) -> i64 {
    if cosine < cutoff {
        KEY_ZERO
    } else if cosine > falloff {
        KEY_ONE
    } else {
        cosine
    }
}

pub fn spot_factor(cosine: i64, cutoff: i64, falloff: i64) -> (r: i64)
    ensures
        r == spot_factor_spec(cosine, cutoff, falloff),
{
    if cosine < cutoff {
        KEY_ZERO
    } else if cosine > falloff {
        KEY_ONE
    } else {
        cosine
    }
}

/// A color channel's key clamped to the keys of zero and one.
pub fn clamp_unit(channel: i64) -> (r: i64)
    ensures
        KEY_ZERO <= r <= KEY_ONE,
        channel < KEY_ZERO ==> r == KEY_ZERO,
        channel > KEY_ONE ==> r == KEY_ONE,
        KEY_ZERO <= channel <= KEY_ONE ==> r == channel,
{
    if channel < KEY_ZERO {
        KEY_ZERO
    } else if channel > KEY_ONE {
        KEY_ONE
    } else {
        channel
    }
}

} // verus!
