//! The scene's object list and the scene-wide nearest-hit query.
use vstd::prelude::*;

use crate::objects::{lemma_list_nearest, nearer, nearest_among, leaves_of, nearest_of, Hit, Object};

verus! {

/// The objects of a scene, in the order they were added.
#[derive(Debug)]
pub struct Scene {
    pub objects: Vec<Object>,
}

impl Scene {
    /// The primitive indices of all leaves of the scene, in order.
    pub open spec fn leaves(&self) -> Seq<usize> {
        leaves_of(self.objects@, self.objects@.len())
    }

    /// The scene-wide nearest hit: a fold over the top-level objects.
    pub open spec fn trace_spec(&self, hits: Seq<Option<i64>>) -> Option<Hit> {
        nearest_of(self.objects@, self.objects@.len(), hits)
    }

    pub fn new(objects: Vec<Object>) -> (r: Scene)
        ensures
            r.objects@ == objects@,
    {
        Scene { objects }
    }

    pub fn add_object(&mut self, object: Object)
        ensures
            final(self).objects@ == old(self).objects@.push(object),
    {
        self.objects.push(object);
    }

    pub fn with_object(self, object: Object) -> (r: Scene)
        ensures
            r.objects@ == self.objects@.push(object),
    {
        let mut scene = self;
        scene.add_object(object);
        scene
    }

    /// The nearest hit over all objects for one ray, given for each primitive
    /// index the order key of its own nearest hit distance, or `None`. Of two
    /// equally near hits the one met first is kept.
    pub fn trace(&self, hits: &Vec<Option<i64>>) -> (r: Option<Hit>)
        ensures
            r == self.trace_spec(hits@),
    {
        let mut best: Option<Hit> = None;
        let mut k: usize = 0;
        while k < self.objects.len()
            invariant
                k <= self.objects.len(),
                best == nearest_of(self.objects@, k as nat, hits@),
            decreases self.objects.len() - k,
        {
            let h = self.objects[k].intersect(hits);
            best = nearer(best, h);
            k = k + 1;
        }
        best
    }
}

/// What `trace` returns is a hit on a leaf of the scene, and no leaf of the
/// scene has a strictly nearer hit; it is `None` only when no leaf is hit.
pub proof fn lemma_trace_is_nearest(scene: &Scene, hits: Seq<Option<i64>>)
    ensures
        nearest_among(scene.trace_spec(hits), scene.leaves(), hits),
{
    lemma_list_nearest(scene.objects@, scene.objects@.len(), hits);
}

/// A scene without objects is hit by no ray.
pub proof fn lemma_empty_scene_misses(scene: &Scene, hits: Seq<Option<i64>>)
    requires
        scene.objects@.len() == 0,
    ensures
        scene.trace_spec(hits) is None,
{
}

} // verus!
