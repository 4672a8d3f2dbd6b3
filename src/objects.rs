//! The scene's objects as a tree, and the nearest-hit query over it.
//!
//! Each leaf names one primitive (sphere, plane, triangle, smooth triangle) by
//! its index in the caller's table of primitives; a mesh is an ordered list of
//! child objects, themselves leaves or meshes. For one ray the caller states,
//! for each primitive index, the order key of its nearest hit distance or
//! `None`; the tree then picks the nearest hit among its leaves, the first one
//! met winning ties.
use vstd::prelude::*;

use crate::bounding_box::{lemma_union_all_contains, BoundingBox, KeyPoint};

verus! {

/// A hit: the primitive that was hit and the order key of its distance.
#[derive(Clone, Copy, Debug, PartialEq, Eq, Structural)]
pub struct Hit {
    pub leaf: usize,
    pub distance: i64,
}

/// An aggregate of child objects. It has no normal or material of its own:
/// a hit on a mesh is a hit on one of its leaves, and a [`Hit`] names that
/// leaf.
#[derive(Debug)]
pub struct Mesh {
    pub faces: Vec<Object>,
    /// The union of the faces' boxes, kept from when the faces were set.
    pub bounding_box: BoundingBox,
}

/// An object of a scene: one primitive, named by its index in the caller's
/// table of primitives, or a mesh.
#[derive(Debug)]
pub enum Object {
    Sphere(usize),
    Plane(usize),
    Triangle(usize),
    SmoothTriangle(usize),
    Mesh(Mesh),
}

/// The nearer of two hits; `a` is kept when they are equally near.
pub open spec fn closer(a: Option<Hit>, b: Option<Hit>) -> Option<Hit> {
    match (a, b) {
        (None, _) => b,
        (Some(_), None) => a,
        (Some(x), Some(y)) => if y.distance < x.distance {
            b
        } else {
            a
        },
    }
}

/// The hit of primitive `i`, as `hits` states it.
pub open spec fn leaf_hit(i: usize, hits: Seq<Option<i64>>) -> Option<Hit> {
    if i < hits.len() && hits[i as int] is Some {
        Some(Hit { leaf: i, distance: hits[i as int]->0 })
    } else {
        None
    }
}

impl Object {
    /// Nearest hit among the leaves of this object.
    pub open spec fn nearest_spec(self, hits: Seq<Option<i64>>) -> Option<Hit>
        decreases self, 0nat,
    {
        match self {
            Object::Sphere(i) => leaf_hit(i, hits),
            Object::Plane(i) => leaf_hit(i, hits),
            Object::Triangle(i) => leaf_hit(i, hits),
            Object::SmoothTriangle(i) => leaf_hit(i, hits),
            Object::Mesh(m) => nearest_of(m.faces@, m.faces@.len(), hits),
        }
    }

    /// The primitive indices of this object's leaves, in order.
    pub open spec fn leaves(self) -> Seq<usize>
        decreases self, 0nat,
    {
        match self {
            Object::Sphere(i) => seq![i],
            Object::Plane(i) => seq![i],
            Object::Triangle(i) => seq![i],
            Object::SmoothTriangle(i) => seq![i],
            Object::Mesh(m) => leaves_of(m.faces@, m.faces@.len()),
        }
    }
}

/// Nearest hit among the first `n` objects of `objs`, folded left to right.
pub open spec fn nearest_of(objs: Seq<Object>, n: nat, hits: Seq<Option<i64>>) -> Option<Hit>
    decreases objs, n,
{
    if n == 0 || n > objs.len() {
        None
    } else {
        closer(nearest_of(objs, (n - 1) as nat, hits), objs[n - 1].nearest_spec(hits))
    }
}

/// The leaves of the first `n` objects of `objs`, in order.
pub open spec fn leaves_of(objs: Seq<Object>, n: nat) -> Seq<usize>
    decreases objs, n,
{
    if n == 0 || n > objs.len() {
        Seq::empty()
    } else {
        leaves_of(objs, (n - 1) as nat) + objs[n - 1].leaves()
    }
}

fn leaf_hit_exec(i: usize, hits: &Vec<Option<i64>>) -> (r: Option<Hit>)
    ensures
        r == leaf_hit(i, hits@),
{
    if i < hits.len() {
        match hits[i] {
            Some(d) => Some(Hit { leaf: i, distance: d }),
            None => None,
        }
    } else {
        None
    }
}

/// The nearer of two hits; `a` is kept when they are equally near.
pub fn nearer(a: Option<Hit>, b: Option<Hit>) -> (r: Option<Hit>)
    ensures
        r == closer(a, b),
{
    match (a, b) {
        (None, _) => b,
        (Some(_), None) => a,
        (Some(x), Some(y)) => if y.distance < x.distance {
            b
        } else {
            a
        },
    }
}

impl Object {
    /// The nearest hit on this object for one ray: a leaf answers for its
    /// primitive, a mesh folds over its children.
    pub fn intersect(&self, hits: &Vec<Option<i64>>) -> (r: Option<Hit>)
        ensures
            r == self.nearest_spec(hits@),
        decreases self,
    {
        match self {
            Object::Sphere(i) => leaf_hit_exec(*i, hits),
            Object::Plane(i) => leaf_hit_exec(*i, hits),
            Object::Triangle(i) => leaf_hit_exec(*i, hits),
            Object::SmoothTriangle(i) => leaf_hit_exec(*i, hits),
            Object::Mesh(m) => {
                let mut best: Option<Hit> = None;
                let mut k: usize = 0;
                while k < m.faces.len()
                    invariant
                        k <= m.faces.len(),
                        *self is Mesh,
                        self->Mesh_0 == *m,
                        best == nearest_of(m.faces@, k as nat, hits@),
                    decreases m.faces.len() - k,
                {
                    proof {
                        assert(*m == self->Mesh_0);
                        assert(decreases_to!(*self => self->Mesh_0));
                        assert(decreases_to!(*m => m.faces));
                        assert(decreases_to!(m.faces => m.faces@));
                        assert(decreases_to!(m.faces@ => m.faces@[k as int]));
                    }
                    let h = m.faces[k].intersect(hits);
                    best = nearer(best, h);
                    k = k + 1;
                }
                best
            },
        }
    }
}

/// The box of primitive `i`, as `leaf_boxes` states it; the empty box for an
/// index outside the table.
pub open spec fn leaf_box(i: usize, leaf_boxes: Seq<BoundingBox>) -> BoundingBox {
    if i < leaf_boxes.len() {
        leaf_boxes[i as int]
    } else {
        BoundingBox::empty_spec()
    }
}

impl Object {
    /// The box of an object: its primitive's box, or a mesh's cached box.
    pub open spec fn bbox(self, leaf_boxes: Seq<BoundingBox>) -> BoundingBox {
        match self {
            Object::Sphere(i) => leaf_box(i, leaf_boxes),
            Object::Plane(i) => leaf_box(i, leaf_boxes),
            Object::Triangle(i) => leaf_box(i, leaf_boxes),
            Object::SmoothTriangle(i) => leaf_box(i, leaf_boxes),
            Object::Mesh(m) => m.bounding_box,
        }
    }

    /// The bounding box of this object, given the box of each primitive by
    /// its index.
    pub fn bounding_box(&self, leaf_boxes: &Vec<BoundingBox>) -> (r: BoundingBox)
        ensures
            r == self.bbox(leaf_boxes@),
    {
        match self {
            Object::Sphere(i) | Object::Plane(i) | Object::Triangle(i) | Object::SmoothTriangle(i) => {
                if *i < leaf_boxes.len() {
                    leaf_boxes[*i]
                } else {
                    BoundingBox::empty()
                }
            },
            Object::Mesh(m) => m.bounding_box,
        }
    }
}

/// The boxes of a list of objects.
pub open spec fn boxes_of(objs: Seq<Object>, leaf_boxes: Seq<BoundingBox>) -> Seq<BoundingBox> {
    objs.map_values(|o: Object| o.bbox(leaf_boxes))
}

/// The union of the boxes of a list of objects.
pub open spec fn faces_box(objs: Seq<Object>, leaf_boxes: Seq<BoundingBox>) -> BoundingBox {
    BoundingBox::union_all(boxes_of(objs, leaf_boxes), objs.len())
}

fn union_of_faces(faces: &Vec<Object>, leaf_boxes: &Vec<BoundingBox>) -> (r: BoundingBox)
    ensures
        r == faces_box(faces@, leaf_boxes@),
{
    let mut bbox = BoundingBox::empty();
    let mut k: usize = 0;
    while k < faces.len()
        invariant
            k <= faces.len(),
            bbox == BoundingBox::union_all(boxes_of(faces@, leaf_boxes@), k as nat),
        decreases faces.len() - k,
    {
        let b = faces[k].bounding_box(leaf_boxes);
        bbox = bbox.union(&b);
        k = k + 1;
    }
    bbox
}

impl Mesh {
    /// A mesh of the given faces, with the union of their boxes cached;
    /// `leaf_boxes` gives the box of each primitive by its index.
    pub fn new(faces: Vec<Object>, leaf_boxes: &Vec<BoundingBox>) -> (r: Mesh)
        ensures
            r.faces@ == faces@,
            r.bounding_box == faces_box(faces@, leaf_boxes@),
    {
        let bounding_box = union_of_faces(&faces, leaf_boxes);
        Mesh { faces, bounding_box }
    }

    /// This mesh with its faces replaced, and their box cached.
    pub fn with_faces(self, faces: Vec<Object>, leaf_boxes: &Vec<BoundingBox>) -> (r: Mesh)
        ensures
            r.faces@ == faces@,
            r.bounding_box == faces_box(faces@, leaf_boxes@),
    {
        Mesh::new(faces, leaf_boxes)
    }

    /// This mesh with another cached box.
    pub fn with_bounding_box(self, bounding_box: BoundingBox) -> (r: Mesh)
        ensures
            r.faces@ == self.faces@,
            r.bounding_box == bounding_box,
    {
        Mesh { faces: self.faces, bounding_box }
    }

    /// This mesh with one more face at the end; the cached box grows by the
    /// face's box.
    pub fn with_face(self, face: Object, leaf_boxes: &Vec<BoundingBox>) -> (r: Mesh)
        ensures
            r.faces@ == self.faces@.push(face),
            r.bounding_box == self.bounding_box.union_spec(face.bbox(leaf_boxes@)),
            self.bounding_box == faces_box(self.faces@, leaf_boxes@) ==> r.bounding_box
                == faces_box(r.faces@, leaf_boxes@),
    {
        proof {
            if self.bounding_box == faces_box(self.faces@, leaf_boxes@) {
                lemma_with_face_keeps_union(self.faces@, face, self.bounding_box, leaf_boxes@);
            }
        }
        let b = face.bounding_box(leaf_boxes);
        let bounding_box = self.bounding_box.union(&b);
        let mut faces = self.faces;
        faces.push(face);
        Mesh { faces, bounding_box }
    }
}

/// A mesh built by `Mesh::new` and grown by `with_face` caches the union of
/// its faces' boxes.
pub proof fn lemma_with_face_keeps_union(faces: Seq<Object>, face: Object, cached: BoundingBox, leaf_boxes: Seq<BoundingBox>)
    requires
        cached == faces_box(faces, leaf_boxes),
    ensures
        cached.union_spec(face.bbox(leaf_boxes)) == faces_box(faces.push(face), leaf_boxes),
{
    let all = faces.push(face);
    assert(boxes_of(all, leaf_boxes).subrange(0, faces.len() as int) =~= boxes_of(faces, leaf_boxes));
    assert(boxes_of(faces, leaf_boxes).subrange(0, faces.len() as int) =~= boxes_of(faces, leaf_boxes));
    lemma_union_all_prefix(boxes_of(all, leaf_boxes), boxes_of(faces, leaf_boxes), faces.len());
}

/// A mesh's cached box holds every point of every face's box.
pub proof fn lemma_mesh_box_holds_faces(faces: Seq<Object>, leaf_boxes: Seq<BoundingBox>, i: int, p: KeyPoint)
    requires
        0 <= i < faces.len(),
        faces[i].bbox(leaf_boxes).contains_spec(p),
    ensures
        faces_box(faces, leaf_boxes).contains_spec(p),
{
    lemma_union_all_contains(boxes_of(faces, leaf_boxes), faces.len(), i, p);
}

proof fn lemma_union_all_prefix(a: Seq<BoundingBox>, b: Seq<BoundingBox>, n: nat)
    requires
        n <= a.len(),
        n <= b.len(),
        a.subrange(0, n as int) == b.subrange(0, n as int),
    ensures
        BoundingBox::union_all(a, n) == BoundingBox::union_all(b, n),
    decreases n,
{
    if n > 0 {
        assert(a[n - 1] == a.subrange(0, n as int)[n - 1]);
        assert(b[n - 1] == b.subrange(0, n as int)[n - 1]);
        assert(a.subrange(0, n - 1) =~= a.subrange(0, n as int).subrange(0, n - 1));
        assert(b.subrange(0, n - 1) =~= b.subrange(0, n as int).subrange(0, n - 1));
        lemma_union_all_prefix(a, b, (n - 1) as nat);
    }
}

/// Not a mesh: one primitive.
pub open spec fn is_leaf(o: Object) -> bool {
    !(o is Mesh)
}

/// A mesh generator that, from a source mesh, keeps its faces that are single
/// primitives and leaves out nested meshes.
#[derive(Debug)]
pub struct SubdivideMesh {
    pub mesh: Mesh,
    pub depth: u32,
}

impl SubdivideMesh {
    pub fn new(mesh: Mesh, depth: u32) -> (r: SubdivideMesh)
        ensures
            r.mesh.faces@ == mesh.faces@,
            r.depth == depth,
    {
        SubdivideMesh { mesh, depth }
    }

    pub fn with_mesh(self, mesh: Mesh) -> (r: SubdivideMesh)
        ensures
            r.mesh.faces@ == mesh.faces@,
            r.depth == self.depth,
    {
        SubdivideMesh { mesh, depth: self.depth }
    }

    pub fn with_depth(self, depth: u32) -> (r: SubdivideMesh)
        ensures
            r.mesh.faces@ == self.mesh.faces@,
            r.depth == depth,
    {
        SubdivideMesh { mesh: self.mesh, depth }
    }

    /// A new mesh of the source mesh's faces that are not meshes, in order,
    /// with the union of their boxes cached.
    pub fn generate(&self, leaf_boxes: &Vec<BoundingBox>) -> (r: Mesh)
        ensures
            r.faces@ == self.mesh.faces@.filter(|o: Object| is_leaf(o)),
            r.bounding_box == faces_box(r.faces@, leaf_boxes@),
    {
        let faces = &self.mesh.faces;
        let mut out: Vec<Object> = Vec::new();
        let mut k: usize = 0;
        while k < faces.len()
            invariant
                k <= faces.len(),
                out@ == faces@.subrange(0, k as int).filter(|o: Object| is_leaf(o)),
            decreases faces.len() - k,
        {
            proof {
                reveal(Seq::filter);
                assert(faces@.subrange(0, k + 1).drop_last() =~= faces@.subrange(0, k as int));
            }
            match &faces[k] {
                Object::Sphere(i) => out.push(Object::Sphere(*i)),
                Object::Plane(i) => out.push(Object::Plane(*i)),
                Object::Triangle(i) => out.push(Object::Triangle(*i)),
                Object::SmoothTriangle(i) => out.push(Object::SmoothTriangle(*i)),
                Object::Mesh(_) => {},
            }
            k = k + 1;
        }
        proof {
            assert(faces@.subrange(0, faces@.len() as int) =~= faces@);
        }
        Mesh::new(out, leaf_boxes)
    }
}

/// `r` is a hit on one of `leaves` that no hit on another of them beats, or
/// `None` when none of them is hit.
pub open spec fn nearest_among(r: Option<Hit>, leaves: Seq<usize>, hits: Seq<Option<i64>>) -> bool {
    match r {
        None => forall|i: int| 0 <= i < leaves.len() ==> #[trigger] leaf_hit(leaves[i], hits) is None,
        Some(h) => {
            &&& leaves.contains(h.leaf)
            &&& leaf_hit(h.leaf, hits) == Some(h)
            &&& forall|i: int|
                0 <= i < leaves.len() && #[trigger] leaf_hit(leaves[i], hits) is Some
                    ==> h.distance <= leaf_hit(leaves[i], hits)->0.distance
        },
    }
}

proof fn lemma_closer_concat(
    r1: Option<Hit>,
    l1: Seq<usize>,
    r2: Option<Hit>,
    l2: Seq<usize>,
    hits: Seq<Option<i64>>,
)
    requires
        nearest_among(r1, l1, hits),
        nearest_among(r2, l2, hits),
    ensures
        nearest_among(closer(r1, r2), l1 + l2, hits),
{
    let l = l1 + l2;
    assert forall|i: int| 0 <= i < l.len() implies #[trigger] leaf_hit(l[i], hits) == if i < l1.len() {
        leaf_hit(l1[i], hits)
    } else {
        leaf_hit(l2[i - l1.len()], hits)
    } by {}
    match closer(r1, r2) {
        None => {},
        Some(h) => {
            if closer(r1, r2) == r1 {
                let j = choose|j: int| 0 <= j < l1.len() && l1[j] == h.leaf;
                assert(l[j] == h.leaf);
            } else {
                let j = choose|j: int| 0 <= j < l2.len() && l2[j] == h.leaf;
                assert(l[l1.len() + j] == h.leaf);
            }
        },
    }
}

/// The nearest hit on an object is a hit on one of its leaves, and no hit on
/// a leaf of it is nearer.
pub proof fn lemma_object_nearest(o: Object, hits: Seq<Option<i64>>)
    ensures
        nearest_among(o.nearest_spec(hits), o.leaves(), hits),
    decreases o, 0nat,
{
    match o {
        Object::Mesh(m) => {
            assert(decreases_to!(o => o->Mesh_0));
            assert(decreases_to!(m => m.faces));
            assert(decreases_to!(m.faces => m.faces@));
            lemma_list_nearest(m.faces@, m.faces@.len(), hits);
        },
        _ => {
            assert(o.leaves().contains(o.leaves()[0]));
        },
    }
}

/// The nearest hit among the first `n` objects of a list is a hit on one of
/// their leaves, and no hit on a leaf of them is nearer.
pub proof fn lemma_list_nearest(objs: Seq<Object>, n: nat, hits: Seq<Option<i64>>)
    ensures
        nearest_among(nearest_of(objs, n, hits), leaves_of(objs, n), hits),
    decreases objs, n,
{
    if n > 0 && n <= objs.len() {
        lemma_list_nearest(objs, (n - 1) as nat, hits);
        lemma_object_nearest(objs[n - 1], hits);
        lemma_closer_concat(
            nearest_of(objs, (n - 1) as nat, hits),
            leaves_of(objs, (n - 1) as nat),
            objs[n - 1].nearest_spec(hits),
            objs[n - 1].leaves(),
            hits,
        );
    }
}

} // verus!
