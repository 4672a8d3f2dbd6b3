//! Axis-aligned bounding boxes.
use vstd::prelude::*;

use crate::keys::{valid_key, KEY_NEG_INF, KEY_POS_INF};

verus! {

/// A point given by the order keys of its three coordinates.
#[derive(Clone, Copy, Debug, PartialEq, Eq, Structural)]
pub struct KeyPoint {
    pub x: i64,
    pub y: i64,
    pub z: i64,
}

impl KeyPoint {
    pub fn new(x: i64, y: i64, z: i64) -> (r: KeyPoint)
        ensures
            r == (KeyPoint { x, y, z }),
    {
        KeyPoint { x, y, z }
    }

    /// Every coordinate stands for a value other than NaN.
    pub open spec fn valid(self) -> bool {
        valid_key(self.x) && valid_key(self.y) && valid_key(self.z)
    }
}

/// Box between two corners, bounds included. It is empty when some
/// coordinate of `min` exceeds that of `max`.
#[derive(Clone, Copy, Debug, PartialEq, Eq, Structural)]
pub struct BoundingBox {
    pub min: KeyPoint,
    pub max: KeyPoint,
}

pub open spec fn min_i64(a: i64, b: i64) -> i64 {
    if a <= b { a } else { b }
}

pub open spec fn max_i64(a: i64, b: i64) -> i64 {
    if a >= b { a } else { b }
}

fn min_key(a: i64, b: i64) -> (r: i64)
    ensures
        r == min_i64(a, b),
{
    if a <= b { a } else { b }
}

fn max_key(a: i64, b: i64) -> (r: i64)
    ensures
        r == max_i64(a, b),
{
    if a >= b { a } else { b }
}

impl BoundingBox {
    /// Both corners stand for values other than NaN.
    pub open spec fn valid(self) -> bool {
        self.min.valid() && self.max.valid()
    }

    pub open spec fn contains_spec(self, p: KeyPoint) -> bool {
        &&& self.min.x <= p.x <= self.max.x
        &&& self.min.y <= p.y <= self.max.y
        &&& self.min.z <= p.z <= self.max.z
    }

    pub open spec fn intersects_spec(self, o: BoundingBox) -> bool {
        &&& self.max.x >= o.min.x && self.min.x <= o.max.x
        &&& self.max.y >= o.min.y && self.min.y <= o.max.y
        &&& self.max.z >= o.min.z && self.min.z <= o.max.z
    }

    pub open spec fn union_spec(self, o: BoundingBox) -> BoundingBox {
        BoundingBox {
            min: KeyPoint {
                x: min_i64(self.min.x, o.min.x),
                y: min_i64(self.min.y, o.min.y),
                z: min_i64(self.min.z, o.min.z),
            },
            max: KeyPoint {
                x: max_i64(self.max.x, o.max.x),
                y: max_i64(self.max.y, o.max.y),
                z: max_i64(self.max.z, o.max.z),
            },
        }
    }

    /// The smallest box holding this one and the point `p`.
    pub open spec fn union_point_spec(self, p: KeyPoint) -> BoundingBox {
        self.union_spec(BoundingBox { min: p, max: p })
    }

    pub open spec fn empty_spec() -> BoundingBox {
        BoundingBox {
            min: KeyPoint { x: KEY_POS_INF, y: KEY_POS_INF, z: KEY_POS_INF },
            max: KeyPoint { x: KEY_NEG_INF, y: KEY_NEG_INF, z: KEY_NEG_INF },
        }
    }

    pub open spec fn is_empty_spec(self) -> bool {
        self.min.x > self.max.x || self.min.y > self.max.y || self.min.z > self.max.z
    }

    /// Union of the first `n` boxes of `boxes`, starting from the empty box.
    pub open spec fn union_all(boxes: Seq<BoundingBox>, n: nat) -> BoundingBox
        decreases n,
    {
        if n == 0 || n > boxes.len() {
            BoundingBox::empty_spec()
        } else {
            BoundingBox::union_all(boxes, (n - 1) as nat).union_spec(boxes[n - 1])
        }
    }

    pub fn new(min: KeyPoint, max: KeyPoint) -> (r: BoundingBox)
        ensures
            r == (BoundingBox { min, max }),
    {
        BoundingBox { min, max }
    }

    pub fn contains(&self, point: &KeyPoint) -> (r: bool)
        ensures
            r == self.contains_spec(*point),
    {
        point.x >= self.min.x && point.x <= self.max.x && point.y >= self.min.y && point.y
            <= self.max.y && point.z >= self.min.z && point.z <= self.max.z
    }

    /// Slab overlap on all three axes, bounds included.
    pub fn intersects(&self, other: &BoundingBox) -> (r: bool)
        ensures
            r == self.intersects_spec(*other),
    {
        self.max.x >= other.min.x && self.min.x <= other.max.x && self.max.y >= other.min.y
            && self.min.y <= other.max.y && self.max.z >= other.min.z && self.min.z
            <= other.max.z
    }

    pub fn union(&self, other: &BoundingBox) -> (r: BoundingBox)
        ensures
            r == self.union_spec(*other),
    {
        BoundingBox {
            min: KeyPoint {
                x: min_key(self.min.x, other.min.x),
                y: min_key(self.min.y, other.min.y),
                z: min_key(self.min.z, other.min.z),
            },
            max: KeyPoint {
                x: max_key(self.max.x, other.max.x),
                y: max_key(self.max.y, other.max.y),
                z: max_key(self.max.z, other.max.z),
            },
        }
    }

    pub fn union_point(&self, point: &KeyPoint) -> (r: BoundingBox)
        ensures
            r == self.union_point_spec(*point),
    {
        self.union(&BoundingBox { min: *point, max: *point })
    }

    /// The box that holds nothing: the identity of `union`.
    pub fn empty() -> (r: BoundingBox)
        ensures
            r == BoundingBox::empty_spec(),
            r.is_empty_spec(),
    {
        BoundingBox {
            min: KeyPoint { x: KEY_POS_INF, y: KEY_POS_INF, z: KEY_POS_INF },
            max: KeyPoint { x: KEY_NEG_INF, y: KEY_NEG_INF, z: KEY_NEG_INF },
        }
    }

    pub fn is_empty(&self) -> (r: bool)
        ensures
            r == self.is_empty_spec(),
            r <==> forall|p: KeyPoint| !#[trigger] self.contains_spec(p),
    {
        proof {
            if !self.is_empty_spec() {
                assert(self.contains_spec(self.min));
            }
        }
        self.min.x > self.max.x || self.min.y > self.max.y || self.min.z > self.max.z
    }

    /// The box of all space, as an infinite plane has.
    pub fn universe() -> (r: BoundingBox)
        ensures
            r == (BoundingBox {
                min: KeyPoint { x: KEY_NEG_INF, y: KEY_NEG_INF, z: KEY_NEG_INF },
                max: KeyPoint { x: KEY_POS_INF, y: KEY_POS_INF, z: KEY_POS_INF },
            }),
            forall|p: KeyPoint| p.valid() ==> #[trigger] r.contains_spec(p),
    {
        BoundingBox {
            min: KeyPoint { x: KEY_NEG_INF, y: KEY_NEG_INF, z: KEY_NEG_INF },
            max: KeyPoint { x: KEY_POS_INF, y: KEY_POS_INF, z: KEY_POS_INF },
        }
    }

    /// The smallest box holding three points, as a triangle has.
    pub fn of_triangle(a: &KeyPoint, b: &KeyPoint, c: &KeyPoint) -> (r: BoundingBox)
        ensures
            r == BoundingBox::empty_spec().union_point_spec(*a).union_point_spec(*b).union_point_spec(
                *c,
            ),
            a.valid() && b.valid() && c.valid() ==> r.contains_spec(*a) && r.contains_spec(*b)
                && r.contains_spec(*c),
    {
        BoundingBox::empty().union_point(a).union_point(b).union_point(c)
    }

    /// The union of the boxes of a list of objects.
    pub fn from_objects(boxes: &Vec<BoundingBox>) -> (r: BoundingBox)
        ensures
            r == BoundingBox::union_all(boxes@, boxes@.len()),
    {
        let mut bbox = BoundingBox::empty();
        let mut i: usize = 0;
        while i < boxes.len()
            invariant
                i <= boxes.len(),
                bbox == BoundingBox::union_all(boxes@, i as nat),
            decreases boxes.len() - i,
        {
            bbox = bbox.union(&boxes[i]);
            i = i + 1;
        }
        bbox
    }
}

/// The slab test of a ray against a box. For each axis it is given the two
/// distances along the ray at which the ray crosses the box's two planes on
/// that axis, in either order (as keys): the nearer one is where the ray
/// enters the slab, the farther one where it leaves it. The ray meets the box
/// when it has entered all three slabs before it leaves any of them.
pub open spec fn slabs_overlap_spec(tx: (i64, i64), ty: (i64, i64), tz: (i64, i64)) -> bool {
    let entry = max_i64(max_i64(min_i64(tx.0, tx.1), min_i64(ty.0, ty.1)), min_i64(tz.0, tz.1));
    let exit = min_i64(min_i64(max_i64(tx.0, tx.1), max_i64(ty.0, ty.1)), max_i64(tz.0, tz.1));
    entry <= exit
}

pub fn slabs_overlap(tx: (i64, i64), ty: (i64, i64), tz: (i64, i64)) -> (r: bool)
    ensures
        r == slabs_overlap_spec(tx, ty, tz),
{
    let entry = max_key(max_key(min_key(tx.0, tx.1), min_key(ty.0, ty.1)), min_key(tz.0, tz.1));
    let exit = min_key(min_key(max_key(tx.0, tx.1), max_key(ty.0, ty.1)), max_key(tz.0, tz.1));
    entry <= exit
}

/// A point in either of two boxes is in their union.
pub proof fn lemma_union_contains(a: BoundingBox, b: BoundingBox, p: KeyPoint)
    requires
        a.contains_spec(p) || b.contains_spec(p),
    ensures
        a.union_spec(b).contains_spec(p),
{
}

/// The empty box is a left identity of `union` on boxes whose corners stand
/// for values other than NaN.
pub proof fn lemma_empty_union_identity(x: BoundingBox)
    requires
        x.valid(),
    ensures
        BoundingBox::empty_spec().union_spec(x) == x,
{
}

/// The union of a list of boxes holds every point of every box in it.
pub proof fn lemma_union_all_contains(boxes: Seq<BoundingBox>, n: nat, i: int, p: KeyPoint)
    requires
        n <= boxes.len(),
        0 <= i < n,
        boxes[i].contains_spec(p),
    ensures
        BoundingBox::union_all(boxes, n).contains_spec(p),
    decreases n,
{
    if i < n - 1 {
        lemma_union_all_contains(boxes, (n - 1) as nat, i, p);
    }
}

} // verus!
