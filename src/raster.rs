//! The raster side of the render loop: the order in which pixels are cast,
//! the neighbours that a pixel's local contrast is measured against, and
//! which pixels are cast again with several samples.
use vstd::prelude::*;

use crate::keys::KEY_HALF;

verus! {

/// `(px, py)` is one of the up to eight pixels around `(x, y)` inside a
/// `width` by `height` raster.
pub open spec fn is_neighbor(px: usize, py: usize, x: usize, y: usize, width: usize, height: usize) -> bool {
    &&& px < width && py < height
    &&& x <= px + 1 && px <= x + 1
    &&& y <= py + 1 && py <= y + 1
    &&& !(px == x && py == y)
}

/// The order of the neighbour scan: `a` comes before `b` by column, and
/// within a column by row.
pub open spec fn scan_before(a: (usize, usize), b: (usize, usize)) -> bool {
    a.0 < b.0 || (a.0 == b.0 && a.1 < b.1)
}

fn push_if(r: &mut Vec<(usize, usize)>, keep: bool, px: usize, py: usize)
    ensures
        keep ==> final(r)@ == old(r)@.push((px, py)),
        !keep ==> final(r)@ == old(r)@,
        keep ==> final(r)@.contains((px, py)),
        forall|q: (usize, usize)| old(r)@.contains(q) ==> #[trigger] final(r)@.contains(q),
{
    if keep {
        r.push((px, py));
        proof {
            assert(r@[r@.len() - 1] == (px, py));
            assert forall|q: (usize, usize)| old(r)@.contains(q) implies #[trigger] r@.contains(q) by {
                let i = choose|i: int| 0 <= i < old(r)@.len() && old(r)@[i] == q;
                assert(r@[i] == q);
            }
        }
    }
}

/// The neighbours of pixel `(x, y)`: each pixel at most one step away in
/// each direction, the pixel itself and those outside the raster left out,
/// ordered by column and then by row.
pub fn neighbors(x: usize, y: usize, width: usize, height: usize) -> (r: Vec<(usize, usize)>)
    requires
        x < width,
        y < height,
    ensures
        forall|i: int| 0 <= i < r@.len() ==> is_neighbor(r@[i].0, r@[i].1, x, y, width, height),
        forall|i: int, j: int| 0 <= i < j < r@.len() ==> scan_before(r@[i], r@[j]),
        forall|px: usize, py: usize| #[trigger] is_neighbor(px, py, x, y, width, height) ==> r@.contains((px, py)),
        r@.len() <= 8,
{
    let left = x > 0;
    let right = x + 1 < width;
    let up = y > 0;
    let down = y + 1 < height;
    let xl = if left { x - 1 } else { x };
    let yu = if up { y - 1 } else { y };
    let mut r: Vec<(usize, usize)> = Vec::new();
    push_if(&mut r, left && up, xl, yu);
    push_if(&mut r, left, xl, y);
    push_if(&mut r, left && down, xl, y + 1);
    push_if(&mut r, up, x, yu);
    push_if(&mut r, down, x, y + 1);
    push_if(&mut r, right && up, x + 1, yu);
    push_if(&mut r, right, x + 1, y);
    push_if(&mut r, right && down, x + 1, y + 1);
    proof {
        assert forall|px: usize, py: usize| #[trigger] is_neighbor(px, py, x, y, width, height) implies r@.contains((px, py)) by {
            if px + 1 == x {
                if py + 1 == y {
                    assert(r@.contains((xl, yu)));
                } else if py == y {
                    assert(r@.contains((xl, y)));
                } else {
                    assert(r@.contains((xl, (y + 1) as usize)));
                }
            } else if px == x {
                if py + 1 == y {
                    assert(r@.contains((x, yu)));
                } else {
                    assert(r@.contains((x, (y + 1) as usize)));
                }
            } else {
                if py + 1 == y {
                    assert(r@.contains(((x + 1) as usize, yu)));
                } else if py == y {
                    assert(r@.contains(((x + 1) as usize, y)));
                } else {
                    assert(r@.contains(((x + 1) as usize, (y + 1) as usize)));
                }
            }
        }
    }
    r
}

/// Whether a pixel of the given contrast key is cast again with
/// `anti_aliasing` jittered samples: only when more than one sample is asked
/// for and the contrast exceeds one half.
pub fn supersample(anti_aliasing: u32, contrast: i64) -> (r: bool)
    ensures
        r == (anti_aliasing > 1 && contrast > KEY_HALF),
{
    anti_aliasing > 1 && contrast > KEY_HALF
}

/// The raster index of pixel `(x, y)`: rows one after the other.
pub open spec fn index_of(x: int, y: int, width: int) -> int {
    x + y * width
}

/// The pixels of a `width` by `height` raster in the order they are cast:
/// row by row from the top, each row from the left. Pixel `(x, y)` stands at
/// index `x + y * width`.
pub fn pixel_coords(width: usize, height: usize) -> (r: Vec<(usize, usize)>)
    requires
        width * height <= usize::MAX,
    ensures
        r@.len() == width * height,
        forall|x: usize, y: usize| x < width && y < height ==> r@[#[trigger] index_of(x as int, y as int, width as int)] == (x, y),
{
    let mut r: Vec<(usize, usize)> = Vec::new();
    let mut y: usize = 0;
    while y < height
        invariant
            width * height <= usize::MAX,
            y <= height,
            r@.len() == y * width,
            forall|a: usize, b: usize| a < width && b < y ==> r@[#[trigger] index_of(a as int, b as int, width as int)] == (a, b),
        decreases height - y,
    {
        let mut x: usize = 0;
        proof {
            assert(y * width + width <= width * height) by (nonlinear_arith)
                requires y < height;
        }
        while x < width
            invariant
                width * height <= usize::MAX,
                y < height,
                x <= width,
                y * width + width <= width * height,
                r@.len() == y * width + x,
                forall|a: usize, b: usize| a < width && b < y ==> r@[#[trigger] index_of(a as int, b as int, width as int)] == (a, b),
                forall|a: usize| a < x ==> r@[#[trigger] index_of(a as int, y as int, width as int)] == (a, y),
            decreases width - x,
        {
            let ghost before = r@;
            r.push((x, y));
            proof {
                assert forall|a: usize, b: usize| a < width && b < y implies r@[#[trigger] index_of(a as int, b as int, width as int)] == (a, b) by {
                    assert(index_of(a as int, b as int, width as int) < y * width) by (nonlinear_arith)
                        requires a < width, b < y, index_of(a as int, b as int, width as int) == a + b * width;
                    assert(r@[index_of(a as int, b as int, width as int)] == before[index_of(a as int, b as int, width as int)]);
                }
                assert forall|a: usize| a < x + 1 implies r@[#[trigger] index_of(a as int, y as int, width as int)] == (a, y) by {
                    if a < x {
                        assert(r@[index_of(a as int, y as int, width as int)] == before[index_of(a as int, y as int, width as int)]);
                    }
                }
            }
            x = x + 1;
        }
        proof {
            assert((y + 1) * width == y * width + width) by (nonlinear_arith);
        }
        y = y + 1;
    }
    proof {
        assert(y * width == width * height) by (nonlinear_arith)
            requires y == height;
    }
    r
}

} // verus!
