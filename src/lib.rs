//! Core of a recursive (Whitted-style) ray tracer: bounding boxes, the
//! object tree and its nearest-hit query, the acceptance rules of the
//! ray/primitive tests, the decisions of recursive shading, the raster logic
//! of the render loop, and `#rrggbb` color text.
//!
//! Real-valued quantities (coordinates, distances, cosines) reach this crate
//! as *order keys*: signed integers whose order is the order of the values
//! they stand for (see [`keys`]). The geometric decisions here only compare
//! such values, so they are exact for them; the arithmetic on the values
//! themselves is done by the caller.

pub mod bounding_box;
pub mod color;
pub mod keys;
pub mod objects;
pub mod primitives;
pub mod raster;
pub mod scene;
pub mod shading;

pub use keys::{KEY_HALF, KEY_NEG_INF, KEY_ONE, KEY_POS_INF, KEY_TRIANGLE_EPSILON, KEY_ZERO};
