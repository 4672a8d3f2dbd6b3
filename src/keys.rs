//! Order keys.
//!
//! A real value `x` (finite or infinite, not NaN) is carried as the integer
//! `key(x)` of the IEEE 754 total order on binary64 values: its bit pattern
//! read as a signed 64-bit integer, with the 63 lower bits flipped when the
//! sign bit is set. Once negative zero has been written as positive zero,
//! `x < y` exactly when `key(x) < key(y)`, and every key lies in
//! `KEY_NEG_INF ..= KEY_POS_INF`.
use vstd::prelude::*;

verus! {
/// Key of positive infinity.
pub const KEY_POS_INF: i64 = 9218868437227405312;

/// Key of negative infinity.
pub const KEY_NEG_INF: i64 = -9218868437227405313;

/// Key of zero.
pub const KEY_ZERO: i64 = 0;

/// Key of one half.
pub const KEY_HALF: i64 = 4602678819172646912;

/// Key of one.
pub const KEY_ONE: i64 = 4607182418800017408;

/// Key of the smallest accepted hit distance and determinant size of the
/// triangle test: one millionth.
pub const KEY_TRIANGLE_EPSILON: i64 = 4517329193108106637;

/// A key that stands for a value other than NaN.
pub open spec fn valid_key(k: i64) -> bool {
    KEY_NEG_INF <= k <= KEY_POS_INF
}

} // verus!
