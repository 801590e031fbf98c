//! Global rendering constants.

use vstd::prelude::*;

verus! {

/// Fixed-point scale: an `i64` value `v` represents the real number
/// `v / ONE`. `ONE` is the fixed-point representation of `1.0`.
pub const ONE: i64 = 65536;

/// Tolerance with which near-zero comparisons are carried out, as a
/// fixed-point value (about `0.002`). Shadow rays reject hits at parameters
/// below this bound so that a surface never shadows itself through rounding,
/// and reflected rays are advanced by this amount along their direction.
pub const TOLERANCE: i64 = 128;

/// Maximum recursion depth of the reflection pass.
pub const MAX_REFLECTIONS: u32 = 5;

/// Whether shadow rays are cast at all.
pub const SHADOWS: bool = true;

} // verus!
