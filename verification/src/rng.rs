//! Source of randomness for shapes, velocities and lifetimes.
//!
//! One trusted wrapper draws a `u64` from a half-open range; everything
//! else is derived from it in verified code.

use vstd::prelude::*;
use crate::constants::FULL_TURN;

verus! {

/// Relies on rand's `Rng::random_range` over `lo..hi`: it returns a value
/// of the given range and panics only when the range is empty.
#[verifier::external_body]
fn rand_range_u64(lo: u64, hi: u64) -> (r: u64)
    requires
        lo < hi,
    ensures
        lo <= r < hi,
{
    rand::Rng::random_range(&mut rand::rng(), lo..hi)
}

/// A draw from `lo..hi`. Nothing more is promised of it: callers state what
/// holds of every outcome.
pub fn rand_u64(lo: u64, hi: u64) -> (r: u64)
    requires
        lo < hi,
    ensures
        lo <= r < hi,
{
    rand_range_u64(lo, hi)
}

/// A signed draw from `lo..hi`.
pub fn rand_i64(lo: i64, hi: i64) -> (r: i64)
    requires
        lo < hi,
    ensures
        lo <= r < hi,
{
    let span: u64 = (hi as i128 - lo as i128) as u64;
    let off: u64 = rand_range_u64(0, span);
    (lo as i128 + off as i128) as i64
}

/// A uniformly random angle, in [0, 3600).
pub fn rand_angle() -> (a: u64)
    ensures
        a < FULL_TURN,
{
    rand_range_u64(0, FULL_TURN)
}

} // verus!
