//! Fixed-point direction functions over integer angles.
//!
//! An angle is a `u64` in units of 1/3600 of a turn, kept in [0, 3600).
//! `sin_fp` and `cos_fp` scale the classic parabolic sine approximation to
//! [-1000, 1000]; the simulation's headings are exact by definition in terms
//! of these functions.

use vstd::prelude::*;
use crate::constants::{FULL_TURN, HALF_TURN, QUARTER_TURN};
use crate::mathx::div_trunc;

verus! {

/// The fixed-point sine of `a` (an angle in [0, 3600)), in [-1000, 1000]:
/// a parabola through 0, 1000 and 0 on each half turn.
pub open spec fn sin_milli(a: int) -> int {
    if a <= HALF_TURN {
        (a * (HALF_TURN - a)) / 810
    } else {
        -(((a - HALF_TURN) * (FULL_TURN - a)) / 810)
    }
}

/// The fixed-point cosine: the sine a quarter turn ahead.
pub open spec fn cos_milli(a: int) -> int {
    sin_milli(if a + QUARTER_TURN < FULL_TURN {
        a + QUARTER_TURN
    } else {
        a + QUARTER_TURN - FULL_TURN
    })
}

/// The parabola `a * (1800 - a)` stays within [0, 810000] on [0, 1800].
proof fn lemma_parabola_bound(a: int)
    by (nonlinear_arith)
    requires
        0 <= a <= 1800,
    ensures
        0 <= a * (1800 - a) <= 810_000,
{
}

/// `sin_milli` stays within the fixed-point unit range.
pub proof fn lemma_sin_milli_bounds(a: int)
    requires
        0 <= a < FULL_TURN,
    ensures
        -1000 <= sin_milli(a) <= 1000,
{
    if a <= HALF_TURN {
        lemma_parabola_bound(a);
    } else {
        lemma_parabola_bound(a - HALF_TURN);
    }
}

pub fn sin_fp(a: u64) -> (s: i64)
    requires
        a < FULL_TURN,
    ensures
        s == sin_milli(a as int),
        -1000 <= s <= 1000,
{
    proof {
        lemma_sin_milli_bounds(a as int);
    }
    if a <= HALF_TURN {
        proof {
            lemma_parabola_bound(a as int);
        }
        let p: u64 = a * (HALF_TURN - a);
        (p / 810) as i64
    } else {
        let b: u64 = a - HALF_TURN;
        proof {
            lemma_parabola_bound(b as int);
            assert(b * (HALF_TURN - b) == (a - HALF_TURN) * (FULL_TURN - a)) by (nonlinear_arith)
                requires
                    b == a - HALF_TURN,
                    HALF_TURN == 1800,
                    FULL_TURN == 3600,
            ;
        }
        let p: u64 = b * (HALF_TURN - b);
        -((p / 810) as i64)
    }
}

pub fn cos_fp(a: u64) -> (c: i64)
    requires
        a < FULL_TURN,
    ensures
        c == cos_milli(a as int),
        -1000 <= c <= 1000,
{
    let shifted: u64 = if a + QUARTER_TURN < FULL_TURN {
        a + QUARTER_TURN
    } else {
        a + QUARTER_TURN - FULL_TURN
    };
    sin_fp(shifted)
}

/// Advance an angle by `d` units, wrapped into [0, 3600).
pub fn angle_add(a: u64, d: u64) -> (r: u64)
    requires
        a < FULL_TURN,
    ensures
        r == (a + d) % (FULL_TURN as int),
        r < FULL_TURN,
{
    let dm: u64 = d % FULL_TURN;
    let s: u64 = a + dm;
    let r: u64 = if s >= FULL_TURN {
        s - FULL_TURN
    } else {
        s
    };
    proof {
        vstd::arithmetic::div_mod::lemma_fundamental_div_mod(d as int, FULL_TURN as int);
        let q = d as int / FULL_TURN as int;
        if s >= FULL_TURN {
            vstd::arithmetic::div_mod::lemma_fundamental_div_mod_converse_mod(
                a + d,
                FULL_TURN as int,
                q + 1,
                r as int,
            );
        } else {
            vstd::arithmetic::div_mod::lemma_fundamental_div_mod_converse_mod(
                a + d,
                FULL_TURN as int,
                q,
                r as int,
            );
        }
    }
    r
}

/// Retreat an angle by `d` units, wrapped into [0, 3600).
pub fn angle_sub(a: u64, d: u64) -> (r: u64)
    requires
        a < FULL_TURN,
    ensures
        r == (a - d) % (FULL_TURN as int),
        r < FULL_TURN,
{
    let dm: u64 = d % FULL_TURN;
    let s: u64 = a + FULL_TURN - dm;
    let r: u64 = if s >= FULL_TURN {
        s - FULL_TURN
    } else {
        s
    };
    proof {
        vstd::arithmetic::div_mod::lemma_fundamental_div_mod(d as int, FULL_TURN as int);
        let q = d as int / FULL_TURN as int;
        if s >= FULL_TURN {
            vstd::arithmetic::div_mod::lemma_fundamental_div_mod_converse_mod(
                a - d,
                FULL_TURN as int,
                -q,
                r as int,
            );
        } else {
            vstd::arithmetic::div_mod::lemma_fundamental_div_mod_converse_mod(
                a - d,
                FULL_TURN as int,
                -q - 1,
                r as int,
            );
        }
    }
    r
}

/// The x component of a vector of the given length pointing along the
/// angle `a`: `len * cos / 1000`, truncated.
pub open spec fn polar_x(len: int, a: int) -> int {
    div_trunc(len * cos_milli(a), 1000)
}

/// The y component of a vector of the given length pointing along `a`.
pub open spec fn polar_y(len: int, a: int) -> int {
    div_trunc(len * sin_milli(a), 1000)
}

/// The x component of `p` rotated by the angle `a`, in the same units as `p`.
pub open spec fn rotate_x(p: (i64, i64), a: int) -> int {
    div_trunc(p.0 * cos_milli(a) - p.1 * sin_milli(a), 1000)
}

/// The y component of `p` rotated by the angle `a`.
pub open spec fn rotate_y(p: (i64, i64), a: int) -> int {
    div_trunc(p.0 * sin_milli(a) + p.1 * cos_milli(a), 1000)
}

pub open spec fn abs_i(x: int) -> int {
    if x >= 0 {
        x
    } else {
        -x
    }
}

proof fn lemma_rotate_diff_bound(x: int, y: int, c: int, s: int)
    by (nonlinear_arith)
    requires
        -1000 <= c <= 1000,
        -1000 <= s <= 1000,
        -1_000_000_000 <= x <= 1_000_000_000,
        -1_000_000_000 <= y <= 1_000_000_000,
    ensures
        -1_000_000_000_000 <= x * c <= 1_000_000_000_000,
        -1_000_000_000_000 <= y * s <= 1_000_000_000_000,
        -1000 * (abs_i(x) + abs_i(y)) <= x * c - y * s <= 1000 * (abs_i(x) + abs_i(y)),
{
}

proof fn lemma_rotate_sum_bound(x: int, y: int, s: int, c: int)
    by (nonlinear_arith)
    requires
        -1000 <= c <= 1000,
        -1000 <= s <= 1000,
        -1_000_000_000 <= x <= 1_000_000_000,
        -1_000_000_000 <= y <= 1_000_000_000,
    ensures
        -1_000_000_000_000 <= x * s <= 1_000_000_000_000,
        -1_000_000_000_000 <= y * c <= 1_000_000_000_000,
        -1000 * (abs_i(x) + abs_i(y)) <= x * s + y * c <= 1000 * (abs_i(x) + abs_i(y)),
{
}

/// Rotate the point `p` by the angle `a` about the origin.
pub fn rotate_point(p: (i64, i64), a: u64) -> (r: (i64, i64))
    requires
        a < FULL_TURN,
        -1_000_000_000 <= p.0 <= 1_000_000_000,
        -1_000_000_000 <= p.1 <= 1_000_000_000,
    ensures
        r.0 == rotate_x(p, a as int),
        r.1 == rotate_y(p, a as int),
        abs_i(r.0 as int) <= abs_i(p.0 as int) + abs_i(p.1 as int),
        abs_i(r.1 as int) <= abs_i(p.0 as int) + abs_i(p.1 as int),
{
    let c: i64 = cos_fp(a);
    let s: i64 = sin_fp(a);
    proof {
        lemma_rotate_diff_bound(p.0 as int, p.1 as int, c as int, s as int);
        lemma_rotate_sum_bound(p.0 as int, p.1 as int, s as int, c as int);
    }
    let nx: i128 = p.0 as i128 * c as i128 - p.1 as i128 * s as i128;
    let ny: i128 = p.0 as i128 * s as i128 + p.1 as i128 * c as i128;
    let qx: i128 = crate::mathx::div_i128(nx, 1000);
    let qy: i128 = crate::mathx::div_i128(ny, 1000);
    proof {
        lemma_div_abs_bound(nx as int, abs_i(p.0 as int) + abs_i(p.1 as int));
        lemma_div_abs_bound(ny as int, abs_i(p.0 as int) + abs_i(p.1 as int));
    }
    (qx as i64, qy as i64)
}

/// Truncating division by 1000 of a value bounded by `1000 * b` stays within `b`.
proof fn lemma_div_abs_bound(n: int, b: int)
    requires
        0 <= b,
        -1000 * b <= n <= 1000 * b,
    ensures
        -b <= div_trunc(n, 1000) <= b,
{
    crate::mathx::lemma_div_trunc_bound(n, 1000, b);
}

} // verus!
