//! Closed-form intercept solver: where to aim a fixed-speed bullet so that
//! it and a constant-velocity target arrive at the same point together.
//!
//! For the target at offset `R` from the muzzle moving with velocity `V`,
//! and bullet speed `s`, the impact time solves
//! `(|V|^2 - s^2) t^2 + 2 (R . V) t + |R|^2 == 0`. The solver works in exact
//! integers, taking the floor square root of the discriminant and clamping
//! the impact time so the extrapolated point stays within machine range.

use vstd::prelude::*;
use crate::constants::INTERCEPT_MAX_TIME;
use crate::mathx::{self, sqrt_floor};

verus! {

/// Largest offset component the solver accepts, in mu.
pub const MAX_AIM_R: i64 = 33_000_000;
/// Largest velocity component the solver accepts, in mu/ms.
pub const MAX_AIM_V: i64 = 5_000;
/// Largest bullet speed the solver accepts, in mu/ms.
pub const MAX_AIM_S: i64 = 5_000;

/// Half the linear coefficient: `R . V`.
pub open spec fn icpt_b(rx: int, ry: int, vx: int, vy: int) -> int {
    rx * vx + ry * vy
}

/// The quadratic coefficient: `|V|^2 - s^2`.
pub open spec fn icpt_a(vx: int, vy: int, s: int) -> int {
    vx * vx + vy * vy - s * s
}

/// The constant coefficient: `|R|^2`.
pub open spec fn icpt_c(rx: int, ry: int) -> int {
    rx * rx + ry * ry
}

/// The discriminant `(R . V)^2 - (|V|^2 - s^2) |R|^2`.
pub open spec fn icpt_disc(rx: int, ry: int, vx: int, vy: int, s: int) -> int {
    let b = icpt_b(rx, ry, vx, vy);
    b * b - icpt_a(vx, vy, s) * icpt_c(rx, ry)
}

/// Numerator of the larger root, over the positive denominator `|a|`.
pub open spec fn icpt_hi_num(rx: int, ry: int, vx: int, vy: int, s: int) -> int {
    let b = icpt_b(rx, ry, vx, vy);
    let sq = sqrt_floor(icpt_disc(rx, ry, vx, vy, s) as nat) as int;
    if icpt_a(vx, vy, s) > 0 {
        -b + sq
    } else {
        b + sq
    }
}

/// Numerator of the smaller root, over the positive denominator `|a|`.
pub open spec fn icpt_lo_num(rx: int, ry: int, vx: int, vy: int, s: int) -> int {
    let b = icpt_b(rx, ry, vx, vy);
    let sq = sqrt_floor(icpt_disc(rx, ry, vx, vy, s) as nat) as int;
    if icpt_a(vx, vy, s) > 0 {
        -b - sq
    } else {
        b - sq
    }
}

/// A shot is possible when the quadratic is not degenerate, a real solution
/// exists, and some root is strictly positive.
pub open spec fn icpt_has_solution(rx: int, ry: int, vx: int, vy: int, s: int) -> bool {
    &&& icpt_a(vx, vy, s) != 0
    &&& icpt_disc(rx, ry, vx, vy, s) >= 0
    &&& icpt_hi_num(rx, ry, vx, vy, s) > 0
}

/// The impact time: the smallest strictly positive root, floored, and capped
/// so extrapolation stays in range.
pub open spec fn icpt_time(rx: int, ry: int, vx: int, vy: int, s: int) -> int {
    let a = icpt_a(vx, vy, s);
    let den = if a > 0 {
        a
    } else {
        -a
    };
    let lo = icpt_lo_num(rx, ry, vx, vy, s);
    let hi = icpt_hi_num(rx, ry, vx, vy, s);
    let tn = if lo > 0 {
        lo
    } else {
        hi
    };
    let t = tn / den;
    if t > INTERCEPT_MAX_TIME {
        INTERCEPT_MAX_TIME as int
    } else {
        t
    }
}

/// Where to aim, relative to the muzzle: the target's position extrapolated
/// to the impact time, `R + V * t`.
pub open spec fn icpt_aim(rx: int, ry: int, vx: int, vy: int, s: int) -> (int, int) {
    let t = icpt_time(rx, ry, vx, vy, s);
    (rx + vx * t, ry + vy * t)
}

proof fn lemma_icpt_bounds(rx: int, ry: int, vx: int, vy: int, s: int)
    requires
        -MAX_AIM_R <= rx <= MAX_AIM_R,
        -MAX_AIM_R <= ry <= MAX_AIM_R,
        -MAX_AIM_V <= vx <= MAX_AIM_V,
        -MAX_AIM_V <= vy <= MAX_AIM_V,
        0 < s <= MAX_AIM_S,
    ensures
        -7_000_000_000_000 <= icpt_b(rx, ry, vx, vy) <= 7_000_000_000_000,
        -30_000_000_000 <= icpt_a(vx, vy, s) <= 30_000_000_000,
        0 <= icpt_c(rx, ry) <= 2_200_000_000_000_000,
        -3_300_000_000_000 <= rx * vx <= 3_300_000_000_000,
        -3_300_000_000_000 <= ry * vy <= 3_300_000_000_000,
        0 <= vx * vx <= 10_000_000_000,
        0 <= vy * vy <= 10_000_000_000,
        0 <= s * s <= 10_000_000_000,
        0 <= rx * rx <= 1_089_000_000_000_000,
        0 <= ry * ry <= 1_089_000_000_000_000,
{
    mathx::lemma_mul_bounds(rx, vx, MAX_AIM_R as int, MAX_AIM_V as int);
    mathx::lemma_mul_bounds(ry, vy, MAX_AIM_R as int, MAX_AIM_V as int);
    mathx::lemma_mul_bounds(vx, vx, MAX_AIM_V as int, MAX_AIM_V as int);
    mathx::lemma_mul_bounds(vy, vy, MAX_AIM_V as int, MAX_AIM_V as int);
    mathx::lemma_mul_bounds(s, s, MAX_AIM_S as int, MAX_AIM_S as int);
    mathx::lemma_mul_bounds(rx, rx, MAX_AIM_R as int, MAX_AIM_R as int);
    mathx::lemma_mul_bounds(ry, ry, MAX_AIM_R as int, MAX_AIM_R as int);
    assert(0 <= rx * rx && 0 <= ry * ry && 0 <= vx * vx && 0 <= vy * vy && 0 <= s * s)
        by (nonlinear_arith);
}

proof fn lemma_icpt_prod_bounds(b: int, a: int, c: int)
    requires
        -7_000_000_000_000 <= b <= 7_000_000_000_000,
        -30_000_000_000 <= a <= 30_000_000_000,
        0 <= c <= 2_200_000_000_000_000,
    ensures
        0 <= b * b <= 49_000_000_000_000_000_000_000_000,
        -66_000_000_000_000_000_000_000_000 <= a * c <= 66_000_000_000_000_000_000_000_000,
{
    mathx::lemma_mul_bounds(b, b, 7_000_000_000_000, 7_000_000_000_000);
    mathx::lemma_mul_bounds(a, c, 30_000_000_000, 2_200_000_000_000_000);
    assert(0 <= b * b) by (nonlinear_arith);
}

/// Solve the intercept. `None` means no shot this cycle: the quadratic is
/// degenerate, has no real root, or has no positive root. `Some` carries the
/// aim point relative to the muzzle.
pub fn solve_intercept(rx: i64, ry: i64, vx: i64, vy: i64, s: i64) -> (r: Option<(i64, i64)>)
    requires
        -MAX_AIM_R <= rx <= MAX_AIM_R,
        -MAX_AIM_R <= ry <= MAX_AIM_R,
        -MAX_AIM_V <= vx <= MAX_AIM_V,
        -MAX_AIM_V <= vy <= MAX_AIM_V,
        0 < s <= MAX_AIM_S,
    ensures
        (r is Some) == icpt_has_solution(rx as int, ry as int, vx as int, vy as int, s as int),
        r is Some ==> ({
            let aim = icpt_aim(rx as int, ry as int, vx as int, vy as int, s as int);
            &&& r->Some_0.0 == aim.0
            &&& r->Some_0.1 == aim.1
            &&& -1_000_000_000 <= r->Some_0.0 <= 1_000_000_000
            &&& -1_000_000_000 <= r->Some_0.1 <= 1_000_000_000
        }),
{
    proof {
        lemma_icpt_bounds(rx as int, ry as int, vx as int, vy as int, s as int);
    }
    let b: i128 = rx as i128 * vx as i128 + ry as i128 * vy as i128;
    let a: i128 = vx as i128 * vx as i128 + vy as i128 * vy as i128 - s as i128 * s as i128;
    let c: i128 = rx as i128 * rx as i128 + ry as i128 * ry as i128;
    proof {
        lemma_icpt_prod_bounds(b as int, a as int, c as int);
    }
    let disc: i128 = b * b - a * c;
    if a == 0 || disc < 0 {
        return None;
    }
    let sq_u: u128 = mathx::isqrt_u128(disc as u128);
    proof {
        mathx::lemma_sqrt_floor_bounds(disc as nat);
        assert(sq_u * sq_u <= disc);
        assert(sq_u < 0x2_0000_0000_0000_0000) by (nonlinear_arith)
            requires
                sq_u * sq_u <= disc <= 115_000_000_000_000_000_000_000_000,
        ;
    }
    let sq: i128 = sq_u as i128;
    let (lo, hi, den): (i128, i128, i128) = if a > 0 {
        (-b - sq, -b + sq, a)
    } else {
        (b - sq, b + sq, -a)
    };
    if hi <= 0 {
        return None;
    }
    let tn: i128 = if lo > 0 {
        lo
    } else {
        hi
    };
    let t_raw: i128 = ((tn as u128) / (den as u128)) as i128;
    proof {
        vstd::arithmetic::div_mod::lemma_div_pos_is_pos(tn as int, den as int);
        vstd::arithmetic::div_mod::lemma_div_is_ordered_by_denominator(tn as int, 1, den as int);
    }
    let t: i128 = if t_raw > INTERCEPT_MAX_TIME as i128 {
        INTERCEPT_MAX_TIME as i128
    } else {
        t_raw
    };
    proof {
        mathx::lemma_mul_bounds(vx as int, t as int, MAX_AIM_V as int, INTERCEPT_MAX_TIME as int);
        mathx::lemma_mul_bounds(vy as int, t as int, MAX_AIM_V as int, INTERCEPT_MAX_TIME as int);
    }
    let ax: i128 = rx as i128 + vx as i128 * t;
    let ay: i128 = ry as i128 + vy as i128 * t;
    Some((ax as i64, ay as i64))
}

/// Against a stationary target the intercept reduces to aiming straight at
/// it: whenever the solver fires, the aim point is the target's position,
/// and it does fire whenever the target is not already on the muzzle.
pub proof fn lemma_intercept_stationary(rx: int, ry: int, s: int)
    requires
        -MAX_AIM_R <= rx <= MAX_AIM_R,
        -MAX_AIM_R <= ry <= MAX_AIM_R,
        0 < s <= MAX_AIM_S,
        !(rx == 0 && ry == 0),
    ensures
        icpt_has_solution(rx, ry, 0, 0, s),
        icpt_aim(rx, ry, 0, 0, s) == (rx, ry),
{
    let a = icpt_a(0, 0, s);
    let c = icpt_c(rx, ry);
    let disc = icpt_disc(rx, ry, 0, 0, s);
    assert(icpt_b(rx, ry, 0, 0) == 0) by (nonlinear_arith);
    assert(a == -(s * s) && s * s > 0) by (nonlinear_arith)
        requires
            0 < s,
            a == icpt_a(0, 0, s),
    ;
    assert(c >= 1) by (nonlinear_arith)
        requires
            !(rx == 0 && ry == 0),
            c == icpt_c(rx, ry),
    ;
    assert(disc == s * s * c && disc >= 1) by (nonlinear_arith)
        requires
            disc == icpt_disc(rx, ry, 0, 0, s),
            icpt_b(rx, ry, 0, 0) == 0,
            a == icpt_a(0, 0, s),
            a == -(s * s),
            c == icpt_c(rx, ry),
            s * s > 0,
            c >= 1,
    ;
    mathx::lemma_sqrt_floor_at_least(disc as nat, 1);
    assert(icpt_hi_num(rx, ry, 0, 0, s) == sqrt_floor(disc as nat) as int);
    assert(icpt_has_solution(rx, ry, 0, 0, s));
    let t = icpt_time(rx, ry, 0, 0, s);
    assert(0 * t == 0) by (nonlinear_arith);
    assert(icpt_aim(rx, ry, 0, 0, s) == (rx, ry));
}

} // verus!
