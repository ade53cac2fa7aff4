//! Exact integer helpers: floor square root and truncating division.

use vstd::prelude::*;

verus! {

/// The floor of the square root of `n`.
pub open spec fn sqrt_floor(n: nat) -> nat
    decreases n,
{
    if n == 0 {
        0
    } else {
        let r = sqrt_floor((n - 1) as nat);
        if (r + 1) * (r + 1) <= n {
            r + 1
        } else {
            r
        }
    }
}

/// `sqrt_floor(n)` is the unique `r` with `r * r <= n < (r + 1) * (r + 1)`.
pub proof fn lemma_sqrt_floor_bounds(n: nat)
    ensures
        sqrt_floor(n) * sqrt_floor(n) <= n,
        n < (sqrt_floor(n) + 1) * (sqrt_floor(n) + 1),
    decreases n,
{
    if n == 0 {
        assert(sqrt_floor(0) == 0);
        assert(sqrt_floor(n) * sqrt_floor(n) <= n);
        assert(n < (sqrt_floor(n) + 1) * (sqrt_floor(n) + 1)) by (nonlinear_arith)
            requires
                n == 0,
                sqrt_floor(n) == 0,
        ;
    } else {
        lemma_sqrt_floor_bounds((n - 1) as nat);
        let p = sqrt_floor((n - 1) as nat);
        let s = sqrt_floor(n);
        assert(p * p <= n - 1);
        assert(n - 1 < (p + 1) * (p + 1));
        if (p + 1) * (p + 1) <= n {
            assert(s == p + 1);
            assert(s * s <= n && n < (s + 1) * (s + 1)) by (nonlinear_arith)
                requires
                    s == p + 1,
                    (p + 1) * (p + 1) <= n,
                    n - 1 < (p + 1) * (p + 1),
            ;
        } else {
            assert(s == p);
            assert(s * s <= n && n < (s + 1) * (s + 1)) by (nonlinear_arith)
                requires
                    s == p,
                    p * p <= n - 1,
                    !((p + 1) * (p + 1) <= n),
            ;
        }
        assert(s * s <= n);
        assert(n < (s + 1) * (s + 1));
    }
}

proof fn lemma_sqrt_unique(n: nat, r: nat)
    requires
        r * r <= n,
        n < (r + 1) * (r + 1),
    ensures
        r == sqrt_floor(n),
{
    lemma_sqrt_floor_bounds(n);
    let s = sqrt_floor(n);
    assert(r == s) by (nonlinear_arith)
        requires
            r * r <= n < (r + 1) * (r + 1),
            s * s <= n < (s + 1) * (s + 1),
    ;
}

/// Square roots are monotone: a lower bound on the radicand gives a lower
/// bound on the root.
pub proof fn lemma_sqrt_floor_at_least(n: nat, b: nat)
    requires
        b * b <= n,
    ensures
        sqrt_floor(n) >= b,
{
    lemma_sqrt_floor_bounds(n);
    let s = sqrt_floor(n);
    assert(s >= b) by (nonlinear_arith)
        requires
            b * b <= n,
            n < (s + 1) * (s + 1),
    ;
}

pub fn isqrt_u128(n: u128) -> (r: u128)
    ensures
        r == sqrt_floor(n as nat),
{
    let mut lo: u128 = 0;
    let mut hi: u128 = 0xFFFF_FFFF_FFFF_FFFF;
    if n < hi {
        hi = n;
    }
    proof {
        assert((hi + 1) * (hi + 1) > n) by (nonlinear_arith)
            requires
                hi == 0xFFFF_FFFF_FFFF_FFFFu128 || hi == n,
                n <= 0xFFFF_FFFF_FFFF_FFFF_FFFF_FFFF_FFFF_FFFFu128,
                hi >= n || hi == 0xFFFF_FFFF_FFFF_FFFFu128,
        ;
    }
    while lo < hi
        invariant
            lo <= hi <= 0xFFFF_FFFF_FFFF_FFFFu128,
            lo * lo <= n,
            (hi + 1) * (hi + 1) > n,
        decreases hi - lo,
    {
        let mid: u128 = lo + (hi - lo + 1) / 2;
        proof {
            assert(mid * mid < 0x1_0000_0000_0000_0000_0000_0000_0000_0000) by (nonlinear_arith)
                requires
                    mid <= 0xFFFF_FFFF_FFFF_FFFFu128,
            ;
        }
        let sq: u128 = mid * mid;
        if sq <= n {
            lo = mid;
        } else {
            hi = mid - 1;
        }
    }
    proof {
        lemma_sqrt_unique(n as nat, lo as nat);
    }
    lo
}

/// Division truncating towards zero, for a positive divisor.
pub open spec fn div_trunc(n: int, d: int) -> int {
    if n >= 0 {
        n / d
    } else {
        -((-n) / d)
    }
}

pub fn div_i128(n: i128, d: i128) -> (q: i128)
    requires
        d > 0,
        n > i128::MIN,
    ensures
        q == div_trunc(n as int, d as int),
        n >= 0 ==> 0 <= q <= n,
        n < 0 ==> n <= q <= 0,
{
    if n >= 0 {
        let q = (n as u128) / (d as u128);
        proof {
            vstd::arithmetic::div_mod::lemma_div_is_ordered_by_denominator(n as int, 1, d as int);
        }
        q as i128
    } else {
        let m: i128 = -n;
        let q = (m as u128) / (d as u128);
        proof {
            vstd::arithmetic::div_mod::lemma_div_is_ordered_by_denominator(m as int, 1, d as int);
        }
        -(q as i128)
    }
}

/// Products of values bounded in magnitude are bounded by the product of
/// the bounds.
pub proof fn lemma_mul_bounds(a: int, b: int, ma: int, mb: int)
    by (nonlinear_arith)
    requires
        -ma <= a <= ma,
        -mb <= b <= mb,
        0 <= ma,
        0 <= mb,
    ensures
        -(ma * mb) <= a * b <= ma * mb,
{
}

/// Truncating division of a value bounded by `d * b` stays within `b`.
pub proof fn lemma_div_trunc_bound(n: int, d: int, b: int)
    requires
        0 < d,
        0 <= b,
        -(d * b) <= n <= d * b,
    ensures
        -b <= div_trunc(n, d) <= b,
{
    vstd::arithmetic::div_mod::lemma_div_multiples_vanish(b, d);
    if n >= 0 {
        vstd::arithmetic::div_mod::lemma_div_is_ordered(n, d * b, d);
        vstd::arithmetic::div_mod::lemma_div_pos_is_pos(n, d);
    } else {
        vstd::arithmetic::div_mod::lemma_div_is_ordered(-n, d * b, d);
        vstd::arithmetic::div_mod::lemma_div_pos_is_pos(-n, d);
    }
}

pub open spec fn clamp_val(x: int, lo: int, hi: int) -> int {
    if x < lo {
        lo
    } else if x > hi {
        hi
    } else {
        x
    }
}

pub fn clamp_i64(x: i64, lo: i64, hi: i64) -> (r: i64)
    requires
        lo <= hi,
    ensures
        r == clamp_val(x as int, lo as int, hi as int),
        lo <= r <= hi,
{
    if x < lo {
        lo
    } else if x > hi {
        hi
    } else {
        x
    }
}

/// The vector of length (at most) `len` pointing the way of `(dx, dy)`:
/// each component is scaled by `len` and divided by the floor length of
/// the vector, truncating towards zero.
pub open spec fn scaled_x(dx: int, dy: int, len: int) -> int {
    div_trunc(dx * len, sqrt_floor((dx * dx + dy * dy) as nat) as int)
}

pub open spec fn scaled_y(dx: int, dy: int, len: int) -> int {
    div_trunc(dy * len, sqrt_floor((dx * dx + dy * dy) as nat) as int)
}

/// Each scaled component is bounded by `len` because the floor length of a
/// vector is at least the magnitude of each component.
pub fn scale_dir(dx: i64, dy: i64, len: i64) -> (r: (i64, i64))
    requires
        !(dx == 0 && dy == 0),
        -1_073_741_824 <= dx <= 1_073_741_824,
        -1_073_741_824 <= dy <= 1_073_741_824,
        0 < len <= 1_000_000,
    ensures
        r.0 == scaled_x(dx as int, dy as int, len as int),
        r.1 == scaled_y(dx as int, dy as int, len as int),
        -len <= r.0 <= len,
        -len <= r.1 <= len,
{
    proof {
        lemma_square_bounds(dx as int, dy as int);
    }
    let n2: i128 = dx as i128 * dx as i128 + dy as i128 * dy as i128;
    let d: u128 = isqrt_u128(n2 as u128);
    proof {
        lemma_sqrt_floor_at_least(n2 as nat, 1);
        lemma_sqrt_floor_at_least(n2 as nat, abs_nat(dx as int));
        lemma_sqrt_floor_at_least(n2 as nat, abs_nat(dy as int));
        lemma_sqrt_floor_bounds(n2 as nat);
        assert(d <= 0x8000_0000) by (nonlinear_arith)
            requires
                d * d <= 0x4000_0000_0000_0000,
        ;
        lemma_scaled_bound(dx as int, d as int, len as int);
        lemma_scaled_bound(dy as int, d as int, len as int);
    }
    let qx: i128 = div_i128(dx as i128 * len as i128, d as i128);
    let qy: i128 = div_i128(dy as i128 * len as i128, d as i128);
    (qx as i64, qy as i64)
}

pub open spec fn abs_nat(x: int) -> nat {
    if x >= 0 {
        x as nat
    } else {
        (-x) as nat
    }
}

proof fn lemma_square_bounds(dx: int, dy: int)
    by (nonlinear_arith)
    requires
        -1_073_741_824 <= dx <= 1_073_741_824,
        -1_073_741_824 <= dy <= 1_073_741_824,
        !(dx == 0 && dy == 0),
    ensures
        0 <= dx * dx <= 0x1000_0000_0000_0000,
        0 <= dy * dy <= 0x1000_0000_0000_0000,
        0 < dx * dx + dy * dy <= 0x4000_0000_0000_0000,
        abs_nat(dx) * abs_nat(dx) <= dx * dx + dy * dy,
        abs_nat(dy) * abs_nat(dy) <= dx * dx + dy * dy,
{
}

/// If `|c| <= d` then `|c * len / d|` truncated is at most `len`.
proof fn lemma_scaled_bound(c: int, d: int, len: int)
    requires
        0 < d,
        0 < len,
        abs_nat(c) <= d,
    ensures
        -len <= div_trunc(c * len, d) <= len,
        -(1_073_741_824 * 1_000_000) <= c * len <= 1_073_741_824 * 1_000_000 || abs_nat(c)
            > 1_073_741_824 || len > 1_000_000,
{
    assert(0 <= abs_nat(c) * len <= d * len) by (nonlinear_arith)
        requires
            0 < d,
            0 < len,
            abs_nat(c) <= d,
    ;
    assert(c * len == if c >= 0 { abs_nat(c) * len } else { -(abs_nat(c) * len) }) by (nonlinear_arith);
    vstd::arithmetic::div_mod::lemma_div_multiples_vanish(len, d);
    if c >= 0 {
        vstd::arithmetic::div_mod::lemma_div_is_ordered(c * len, d * len, d);
        vstd::arithmetic::div_mod::lemma_div_pos_is_pos(c * len, d);
    } else {
        vstd::arithmetic::div_mod::lemma_div_is_ordered(-(c * len), d * len, d);
        vstd::arithmetic::div_mod::lemma_div_pos_is_pos(-(c * len), d);
    }
    assert(abs_nat(c) * len <= 1_073_741_824 * 1_000_000 || abs_nat(c) > 1_073_741_824 || len
        > 1_000_000) by (nonlinear_arith)
        requires
            0 < len,
            0 <= abs_nat(c),
    ;
}

} // verus!
