//! Toroidal wrap model: wrap-on-exit positions and the nine-fold
//! translation of a shape used for collision and rendering near the edges.

use vstd::prelude::*;
use crate::geom;
use crate::constants::MAX_FIELD;

verus! {

/// Largest magnitude of a shape vertex coordinate, in mu.
pub const MAX_SHAPE_COORD: i64 = 1_000_000;

pub open spec fn shape_ok(s: Seq<(i64, i64)>) -> bool {
    &&& s.len() >= 1
    &&& forall|i: int|
        0 <= i < s.len() ==> -MAX_SHAPE_COORD <= (#[trigger] s[i]).0 <= MAX_SHAPE_COORD
            && -MAX_SHAPE_COORD <= s[i].1 <= MAX_SHAPE_COORD
}

/// Wrap-on-exit rule for one coordinate: crossing one edge re-enters at the
/// opposite edge; no partial bounce.
pub open spec fn wrap_val(x: int, w: int) -> int {
    if x < 0 {
        w
    } else if x > w {
        0
    } else {
        x
    }
}

pub fn wrap_coord(x: i64, w: i64) -> (r: i64)
    requires
        0 <= w,
    ensures
        r == wrap_val(x as int, w as int),
        0 <= r <= w,
{
    if x < 0 {
        w
    } else if x > w {
        0
    } else {
        x
    }
}

/// The nine toroidal translations, in multiples of the field size.
pub open spec fn wrap_offset(k: int) -> (int, int) {
    if k == 0 {
        (0, 0)
    } else if k == 1 {
        (-1, 0)
    } else if k == 2 {
        (1, 0)
    } else if k == 3 {
        (0, -1)
    } else if k == 4 {
        (0, 1)
    } else if k == 5 {
        (-1, -1)
    } else if k == 6 {
        (-1, 1)
    } else if k == 7 {
        (1, -1)
    } else {
        (1, 1)
    }
}

/// Vertex `i` of the shape `s`, centred at `(x, y)` and translated by the
/// `k`-th toroidal offset on a `w` by `h` field.
pub open spec fn hitbox_point(
    s: Seq<(i64, i64)>,
    x: int,
    y: int,
    w: int,
    h: int,
    k: int,
    i: int,
) -> (i64, i64) {
    (
        (s[i].0 + x + wrap_offset(k).0 * w) as i64,
        (s[i].1 + y + wrap_offset(k).1 * h) as i64,
    )
}

/// Vertex `i` of the shape `s` translated to the position `(x, y)`.
pub open spec fn shape_point(s: Seq<(i64, i64)>, x: int, y: int, i: int) -> (i64, i64) {
    ((s[i].0 + x) as i64, (s[i].1 + y) as i64)
}

/// The shape translated to `(x, y)`: the entity's plain (unwrapped) hitbox.
pub fn translate_shape(shape: &Vec<(i64, i64)>, x: i64, y: i64) -> (r: Vec<(i64, i64)>)
    requires
        shape_ok(shape@),
        -2 * MAX_FIELD <= x <= 2 * MAX_FIELD,
        -2 * MAX_FIELD <= y <= 2 * MAX_FIELD,
    ensures
        r@.len() == shape@.len(),
        forall|i: int| 0 <= i < shape@.len() ==> #[trigger] r@[i] == shape_point(shape@, x as int, y as int, i),
        geom::poly_ok(r@),
{
    let n = shape.len();
    let mut r: Vec<(i64, i64)> = Vec::new();
    let mut i: usize = 0;
    while i < n
        invariant
            n == shape@.len(),
            0 <= i <= n,
            shape_ok(shape@),
            -2 * MAX_FIELD <= x <= 2 * MAX_FIELD,
            -2 * MAX_FIELD <= y <= 2 * MAX_FIELD,
            r@.len() == i,
            forall|j: int| 0 <= j < i ==> #[trigger] r@[j] == shape_point(shape@, x as int, y as int, j),
            geom::poly_ok(r@),
        decreases n - i,
    {
        let p = shape[i];
        r.push((p.0 + x, p.1 + y));
        i += 1;
    }
    r
}

/// The nine wrapped copies of the shape translated to `(x, y)`: every
/// collision and draw near an edge tests all nine.
pub fn wrapped_hitboxes(shape: &Vec<(i64, i64)>, x: i64, y: i64, w: i64, h: i64) -> (r: Vec<
    Vec<(i64, i64)>,
>)
    requires
        shape_ok(shape@),
        0 <= x <= w,
        0 <= y <= h,
        1 <= w <= MAX_FIELD,
        1 <= h <= MAX_FIELD,
    ensures
        r@.len() == 9,
        forall|k: int| 0 <= k < 9 ==> (#[trigger] r@[k])@.len() == shape@.len(),
        forall|k: int, i: int|
            0 <= k < 9 && 0 <= i < shape@.len() ==> #[trigger] r@[k]@[i] == hitbox_point(
                shape@,
                x as int,
                y as int,
                w as int,
                h as int,
                k,
                i,
            ),
        forall|k: int| 0 <= k < 9 ==> geom::poly_ok((#[trigger] r@[k])@),
{
    let mut r: Vec<Vec<(i64, i64)>> = Vec::new();
    let mut k: usize = 0;
    while k < 9
        invariant
            0 <= k <= 9,
            shape_ok(shape@),
            0 <= x <= w,
            0 <= y <= h,
            1 <= w <= MAX_FIELD,
            1 <= h <= MAX_FIELD,
            r@.len() == k,
            forall|m: int| 0 <= m < k ==> (#[trigger] r@[m])@.len() == shape@.len(),
            forall|m: int, i: int|
                0 <= m < k && 0 <= i < shape@.len() ==> #[trigger] r@[m]@[i] == hitbox_point(
                    shape@,
                    x as int,
                    y as int,
                    w as int,
                    h as int,
                    m,
                    i,
                ),
            forall|m: int| 0 <= m < k ==> geom::poly_ok((#[trigger] r@[m])@),
        decreases 9 - k,
    {
        let (ox, oy): (i64, i64) = if k == 0 {
            (0, 0)
        } else if k == 1 {
            (-1, 0)
        } else if k == 2 {
            (1, 0)
        } else if k == 3 {
            (0, -1)
        } else if k == 4 {
            (0, 1)
        } else if k == 5 {
            (-1, -1)
        } else if k == 6 {
            (-1, 1)
        } else if k == 7 {
            (1, -1)
        } else {
            (1, 1)
        };
        proof {
            assert(ox == wrap_offset(k as int).0 && oy == wrap_offset(k as int).1);
            assert(ox * w == if ox == 1 { w as int } else if ox == -1 { -w as int } else { 0int })
                by (nonlinear_arith)
                requires
                    ox == 1 || ox == 0 || ox == -1,
            ;
            assert(oy * h == if oy == 1 { h as int } else if oy == -1 { -h as int } else { 0int })
                by (nonlinear_arith)
                requires
                    oy == 1 || oy == 0 || oy == -1,
            ;
        }
        let dx: i64 = x + ox * w;
        let dy: i64 = y + oy * h;
        let copy = translate_shape(shape, dx, dy);
        proof {
            assert(forall|i: int|
                0 <= i < shape@.len() ==> #[trigger] copy@[i] == hitbox_point(
                    shape@,
                    x as int,
                    y as int,
                    w as int,
                    h as int,
                    k as int,
                    i,
                ));
        }
        r.push(copy);
        k += 1;
    }
    r
}

/// Whether any of the nine wrapped copies in `hb` meets the polygon `poly`.
pub fn hitboxes_intersect_poly(hb: &Vec<Vec<(i64, i64)>>, poly: &Vec<(i64, i64)>) -> (r: bool)
    requires
        poly@.len() >= 1,
        geom::poly_ok(poly@),
        forall|k: int| 0 <= k < hb@.len() ==> (#[trigger] hb@[k])@.len() >= 1,
        forall|k: int| 0 <= k < hb@.len() ==> geom::poly_ok((#[trigger] hb@[k])@),
    ensures
        r == exists|k: int| 0 <= k < hb@.len() && geom::polys_intersect((#[trigger] hb@[k])@, poly@),
{
    let n = hb.len();
    let mut k: usize = 0;
    while k < n
        invariant
            n == hb@.len(),
            0 <= k <= n,
            poly@.len() >= 1,
            geom::poly_ok(poly@),
            forall|m: int| 0 <= m < n ==> (#[trigger] hb@[m])@.len() >= 1,
            forall|m: int| 0 <= m < n ==> geom::poly_ok((#[trigger] hb@[m])@),
            forall|m: int| 0 <= m < k ==> !geom::polys_intersect((#[trigger] hb@[m])@, poly@),
        decreases n - k,
    {
        if geom::polygons_intersect(&hb[k], poly) {
            return true;
        }
        k += 1;
    }
    false
}

} // verus!
