//! Geometry kernel: point-in-polygon, segment intersection and
//! polygon-against-polygon tests over exact integer coordinates.
//!
//! A polygon is an ordered sequence of vertices; edge `i` joins vertex `i`
//! to vertex `i + 1`, and the last vertex back to the first.

use vstd::prelude::*;

verus! {

/// Coordinates admitted by the kernel; keeps every intermediate product
/// of the tests inside `i128`.
pub const MAX_COORD: i64 = 0x1000_0000_0000_0000;

pub open spec fn coord_ok(p: (i64, i64)) -> bool {
    -MAX_COORD <= p.0 <= MAX_COORD && -MAX_COORD <= p.1 <= MAX_COORD
}

pub open spec fn poly_ok(s: Seq<(i64, i64)>) -> bool {
    forall|i: int| 0 <= i < s.len() ==> coord_ok(#[trigger] s[i])
}

proof fn lemma_mul_bound(a: int, b: int, m: int)
    by (nonlinear_arith)
    requires
        -m <= a <= m,
        -m <= b <= m,
        0 <= m,
    ensures
        -(m * m) <= a * b <= m * m,
{
}

/// The signed quantity whose sign classifies the turn taken at `q` when
/// walking `p -> q -> r`.
pub open spec fn orient_val(p: (i64, i64), q: (i64, i64), r: (i64, i64)) -> int {
    (q.1 - p.1) * (r.0 - q.0) - (q.0 - p.0) * (r.1 - q.1)
}

/// 0 for collinear, 1 for a clockwise turn, 2 for a counter-clockwise turn.
pub open spec fn orientation_of(p: (i64, i64), q: (i64, i64), r: (i64, i64)) -> int {
    let v = orient_val(p, q, r);
    if v == 0 {
        0
    } else if v > 0 {
        1
    } else {
        2
    }
}

fn orientation(p: (i64, i64), q: (i64, i64), r: (i64, i64)) -> (o: u8)
    requires
        coord_ok(p),
        coord_ok(q),
        coord_ok(r),
    ensures
        o == orientation_of(p, q, r),
{
    let dy: i128 = q.1 as i128 - p.1 as i128;
    let rx: i128 = r.0 as i128 - q.0 as i128;
    let dx: i128 = q.0 as i128 - p.0 as i128;
    let ry: i128 = r.1 as i128 - q.1 as i128;
    proof {
        lemma_mul_bound(dy as int, rx as int, 0x2000_0000_0000_0000);
        lemma_mul_bound(dx as int, ry as int, 0x2000_0000_0000_0000);
    }
    let v: i128 = dy * rx - dx * ry;
    if v == 0 {
        0
    } else if v > 0 {
        1
    } else {
        2
    }
}

/// Whether `q` lies inside the bounding box of the segment `p`-`r`;
/// combined with collinearity this detects overlap of parallel segments.
pub open spec fn on_segment(p: (i64, i64), q: (i64, i64), r: (i64, i64)) -> bool {
    &&& q.0 <= if p.0 >= r.0 { p.0 } else { r.0 }
    &&& q.0 >= if p.0 <= r.0 { p.0 } else { r.0 }
    &&& q.1 <= if p.1 >= r.1 { p.1 } else { r.1 }
    &&& q.1 >= if p.1 <= r.1 { p.1 } else { r.1 }
}

fn on_segment_check(p: (i64, i64), q: (i64, i64), r: (i64, i64)) -> (b: bool)
    ensures
        b == on_segment(p, q, r),
{
    let hx: i64 = if p.0 >= r.0 { p.0 } else { r.0 };
    let lx: i64 = if p.0 <= r.0 { p.0 } else { r.0 };
    let hy: i64 = if p.1 >= r.1 { p.1 } else { r.1 };
    let ly: i64 = if p.1 <= r.1 { p.1 } else { r.1 };
    q.0 <= hx && q.0 >= lx && q.1 <= hy && q.1 >= ly
}

/// Whether segment `p1`-`q1` meets segment `p2`-`q2`: the orientation test,
/// with a collinear-overlap fallback for the degenerate cases.
pub open spec fn segs_intersect(
    p1: (i64, i64),
    q1: (i64, i64),
    p2: (i64, i64),
    q2: (i64, i64),
) -> bool {
    let o1 = orientation_of(p1, q1, p2);
    let o2 = orientation_of(p1, q1, q2);
    let o3 = orientation_of(p2, q2, p1);
    let o4 = orientation_of(p2, q2, q1);
    ||| (o1 != o2 && o3 != o4)
    ||| (o1 == 0 && on_segment(p1, p2, q1))
    ||| (o2 == 0 && on_segment(p1, q2, q1))
    ||| (o3 == 0 && on_segment(p2, p1, q2))
    ||| (o4 == 0 && on_segment(p2, q1, q2))
}

/// Exchanging the two segments does not change whether they intersect.
pub proof fn lemma_segs_intersect_symmetric(
    p1: (i64, i64),
    q1: (i64, i64),
    p2: (i64, i64),
    q2: (i64, i64),
)
    ensures
        segs_intersect(p1, q1, p2, q2) == segs_intersect(p2, q2, p1, q1),
{
}

pub fn lines_intersect(a: ((i64, i64), (i64, i64)), b: ((i64, i64), (i64, i64))) -> (r: bool)
    requires
        coord_ok(a.0),
        coord_ok(a.1),
        coord_ok(b.0),
        coord_ok(b.1),
    ensures
        r == segs_intersect(a.0, a.1, b.0, b.1),
{
    let (p1, q1) = a;
    let (p2, q2) = b;
    let o1 = orientation(p1, q1, p2);
    let o2 = orientation(p1, q1, q2);
    let o3 = orientation(p2, q2, p1);
    let o4 = orientation(p2, q2, q1);
    if o1 != o2 && o3 != o4 {
        return true;
    }
    (o1 == 0 && on_segment_check(p1, p2, q1)) || (o2 == 0 && on_segment_check(p1, q2, q1)) || (o3
        == 0 && on_segment_check(p2, p1, q2)) || (o4 == 0 && on_segment_check(p2, q1, q2))
}

/// Whether the horizontal ray cast from `p` towards +x crosses the edge
/// `a`-`b`: exactly one endpoint lies strictly above `p`, and the edge
/// meets the ray's height at an x strictly greater than `p.0`.
pub open spec fn edge_crosses(p: (i64, i64), a: (i64, i64), b: (i64, i64)) -> bool {
    ((a.1 > p.1) != (b.1 > p.1)) && ({
        let lhs = (p.0 - a.0) * (b.1 - a.1);
        let rhs = (b.0 - a.0) * (p.1 - a.1);
        if b.1 > a.1 {
            lhs < rhs
        } else {
            lhs > rhs
        }
    })
}

fn edge_crosses_check(p: (i64, i64), a: (i64, i64), b: (i64, i64)) -> (r: bool)
    requires
        coord_ok(p),
        coord_ok(a),
        coord_ok(b),
    ensures
        r == edge_crosses(p, a, b),
{
    if (a.1 > p.1) == (b.1 > p.1) {
        return false;
    }
    let px: i128 = p.0 as i128 - a.0 as i128;
    let ey: i128 = b.1 as i128 - a.1 as i128;
    let ex: i128 = b.0 as i128 - a.0 as i128;
    let py: i128 = p.1 as i128 - a.1 as i128;
    proof {
        lemma_mul_bound(px as int, ey as int, 0x2000_0000_0000_0000);
        lemma_mul_bound(ex as int, py as int, 0x2000_0000_0000_0000);
    }
    let lhs: i128 = px * ey;
    let rhs: i128 = ex * py;
    if b.1 > a.1 {
        lhs < rhs
    } else {
        lhs > rhs
    }
}

/// Endpoints of edge `i` of the polygon `s`.
pub open spec fn poly_edge(s: Seq<(i64, i64)>, i: int) -> ((i64, i64), (i64, i64)) {
    (s[i], s[if i + 1 == s.len() { 0int } else { i + 1 }])
}

/// How many of the first `k` edges of `s` the ray from `p` crosses.
pub open spec fn crossings(p: (i64, i64), s: Seq<(i64, i64)>, k: int) -> nat
    decreases k,
{
    if k <= 0 {
        0
    } else {
        crossings(p, s, k - 1) + if edge_crosses(p, poly_edge(s, k - 1).0, poly_edge(s, k - 1).1) {
            1nat
        } else {
            0nat
        }
    }
}

/// Ray-casting parity: `p` is inside `s` iff the ray crosses an odd number
/// of edges.
pub open spec fn point_in_polygon(p: (i64, i64), s: Seq<(i64, i64)>) -> bool {
    crossings(p, s, s.len() as int) % 2 == 1
}

pub fn point_intersects_polygon(p: (i64, i64), polygon: &Vec<(i64, i64)>) -> (r: bool)
    requires
        polygon@.len() >= 1,
        coord_ok(p),
        poly_ok(polygon@),
    ensures
        r == point_in_polygon(p, polygon@),
{
    let n = polygon.len();
    let mut count: usize = 0;
    let mut i: usize = 0;
    while i < n
        invariant
            1 <= n == polygon@.len(),
            0 <= i <= n,
            count <= i,
            coord_ok(p),
            poly_ok(polygon@),
            count == crossings(p, polygon@, i as int),
        decreases n - i,
    {
        let a = polygon[i];
        let b = polygon[if i + 1 == n { 0 } else { i + 1 }];
        if edge_crosses_check(p, a, b) {
            count += 1;
        }
        i += 1;
    }
    count % 2 == 1
}

/// Two polygons meet iff a vertex of one lies inside the other or some pair
/// of edges intersects; all three checks are needed because two polygons can
/// overlap with every vertex outside the other.
pub open spec fn polys_intersect(a: Seq<(i64, i64)>, b: Seq<(i64, i64)>) -> bool {
    ||| (exists|i: int| 0 <= i < a.len() && point_in_polygon(#[trigger] a[i], b))
    ||| (exists|i: int| 0 <= i < b.len() && point_in_polygon(#[trigger] b[i], a))
    ||| (exists|i: int, j: int|
        0 <= i < a.len() && 0 <= j < b.len() && segs_intersect(
            #[trigger] poly_edge(a, i).0,
            poly_edge(a, i).1,
            #[trigger] poly_edge(b, j).0,
            poly_edge(b, j).1,
        ))
}

pub fn polygons_intersect(a: &Vec<(i64, i64)>, b: &Vec<(i64, i64)>) -> (r: bool)
    requires
        a@.len() >= 1,
        b@.len() >= 1,
        poly_ok(a@),
        poly_ok(b@),
    ensures
        r == polys_intersect(a@, b@),
{
    let na = a.len();
    let nb = b.len();
    let mut i: usize = 0;
    while i < na
        invariant
            1 <= na == a@.len(),
            1 <= nb == b@.len(),
            0 <= i <= na,
            poly_ok(a@),
            poly_ok(b@),
            forall|k: int| 0 <= k < i ==> !point_in_polygon(#[trigger] a@[k], b@),
        decreases na - i,
    {
        if point_intersects_polygon(a[i], b) {
            return true;
        }
        i += 1;
    }
    let mut i: usize = 0;
    while i < nb
        invariant
            1 <= na == a@.len(),
            1 <= nb == b@.len(),
            0 <= i <= nb,
            poly_ok(a@),
            poly_ok(b@),
            forall|k: int| 0 <= k < i ==> !point_in_polygon(#[trigger] b@[k], a@),
        decreases nb - i,
    {
        if point_intersects_polygon(b[i], a) {
            return true;
        }
        i += 1;
    }
    let mut i: usize = 0;
    while i < na
        invariant
            1 <= na == a@.len(),
            1 <= nb == b@.len(),
            0 <= i <= na,
            poly_ok(a@),
            poly_ok(b@),
            forall|k: int, l: int|
                0 <= k < i && 0 <= l < nb ==> !segs_intersect(
                    #[trigger] poly_edge(a@, k).0,
                    poly_edge(a@, k).1,
                    #[trigger] poly_edge(b@, l).0,
                    poly_edge(b@, l).1,
                ),
        decreases na - i,
    {
        let ea = (a[i], a[if i + 1 == na { 0 } else { i + 1 }]);
        let mut j: usize = 0;
        while j < nb
            invariant
                1 <= na == a@.len(),
                1 <= nb == b@.len(),
                0 <= i < na,
                0 <= j <= nb,
                poly_ok(a@),
                poly_ok(b@),
                ea == poly_edge(a@, i as int),
                forall|l: int|
                    0 <= l < j ==> !segs_intersect(
                        poly_edge(a@, i as int).0,
                        poly_edge(a@, i as int).1,
                        #[trigger] poly_edge(b@, l).0,
                        poly_edge(b@, l).1,
                    ),
            decreases nb - j,
        {
            let eb = (b[j], b[if j + 1 == nb { 0 } else { j + 1 }]);
            if lines_intersect(ea, eb) {
                proof {
                    assert(eb == poly_edge(b@, j as int));
                    assert(segs_intersect(
                        poly_edge(a@, i as int).0,
                        poly_edge(a@, i as int).1,
                        poly_edge(b@, j as int).0,
                        poly_edge(b@, j as int).1,
                    ));
                }
                return true;
            }
            j += 1;
        }
        proof {
            assert(forall|l: int|
                0 <= l < nb ==> !segs_intersect(
                    #[trigger] poly_edge(a@, i as int).0,
                    poly_edge(a@, i as int).1,
                    #[trigger] poly_edge(b@, l).0,
                    poly_edge(b@, l).1,
                ));
        }
        i += 1;
    }
    false
}

/// Polygon intersection is symmetric in its two arguments.
pub proof fn lemma_polygons_intersect_symmetric(a: Seq<(i64, i64)>, b: Seq<(i64, i64)>)
    ensures
        polys_intersect(a, b) == polys_intersect(b, a),
{
    if polys_intersect(a, b) {
        lemma_polys_intersect_one_way(a, b);
    }
    if polys_intersect(b, a) {
        lemma_polys_intersect_one_way(b, a);
    }
}

proof fn lemma_polys_intersect_one_way(a: Seq<(i64, i64)>, b: Seq<(i64, i64)>)
    requires
        polys_intersect(a, b),
    ensures
        polys_intersect(b, a),
{
    if exists|i: int, j: int|
        0 <= i < a.len() && 0 <= j < b.len() && segs_intersect(
            #[trigger] poly_edge(a, i).0,
            poly_edge(a, i).1,
            #[trigger] poly_edge(b, j).0,
            poly_edge(b, j).1,
        ) {
        let (i, j): (int, int) = choose|i: int, j: int|
            0 <= i < a.len() && 0 <= j < b.len() && segs_intersect(
                #[trigger] poly_edge(a, i).0,
                poly_edge(a, i).1,
                #[trigger] poly_edge(b, j).0,
                poly_edge(b, j).1,
            );
        lemma_segs_intersect_symmetric(
            poly_edge(a, i).0,
            poly_edge(a, i).1,
            poly_edge(b, j).0,
            poly_edge(b, j).1,
        );
        assert(segs_intersect(poly_edge(b, j).0, poly_edge(b, j).1, poly_edge(a, i).0, poly_edge(a, i).1));
    }
}

} // verus!
