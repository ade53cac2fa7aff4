//! The geometry kernel on concrete polygons: ray-casting membership,
//! segment intersection, and polygon overlap with its symmetry.

use asteroids::geom::{lines_intersect, point_intersects_polygon, polygons_intersect};

fn square(cx: i64, cy: i64, r: i64) -> Vec<(i64, i64)> {
    vec![(cx - r, cy - r), (cx + r, cy - r), (cx + r, cy + r), (cx - r, cy + r)]
}

#[test]
fn centroid_of_convex_polygon_is_inside() {
    let sq = square(0, 0, 1000);
    assert!(point_intersects_polygon((0, 0), &sq));
    assert!(point_intersects_polygon((999, 999), &sq));
}

#[test]
fn far_point_is_outside() {
    let sq = square(0, 0, 1000);
    assert!(!point_intersects_polygon((5000, 0), &sq));
    assert!(!point_intersects_polygon((0, -400000), &sq));
    assert!(!point_intersects_polygon((1500, 1500), &sq));
}

#[test]
fn concave_polygon_membership() {
    // A "U" shape: the notch between the arms is outside, the arms inside.
    let u: Vec<(i64, i64)> = vec![
        (0, 0),
        (3000, 0),
        (3000, 3000),
        (2000, 3000),
        (2000, 1000),
        (1000, 1000),
        (1000, 3000),
        (0, 3000),
    ];
    assert!(point_intersects_polygon((500, 2000), &u));
    assert!(point_intersects_polygon((2500, 2000), &u));
    assert!(!point_intersects_polygon((1500, 2000), &u));
    assert!(point_intersects_polygon((1500, 500), &u));
}

#[test]
fn segments_crossing_and_disjoint() {
    assert!(lines_intersect(((0, 0), (100, 100)), ((0, 100), (100, 0))));
    assert!(!lines_intersect(((0, 0), (100, 0)), ((0, 50), (100, 50))));
    // Collinear overlap.
    assert!(lines_intersect(((0, 0), (100, 0)), ((50, 0), (200, 0))));
    // Collinear but apart.
    assert!(!lines_intersect(((0, 0), (100, 0)), ((150, 0), (200, 0))));
    // Touching at an endpoint.
    assert!(lines_intersect(((0, 0), (100, 0)), ((100, 0), (100, 100))));
}

#[test]
fn polygons_overlap_cases() {
    let a = square(0, 0, 1000);
    let b = square(500, 500, 1000);
    let c = square(5000, 5000, 1000);
    assert!(polygons_intersect(&a, &b));
    assert!(!polygons_intersect(&a, &c));
    // One polygon entirely inside the other.
    let inner = square(0, 0, 100);
    assert!(polygons_intersect(&a, &inner));
    // Edge-through-edge with every vertex outside: a thin sliver piercing
    // the square needs the edge-pair check.
    let sliver: Vec<(i64, i64)> = vec![(-2000, -10), (2000, -10), (2000, 10), (-2000, 10)];
    assert!(polygons_intersect(&a, &sliver));
}

#[test]
fn polygons_intersect_is_symmetric() {
    let a = square(0, 0, 1000);
    let b = square(900, 900, 1000);
    let c = square(9000, 9000, 1000);
    let sliver: Vec<(i64, i64)> = vec![(-2000, -10), (2000, -10), (2000, 10), (-2000, 10)];
    assert_eq!(polygons_intersect(&a, &b), polygons_intersect(&b, &a));
    assert_eq!(polygons_intersect(&a, &c), polygons_intersect(&c, &a));
    assert_eq!(polygons_intersect(&a, &sliver), polygons_intersect(&sliver, &a));
}

#[test]
fn bullet_trail_as_degenerate_polygon() {
    // A two-point "polygon" (a bullet's sweep segment) still collides.
    let a = square(0, 0, 1000);
    let trail: Vec<(i64, i64)> = vec![(-3000, 0), (3000, 0)];
    assert!(polygons_intersect(&a, &trail));
    let miss: Vec<(i64, i64)> = vec![(-3000, 2000), (3000, 2000)];
    assert!(!polygons_intersect(&a, &miss));
}
