//! The toroidal wrap model: wrap-on-exit positions and collision across
//! opposite edges through the nine-fold hitboxes.

use asteroids::wrap::{hitboxes_intersect_poly, wrap_coord, wrapped_hitboxes, translate_shape};

fn square_shape(r: i64) -> Vec<(i64, i64)> {
    vec![(-r, -r), (r, -r), (r, r), (-r, r)]
}

#[test]
fn wrap_on_exit() {
    let w = 1_000_000;
    assert_eq!(wrap_coord(-5, w), w);
    assert_eq!(wrap_coord(w + 5, w), 0);
    assert_eq!(wrap_coord(0, w), 0);
    assert_eq!(wrap_coord(w, w), w);
    assert_eq!(wrap_coord(123, w), 123);
}

#[test]
fn nine_translated_copies() {
    let w = 2_000_000;
    let h = 1_000_000;
    let shape = square_shape(5_000);
    let hb = wrapped_hitboxes(&shape, 100, 200, w, h);
    assert_eq!(hb.len(), 9);
    // Copy 0 is untranslated.
    assert_eq!(hb[0][0], (100 - 5_000, 200 - 5_000));
    // Copy 1 is shifted a full field width to the left.
    assert_eq!(hb[1][0], (100 - 5_000 - w, 200 - 5_000));
    // Copy 4 is shifted a full field height down.
    assert_eq!(hb[4][0], (100 - 5_000, 200 - 5_000 + h));
}

#[test]
fn entities_on_opposite_edges_collide_through_the_wrap() {
    let w = 2_000_000;
    let h = 1_000_000;
    // One entity hugs the left edge, the other the right edge. Their raw
    // hitboxes are nearly a full field apart, yet on the torus they overlap.
    let a_shape = square_shape(6_000);
    let b_shape = square_shape(6_000);
    let a_boxes = wrapped_hitboxes(&a_shape, 1_000, 500_000, w, h);
    let b_poly = translate_shape(&b_shape, w - 1_000, 500_000);
    assert!(hitboxes_intersect_poly(&a_boxes, &b_poly));
    // The raw (unwrapped) copies alone do not touch.
    let a_poly = translate_shape(&a_shape, 1_000, 500_000);
    assert!(!asteroids::geom::polygons_intersect(&a_poly, &b_poly));
    // Far apart in both raw and wrapped terms: no collision.
    let c_poly = translate_shape(&b_shape, w / 2, 500_000);
    assert!(!hitboxes_intersect_poly(&a_boxes, &c_poly));
}

#[test]
fn opposite_vertical_edges_collide_too() {
    let w = 2_000_000;
    let h = 1_000_000;
    let shape = square_shape(4_000);
    let top = wrapped_hitboxes(&shape, 700_000, 2_000, w, h);
    let bottom = translate_shape(&shape, 700_000, h - 2_000);
    assert!(hitboxes_intersect_poly(&top, &bottom));
}
