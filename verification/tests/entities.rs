//! Entity behaviour: asteroid generation and splitting, bullets and their
//! trails, particles, the player's kinematics, and gravity wells.

use asteroids::asteroid::Asteroid;
use asteroids::black_hole::BlackHole;
use asteroids::bullet::Bullet;
use asteroids::particle::Particle;
use asteroids::player::Player;

const W: i64 = 2_000_000;
const H: i64 = 1_000_000;

#[test]
fn asteroid_shape_scales_with_radius() {
    let a = Asteroid::new(100_000, 100_000, 60_000);
    assert_eq!(a.shape.len(), 6);
    assert_eq!(a.radius, 60_000);
    let small = Asteroid::new(0, 0, 20_000);
    assert_eq!(small.shape.len(), 3);
    let big = Asteroid::new(0, 0, 100_000);
    assert_eq!(big.shape.len(), 10);
    for p in big.shape.iter() {
        assert!(p.0.abs() <= 200_000 && p.1.abs() <= 200_000);
    }
}

#[test]
fn large_asteroid_splits_into_two_half_radius_children() {
    let a = Asteroid::new(123_000, 456_000, 60_000);
    let children = a.check_split().expect("a large rock splits");
    assert_eq!(children.len(), 2);
    for c in children.iter() {
        assert_eq!(c.radius, 30_000);
        assert_eq!((c.x, c.y), (123_000, 456_000));
    }
    // Radius exactly at twice the minimum still splits.
    let edge = Asteroid::new(0, 0, 40_000);
    let children = edge.check_split().expect("children at the cutoff");
    assert_eq!(children.len(), 2);
    assert_eq!(children[0].radius, 20_000);
}

#[test]
fn small_asteroid_vanishes_without_children() {
    let a = Asteroid::new(0, 0, 39_999);
    assert!(a.check_split().is_none());
    let b = Asteroid::new(0, 0, 20_000);
    assert!(b.check_split().is_none());
}

#[test]
fn asteroid_spawn_location_is_on_the_field() {
    for _ in 0..20 {
        let (x, y) = Asteroid::get_spawn_location(W / 2, H / 2, W, H);
        assert!(0 <= x && x < W);
        assert!(0 <= y && y < H);
    }
}

#[test]
fn asteroid_wraps_on_exit() {
    let mut a = Asteroid::new(0, 0, 50_000);
    a.x = W;
    a.y = 0;
    a.vx = 40;
    a.vy = -10;
    a.tick(100, W, H);
    // Crossed the right edge: back to 0. Crossed the top edge: back to H.
    assert_eq!(a.x, 0);
    assert_eq!(a.y, H);
}

#[test]
fn bullet_flies_along_its_heading() {
    // Heading 0 is along +x; the fixed-point cosine of 0 is exactly 1.
    let b = Bullet::new(1_000, 2_000, 0, true, 500);
    assert_eq!((b.vx, b.vy), (1000, 0));
    assert_eq!(b.death, 1_500);
    assert!(b.is_player_shot);
    // A quarter turn later it flies along +y.
    let b = Bullet::new(0, 0, 900, false, 0);
    assert_eq!((b.vx, b.vy), (0, 1000));
    assert!(!b.is_player_shot);
}

#[test]
fn bullet_trail_spans_the_tick() {
    let b = Bullet::new(10_000, 20_000, 0, true, 0);
    let trail = b.get_physics_trail(50);
    assert_eq!(trail.len(), 2);
    assert_eq!(trail[0], (10_000, 20_000));
    assert_eq!(trail[1], (10_000 + 1000 * 50, 20_000));
}

#[test]
fn bullet_trail_emission_catches_up_on_slow_frames() {
    // Trail rate 20/s; a 200 ms frame owes ceil(20 * 0.2) = 4 particles.
    let mut b = Bullet::new(500_000, 500_000, 0, true, 0);
    b.tick(200, 200, W, H);
    assert_eq!(b.particles_to_spawn.len(), 4);
    let ps = b.get_particles_to_spawn();
    assert_eq!(ps.len(), 4);
    assert_eq!(b.particles_to_spawn.len(), 0);
    for p in ps.iter() {
        assert_eq!((p.x, p.y), (b.x, b.y));
    }
}

#[test]
fn trail_particles_inherit_the_bullet_motion() {
    // A bullet flying +x at 1000 mu/ms: each trail particle keeps most of
    // that motion, losing 10-20% as backwards exhaust, within the scatter.
    let mut b = Bullet::new(500_000, 500_000, 0, true, 0);
    b.tick(200, 200, W, H);
    assert!(!b.particles_to_spawn.is_empty());
    for p in b.particles_to_spawn.iter() {
        assert!(750 <= p.vx && p.vx <= 950, "vx = {}", p.vx);
        assert!(-50 <= p.vy && p.vy <= 50, "vy = {}", p.vy);
    }
}

#[test]
fn bullet_trail_emission_gates_on_fast_frames() {
    // At 20/s one particle is owed every 50 ms.
    let mut b = Bullet::new(500_000, 500_000, 0, true, 1_000);
    b.tick(10, 1_010, W, H);
    assert_eq!(b.particles_to_spawn.len(), 0);
    b.tick(10, 1_060, W, H);
    assert_eq!(b.particles_to_spawn.len(), 1);
    // The stamp reset: 40 ms later nothing new is owed.
    b.tick(10, 1_100, W, H);
    assert_eq!(b.particles_to_spawn.len(), 1);
}

#[test]
fn bullet_expires_by_deadline() {
    let b = Bullet::new(0, 0, 0, true, 1_000);
    assert!(b.is_alive(1_999));
    assert!(b.is_alive(2_000));
    assert!(!b.is_alive(2_001));
}

#[test]
fn particle_lifetime_is_within_the_configured_range() {
    for _ in 0..20 {
        let p = Particle::new(1, 2, 3, 4, 10_000);
        assert!(10_500 <= p.death && p.death < 12_000);
        assert_eq!((p.x, p.y, p.vx, p.vy), (1, 2, 3, 4));
    }
}

#[test]
fn explosion_particle_count_and_origin() {
    let ps = Particle::generate_explosion_particles(7_000, 8_000, 0);
    assert!(10 <= ps.len() && ps.len() < 20);
    for p in ps.iter() {
        assert_eq!((p.x, p.y), (7_000, 8_000));
        assert!(p.vx.abs() <= 300 && p.vy.abs() <= 300);
    }
}

#[test]
fn player_drag_slows_the_ship() {
    let mut p = Player::new(W / 2, H / 2);
    p.vx = 1000;
    p.tick(100, 1_000, W, H);
    // 357 millionths per ms over 100 ms: 1000 - floor(1000 * 35700 / 1e6).
    assert_eq!(p.vx, 965);
    assert_eq!(p.vy, 0);
}

#[test]
fn player_turns_and_wraps_its_heading() {
    let mut p = Player::new(0, 0);
    assert_eq!(p.angle, 2700);
    p.right = true;
    p.tick(250, 1_000, W, H);
    // 4 angle units per ms over 250 ms: 2700 + 1000, wrapping at 3600.
    assert_eq!(p.angle, 100);
    p.right = false;
    p.left = true;
    p.tick(50, 2_000, W, H);
    assert_eq!(p.angle, 3500);
}

#[test]
fn player_thrust_accelerates_along_heading() {
    let mut p = Player::new(W / 2, H / 2);
    p.angle = 0;  // facing +x
    p.up = true;
    p.last_thrust_particle = 0;
    p.tick(16, 1_000, W, H);
    // Thrust adds 16 mu/ms this tick; drag shaves off less than one unit.
    assert_eq!(p.vx, 16);
    assert_eq!(p.vy, 0);
    // One exhaust particle was owed (10/s, none emitted for a second).
    assert_eq!(p.particles_to_spawn.len(), 1);
    // Exhaust leaves roughly backwards along the heading (+x here): the
    // ship was at rest, so the particle flies in -x.
    let e = p.particles_to_spawn[0];
    assert!(e.vx < -200, "vx = {}", e.vx);
    assert!(e.vx >= -500 && e.vy.abs() <= 500);
}

#[test]
fn player_death_resets_to_centre() {
    let mut p = Player::new(100, 100);
    p.vx = 500;
    p.vy = -500;
    p.angle = 1234;
    p.die(W, H);
    assert_eq!((p.x, p.y), (W / 2, H / 2));
    assert_eq!((p.vx, p.vy), (0, 0));
    assert_eq!(p.angle, 2700);
}

#[test]
fn player_shoots_from_the_nose() {
    let mut p = Player::new(W / 2, H / 2);
    p.angle = 0;
    let b = p.shoot_bullet(5_000);
    assert_eq!((b.x, b.y), (W / 2 + 40_000, H / 2));
    assert_eq!((b.vx, b.vy), (1000, 0));
    assert!(b.is_player_shot);
}

#[test]
fn black_hole_grows_holds_and_shrinks() {
    let mut b = BlackHole {
        x: 500_000,
        y: 500_000,
        angle: 0,
        max_radius: 200_000,
        radius: 0,
        expanding: true,
        shrink_time: 1_000_000,
    };
    b.tick(16, 0);
    assert_eq!(b.radius, 800);
    // Growing caps at the full radius and stops expanding.
    b.radius = 199_999;
    b.tick(16, 100);
    assert_eq!(b.radius, 200_000);
    assert!(!b.expanding);
    // Before the shrink deadline the radius holds.
    b.tick(16, 200);
    assert_eq!(b.radius, 200_000);
    // After it, the well shrinks and eventually dies.
    b.tick(16, 2_000_000);
    assert_eq!(b.radius, 200_000 - 800);
    b.radius = 100;
    b.tick(16, 2_000_100);
    assert_eq!(b.radius, -1);
    assert!(!b.is_alive());
}

#[test]
fn fresh_well_lives_and_shrunk_well_is_removed() {
    // A freshly spawned well (radius zero, still growing) exists; a well
    // shrunk back to zero is gone.
    let fresh = BlackHole {
        x: 0,
        y: 0,
        angle: 0,
        max_radius: 200_000,
        radius: 0,
        expanding: true,
        shrink_time: 1_000,
    };
    assert!(fresh.is_alive());
    let spent = BlackHole { radius: 0, expanding: false, ..fresh };
    assert!(!spent.is_alive());
}

#[test]
fn gravity_pull_is_inverse_square_within_range() {
    let b = BlackHole {
        x: 0,
        y: 0,
        angle: 0,
        max_radius: 200_000,
        radius: 100_000,
        expanding: false,
        shrink_time: 0,
    };
    // Player 100 units along +x, well radius 100 units: within three radii.
    // Pull: 16 * 100000 * 200000 * (-100000) / (1e10 * 1e5) = -32 per axis hit.
    let f = b.get_force(100_000, 0, 16);
    assert_eq!(f, (-32, 0));
    // Outside three radii: no pull.
    let f = b.get_force(400_000, 0, 16);
    assert_eq!(f, (0, 0));
    // Exactly on the centre: no direction, no pull.
    let f = b.get_force(0, 0, 16);
    assert_eq!(f, (0, 0));
}
