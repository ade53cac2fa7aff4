//! The predictive intercept solver: the stationary-target boundary case,
//! an exact perpendicular intercept simulated forward, and the no-solution
//! case.

use asteroids::alien::{Alien, ShootingType};
use asteroids::targeting::solve_intercept;

#[test]
fn stationary_target_is_aimed_at_directly() {
    // With the target at rest the solver must aim straight at it.
    assert_eq!(solve_intercept(5_000, -7_000, 0, 0, 1000), Some((5_000, -7_000)));
    assert_eq!(solve_intercept(-123_456, 654_321, 0, 0, 1000), Some((-123_456, 654_321)));
    assert_eq!(solve_intercept(400_000, 0, 0, 0, 1000), Some((400_000, 0)));
}

#[test]
fn perpendicular_intercept_meets_the_target() {
    // Target 400 units along x, moving perpendicular at 600 mu/ms; bullet
    // speed 1000 mu/ms. The classic 3-4-5 triangle: impact after exactly
    // 500 ms at (400000, 300000).
    let rx = 400_000i64;
    let vy = 600i64;
    let s = 1000i64;
    let aim = solve_intercept(rx, 0, 0, vy, s).expect("an intercept exists");
    assert_eq!(aim, (400_000, 300_000));
    // Simulate both forward by the implied impact time: the bullet covers
    // the 500000 mu to the aim point at speed 1000, so t = 500 ms.
    let t = 500i64;
    let dist2 = aim.0 * aim.0 + aim.1 * aim.1;
    assert_eq!(dist2, (s * t) * (s * t));
    let bullet_vx = aim.0 * s / 500_000;
    let bullet_vy = aim.1 * s / 500_000;
    let bullet_at_t = (bullet_vx * t, bullet_vy * t);
    let target_at_t = (rx, vy * t);
    assert_eq!(bullet_at_t, target_at_t);
}

#[test]
fn no_intercept_when_target_outruns_the_bullet() {
    // Target receding along x faster than the bullet travels: both roots
    // are negative, so the shot is skipped.
    assert_eq!(solve_intercept(1_000_000, 0, 2_000, 0, 1000), None);
}

#[test]
fn degenerate_quadratic_is_skipped() {
    // Target speed exactly the bullet speed: the leading coefficient is
    // zero and the solver declines.
    assert_eq!(solve_intercept(500_000, 0, 1000, 0, 1000), None);
}

#[test]
fn future_alien_fires_the_exact_lead() {
    // The full path through the alien: muzzle 30000 mu towards the player,
    // then the 3-4-5 intercept above.
    let mut alien = Alien {
        x: 0,
        y: 0,
        vx: 0,
        vy: 0,
        shooting_type: ShootingType::Future,
        next_shot: 0,
        bullet: None,
    };
    alien.tick(16, 1_000, 200, (430_000, 0, 0, 600), 2_000_000, 1_000_000);
    let b = alien.get_bullet().expect("the alien fires");
    assert!(!b.is_player_shot);
    assert_eq!((b.x, b.y), (30_000, 0));
    assert_eq!((b.vx, b.vy), (800, 600));
    // Bullet and player meet 500 ms later.
    assert_eq!((b.x + b.vx * 500, b.y + b.vy * 500), (430_000, 300_000));
    assert_eq!((430_000, 0 + 600 * 500), (430_000, 300_000));
}

#[test]
fn skipped_shot_keeps_the_deadline() {
    // No intercept: the alien holds its deadline and retries next tick.
    let mut alien = Alien {
        x: 0,
        y: 0,
        vx: 0,
        vy: 0,
        shooting_type: ShootingType::Future,
        next_shot: 0,
        bullet: None,
    };
    alien.tick(16, 1_000, 200, (1_030_000, 0, 2_000, 0), 2_000_000, 1_000_000);
    assert!(alien.bullet.is_none());
    assert_eq!(alien.next_shot, 0);
}
