//! The orchestrator: alien spawning gates, key handling, life loss and the
//! death reset, and the high-score rules.

use asteroids::alien::{Alien, ShootingType};
use asteroids::asteroid::Asteroid;
use asteroids::game::{Game, GameState, Key};

const W: i64 = 2_000_000;
const H: i64 = 1_000_000;

#[test]
fn no_alien_spawns_at_score_zero() {
    assert!(Alien::new(0, W, H, 0).is_none());
    assert!(Alien::new(0, 10, 10, 0).is_none());
    assert!(Alien::new(0, 16_000_000, 16_000_000, 0).is_none());
    assert!(Alien::new(9, W, H, 0).is_none());
}

#[test]
fn first_alien_strategy_unlocks_at_ten_points() {
    let a = Alien::new(10, W, H, 500).expect("unlocked");
    assert!(matches!(a.shooting_type, ShootingType::Random));
    assert_eq!(a.next_shot, 1_500);
    assert!(a.bullet.is_none());
    assert!(a.x == 0 || a.x == W || a.y == 0 || a.y == H);
}

#[test]
fn alien_shot_cadence_scales_with_score() {
    let mut alien = Alien {
        x: 0,
        y: 0,
        vx: 0,
        vy: 0,
        shooting_type: ShootingType::Current,
        next_shot: 0,
        bullet: None,
    };
    alien.tick(16, 1_000, 100, (100_000, 0, 0, 0), W, H);
    assert!(alien.get_bullet().is_some());
    // 1000 / (100 points * 0.015 shots/s/point) = 666 ms.
    assert_eq!(alien.next_shot, 1_666);
}

#[test]
fn menu_fire_starts_the_game() {
    let mut g = Game::new(W, H, 0, 0);
    assert!(matches!(g.state, GameState::MainMenu));
    g.handle_key_event(Key::Left, true, 0);
    assert!(matches!(g.state, GameState::MainMenu));
    g.handle_key_event(Key::Fire, true, 0);
    assert!(matches!(g.state, GameState::InGame));
    assert_eq!((g.player.x, g.player.y), (W / 2, H / 2));
}

#[test]
fn fire_latch_gives_one_bullet_per_press() {
    let mut g = Game::new(W, H, 0, 0);
    g.state = GameState::InGame;
    g.handle_key_event(Key::Fire, true, 10);
    assert_eq!(g.bullets.len(), 1);
    // Held down: no second bullet.
    g.handle_key_event(Key::Fire, true, 20);
    assert_eq!(g.bullets.len(), 1);
    // Released and pressed again: one more.
    g.handle_key_event(Key::Fire, false, 30);
    g.handle_key_event(Key::Fire, true, 40);
    assert_eq!(g.bullets.len(), 2);
    assert!(g.bullets[0].is_player_shot);
}

#[test]
fn pause_blocks_input() {
    let mut g = Game::new(W, H, 0, 0);
    g.state = GameState::InGame;
    g.handle_key_event(Key::Pause, true, 0);
    assert!(g.paused);
    g.handle_key_event(Key::Fire, true, 10);
    assert_eq!(g.bullets.len(), 0);
    g.handle_key_event(Key::Pause, true, 20);
    assert!(!g.paused);
}

#[test]
fn overlapping_asteroid_costs_a_life_and_clears_the_field() {
    let mut g = Game::new(W, H, 0, 0);
    g.state = GameState::InGame;
    // Hold back the spawn scheduler so the scenario stays minimal.
    g.next_asteroid_spawn = u64::MAX;
    g.next_alien_spawn = u64::MAX;
    g.next_black_hole_spawn = u64::MAX;
    // The player rests at the centre; one asteroid sits right on top.
    g.asteroids.push(Asteroid::new(W / 2, H / 2, 60_000));
    let (lost, to_save) = g.tick_game(16, 100);
    assert!(lost);
    assert!(to_save.is_none());
    assert_eq!(g.lives, 2);
    assert_eq!(g.score, 0);
    assert_eq!((g.player.x, g.player.y), (W / 2, H / 2));
    assert_eq!((g.player.vx, g.player.vy), (0, 0));
    assert!(g.asteroids.is_empty());
    assert!(g.bullets.is_empty());
    assert!(g.particles.is_empty());
    assert!(g.aliens.is_empty());
    assert!(g.black_holes.is_empty());
}

#[test]
fn quiet_tick_loses_nothing() {
    let mut g = Game::new(W, H, 0, 0);
    g.state = GameState::InGame;
    g.next_asteroid_spawn = u64::MAX;
    g.next_alien_spawn = u64::MAX;
    g.next_black_hole_spawn = u64::MAX;
    let (lost, to_save) = g.tick_game(16, 100);
    assert!(!lost);
    assert!(to_save.is_none());
    assert_eq!(g.lives, 3);
    assert_eq!(g.score, 0);
}

#[test]
fn asteroids_spawn_when_due() {
    let mut g = Game::new(W, H, 0, 0);
    g.state = GameState::InGame;
    g.next_alien_spawn = u64::MAX;
    g.next_black_hole_spawn = u64::MAX;
    // The first deadline is 2000 ms in; an earlier tick spawns nothing.
    let _ = g.tick_game(16, 1_000);
    assert_eq!(g.asteroids.len(), 0);
    let _ = g.tick_game(16, 2_500);
    assert_eq!(g.asteroids.len(), 1);
}

#[test]
fn last_life_resets_and_saves_a_new_high_score() {
    let mut g = Game::new(W, H, 0, 0);
    g.lives = 1;
    g.score = 77;
    g.pb = 50;
    let to_save = g.die();
    assert_eq!(to_save, Some(77));
    assert_eq!(g.pb, 77);
    assert_eq!(g.score, 0);
    assert_eq!(g.lives, 3);
}

#[test]
fn last_life_without_a_record_saves_nothing() {
    let mut g = Game::new(W, H, 0, 0);
    g.lives = 1;
    g.score = 30;
    g.pb = 50;
    let to_save = g.die();
    assert_eq!(to_save, None);
    assert_eq!(g.pb, 50);
    assert_eq!(g.score, 0);
    assert_eq!(g.lives, 3);
}

#[test]
fn mid_game_death_keeps_score_and_high_score() {
    let mut g = Game::new(W, H, 0, 0);
    g.lives = 3;
    g.score = 120;
    g.pb = 50;
    let to_save = g.die();
    assert_eq!(to_save, None);
    assert_eq!(g.score, 120);
    assert_eq!(g.pb, 50);
    assert_eq!(g.lives, 2);
}

fn quiet_game() -> Game {
    let mut g = Game::new(W, H, 0, 0);
    g.state = GameState::InGame;
    g.next_asteroid_spawn = u64::MAX;
    g.next_alien_spawn = u64::MAX;
    g.next_black_hole_spawn = u64::MAX;
    g
}

#[test]
fn alien_bullet_inside_the_ship_costs_a_life() {
    let mut g = quiet_game();
    // A point inside the ship's dart, just above the tail notch.
    g.bullets.push(asteroids::bullet::Bullet::new(W / 2, H / 2 - 10_000, 0, false, 100));
    let (lost, _) = g.tick_game(16, 100);
    assert!(lost);
    assert_eq!(g.lives, 2);
    assert!(g.bullets.is_empty());
}

#[test]
fn own_bullets_do_not_hurt_the_player() {
    let mut g = quiet_game();
    g.bullets.push(asteroids::bullet::Bullet::new(W / 2, H / 2 - 10_000, 0, true, 100));
    let (lost, _) = g.tick_game(16, 100);
    assert!(!lost);
    assert_eq!(g.lives, 3);
}

#[test]
fn shot_asteroid_scores_and_splits() {
    let mut g = quiet_game();
    let ax = W / 2 + 500_000;
    let ay = H / 2;
    g.asteroids.push(Asteroid::new(ax, ay, 60_000));
    // A player bullet sitting right inside the rock.
    g.bullets.push(asteroids::bullet::Bullet::new(ax, ay, 0, true, 100));
    let (lost, _) = g.tick_game(16, 100);
    assert!(!lost);
    // 1_000_000 points per mu of radius: 60_000 mu earns 16.
    assert_eq!(g.score, 16);
    assert_eq!(g.asteroids.len(), 2);
    for c in g.asteroids.iter() {
        assert_eq!(c.radius, 30_000);
    }
    // The explosion left particles behind and the bullet is spent.
    assert!(g.particles.len() >= 10);
    assert_eq!(g.bullets.len(), 1);
    assert!(g.bullets[0].to_die);
}

#[test]
fn crossing_the_life_threshold_awards_a_life() {
    let mut g = quiet_game();
    g.score = 490;
    let ax = W / 2 + 500_000;
    g.asteroids.push(Asteroid::new(ax, H / 2, 60_000));
    g.bullets.push(asteroids::bullet::Bullet::new(ax, H / 2, 0, true, 100));
    let (lost, _) = g.tick_game(16, 100);
    assert!(!lost);
    assert_eq!(g.score, 506);
    assert_eq!(g.lives, 4);
    assert_eq!(g.next_life_points, 1000);
}

#[test]
fn shot_alien_scores_its_strategy() {
    let mut g = quiet_game();
    let ax = W / 2 + 500_000;
    g.aliens.push(Alien {
        x: ax,
        y: H / 2,
        vx: 0,
        vy: 0,
        shooting_type: ShootingType::Random,
        next_shot: u64::MAX,
        bullet: None,
    });
    g.bullets.push(asteroids::bullet::Bullet::new(ax, H / 2, 0, true, 100));
    let (lost, _) = g.tick_game(16, 100);
    assert!(!lost);
    assert_eq!(g.score, 10);
    assert!(g.aliens.is_empty());
    assert!(g.particles.len() >= 10);
}

#[test]
fn spawn_deadlines_come_from_the_tier_tables() {
    assert_eq!(Game::get_next_asteroid_spawn(0, 1_000), 3_000);
    assert_eq!(Game::get_next_asteroid_spawn(400, 1_000), 1_600);
    assert_eq!(Game::get_next_alien_spawn(0, 1_000), u64::MAX);
    assert_eq!(Game::get_next_alien_spawn(300, 1_000), 4_000);
    assert_eq!(Game::get_next_black_hole_spawn(600, 1_000), 11_000);
}
