//! The spawn scheduler: tier lookup, the disabled sentinel, and the
//! non-increasing delay as score grows.

use asteroids::sched::{
    alien_spawn_tiers, asteroid_spawn_tiers, black_hole_spawn_tiers, delay_for_score,
    next_spawn_time, NEVER,
};

#[test]
fn asteroid_delays_by_score() {
    let tiers = asteroid_spawn_tiers();
    assert_eq!(delay_for_score(&tiers, 0), Some(2000));
    assert_eq!(delay_for_score(&tiers, 49), Some(2000));
    assert_eq!(delay_for_score(&tiers, 50), Some(1500));
    assert_eq!(delay_for_score(&tiers, 200), Some(1000));
    assert_eq!(delay_for_score(&tiers, 1_000_000), Some(600));
}

#[test]
fn alien_spawning_disabled_below_first_tier() {
    let tiers = alien_spawn_tiers();
    assert_eq!(delay_for_score(&tiers, 0), None);
    assert_eq!(delay_for_score(&tiers, 9), None);
    assert_eq!(delay_for_score(&tiers, 10), Some(8000));
    assert_eq!(next_spawn_time(&tiers, 0, 12345), NEVER);
    assert_eq!(next_spawn_time(&tiers, 10, 12345), 12345 + 8000);
}

#[test]
fn black_hole_delays() {
    let tiers = black_hole_spawn_tiers();
    assert_eq!(delay_for_score(&tiers, 199), None);
    assert_eq!(delay_for_score(&tiers, 200), Some(15000));
    assert_eq!(delay_for_score(&tiers, 500), Some(10000));
}

#[test]
fn delay_never_increases_with_score() {
    let tiers = asteroid_spawn_tiers();
    let mut last = u64::MAX;
    for score in 0..600u64 {
        let d = delay_for_score(&tiers, score).unwrap();
        assert!(d <= last, "delay grew at score {}", score);
        last = d;
    }
    let aliens = alien_spawn_tiers();
    let mut last = u64::MAX;
    for score in 0..400u64 {
        if let Some(d) = delay_for_score(&aliens, score) {
            assert!(d <= last);
            last = d;
        } else {
            // No tier qualifies yet; once one does it never un-qualifies.
            assert_eq!(last, u64::MAX);
        }
    }
}

#[test]
fn unordered_table_still_takes_the_minimum() {
    // The active delay is the minimum among qualifying tiers, whatever the
    // order of the table.
    let tiers: Vec<(u64, u64)> = vec![(100, 300), (0, 1000), (50, 2000)];
    assert_eq!(delay_for_score(&tiers, 0), Some(1000));
    assert_eq!(delay_for_score(&tiers, 50), Some(1000));
    assert_eq!(delay_for_score(&tiers, 100), Some(300));
}
