//! Score-gated spawn scheduler: each hazard type has a table of
//! (score threshold, delay) tiers; the active delay is the smallest delay
//! among the tiers the current score has reached.

use vstd::prelude::*;
use crate::constants::{MAX_NOW, BLACK_HOLE_MIN_POINTS};

verus! {

/// Deadline sentinel: spawning is disabled until the table is consulted again.
pub const NEVER: u64 = 0xFFFF_FFFF_FFFF_FFFF;

/// Largest delay a tier may carry, so that `now + delay` cannot overflow.
pub const MAX_DELAY: u64 = 1_000_000_000;

pub open spec fn tiers_ok(tiers: Seq<(u64, u64)>) -> bool {
    forall|i: int| 0 <= i < tiers.len() ==> (#[trigger] tiers[i]).1 <= MAX_DELAY
}

/// The smallest delay among the tiers whose threshold `score` meets or
/// exceeds; `None` when no tier qualifies.
pub open spec fn min_delay(tiers: Seq<(u64, u64)>, score: u64) -> Option<u64>
    decreases tiers.len(),
{
    if tiers.len() == 0 {
        None
    } else {
        let rest = min_delay(tiers.drop_last(), score);
        let t = tiers.last();
        if t.0 <= score {
            match rest {
                Option::None => Option::Some(t.1),
                Option::Some(d) => Option::Some(if d <= t.1 { d } else { t.1 }),
            }
        } else {
            rest
        }
    }
}

pub fn delay_for_score(tiers: &Vec<(u64, u64)>, score: u64) -> (r: Option<u64>)
    ensures
        r == min_delay(tiers@, score),
{
    let n = tiers.len();
    let mut cur: Option<u64> = None;
    let mut i: usize = 0;
    proof {
        assert(tiers@.subrange(0, 0) =~= Seq::<(u64, u64)>::empty());
    }
    while i < n
        invariant
            n == tiers@.len(),
            0 <= i <= n,
            cur == min_delay(tiers@.subrange(0, i as int), score),
        decreases n - i,
    {
        let t = tiers[i];
        proof {
            assert(tiers@.subrange(0, i + 1).drop_last() =~= tiers@.subrange(0, i as int));
            assert(tiers@.subrange(0, i + 1).last() == tiers@[i as int]);
        }
        if t.0 <= score {
            cur = match cur {
                None => Some(t.1),
                Some(d) => Some(if d <= t.1 { d } else { t.1 }),
            };
        }
        i += 1;
    }
    proof {
        assert(tiers@.subrange(0, n as int) =~= tiers@);
    }
    cur
}

/// The moment the next spawn of this hazard becomes due: `now` plus the
/// active delay, or `NEVER` while no tier qualifies.
pub open spec fn next_due(tiers: Seq<(u64, u64)>, score: u64, now: u64) -> int {
    match min_delay(tiers, score) {
        Option::None => NEVER as int,
        Option::Some(d) => now + d,
    }
}

pub fn next_spawn_time(tiers: &Vec<(u64, u64)>, score: u64, now: u64) -> (r: u64)
    requires
        now <= MAX_NOW,
        tiers_ok(tiers@),
    ensures
        r == next_due(tiers@, score, now),
{
    proof {
        lemma_min_delay_in_table(tiers@, score);
    }
    match delay_for_score(tiers, score) {
        None => NEVER,
        Some(d) => now + d,
    }
}

/// A qualifying delay always comes from some tier of the table.
proof fn lemma_min_delay_in_table(tiers: Seq<(u64, u64)>, score: u64)
    ensures
        match min_delay(tiers, score) {
            Option::None => true,
            Option::Some(d) => exists|i: int| 0 <= i < tiers.len() && (#[trigger] tiers[i]).1 == d,
        },
    decreases tiers.len(),
{
    if tiers.len() > 0 {
        lemma_min_delay_in_table(tiers.drop_last(), score);
        match min_delay(tiers.drop_last(), score) {
            Option::None => {
                if tiers.last().0 <= score {
                    assert(tiers[tiers.len() - 1].1 == tiers.last().1);
                }
            },
            Option::Some(d) => {
                let i = choose|i: int|
                    0 <= i < tiers.drop_last().len() && (#[trigger] tiers.drop_last()[i]).1 == d;
                assert(tiers[i].1 == d);
                if tiers.last().0 <= score && tiers.last().1 < d {
                    assert(tiers[tiers.len() - 1].1 == tiers.last().1);
                }
            },
        }
    }
}

/// Raising the score never slows a hazard down: every tier that qualified
/// still qualifies, so the active delay can only shrink.
pub proof fn lemma_min_delay_monotone(tiers: Seq<(u64, u64)>, s1: u64, s2: u64)
    requires
        s1 <= s2,
    ensures
        match (min_delay(tiers, s1), min_delay(tiers, s2)) {
            (Option::Some(d1), Option::Some(d2)) => d2 <= d1,
            (Option::Some(d1), Option::None) => false,
            _ => true,
        },
    decreases tiers.len(),
{
    if tiers.len() > 0 {
        lemma_min_delay_monotone(tiers.drop_last(), s1, s2);
    }
}

/// The same, stated of the deadline a spawn is given: a higher score never
/// pushes the next spawn further out.
pub proof fn lemma_next_due_monotone(tiers: Seq<(u64, u64)>, s1: u64, s2: u64, now: u64)
    requires
        s1 <= s2,
        now + MAX_DELAY <= NEVER,
        tiers_ok(tiers),
    ensures
        next_due(tiers, s2, now) <= next_due(tiers, s1, now),
{
    lemma_min_delay_monotone(tiers, s1, s2);
    lemma_min_delay_in_table(tiers, s1);
    lemma_min_delay_in_table(tiers, s2);
}

/// The asteroid table: a tier at score zero, so asteroids flow from the
/// first frame, speeding up with score.
pub open spec fn asteroid_tiers() -> Seq<(u64, u64)> {
    seq![(0u64, 2000u64), (50u64, 1500u64), (150u64, 1000u64), (400u64, 600u64)]
}

/// The alien table: no tier qualifies below the first strategy unlock.
pub open spec fn alien_tiers() -> Seq<(u64, u64)> {
    seq![(10u64, 8000u64), (100u64, 5000u64), (300u64, 3000u64)]
}

/// The gravity-well table; wells are further gated by a minimum score.
pub open spec fn black_hole_tiers() -> Seq<(u64, u64)> {
    seq![(BLACK_HOLE_MIN_POINTS, 15000u64), (500u64, 10000u64)]
}

pub fn asteroid_spawn_tiers() -> (r: Vec<(u64, u64)>)
    ensures
        r@ == asteroid_tiers(),
        tiers_ok(r@),
{
    let mut v: Vec<(u64, u64)> = Vec::new();
    v.push((0, 2000));
    v.push((50, 1500));
    v.push((150, 1000));
    v.push((400, 600));
    proof {
        assert(v@ =~= asteroid_tiers());
    }
    v
}

pub fn alien_spawn_tiers() -> (r: Vec<(u64, u64)>)
    ensures
        r@ == alien_tiers(),
        tiers_ok(r@),
{
    let mut v: Vec<(u64, u64)> = Vec::new();
    v.push((10, 8000));
    v.push((100, 5000));
    v.push((300, 3000));
    proof {
        assert(v@ =~= alien_tiers());
    }
    v
}

pub fn black_hole_spawn_tiers() -> (r: Vec<(u64, u64)>)
    ensures
        r@ == black_hole_tiers(),
        tiers_ok(r@),
{
    let mut v: Vec<(u64, u64)> = Vec::new();
    v.push((BLACK_HOLE_MIN_POINTS, 15000));
    v.push((500, 10000));
    proof {
        assert(v@ =~= black_hole_tiers());
    }
    v
}

} // verus!
