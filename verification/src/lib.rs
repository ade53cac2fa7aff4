//! Simulation core of a wrap-around 2D arcade shooter.
//!
//! The world lives on a toroidal playfield: positions wrap at the edges and
//! every collision test considers nine translated copies of each hitbox.
//! All coordinates are integers in milliunits (one thousandth of a screen
//! unit), velocities in milliunits per millisecond, times in milliseconds,
//! and angles in units of 1/3600 of a full turn, so that every rule of the
//! simulation is exact integer arithmetic.

pub mod constants;
pub mod game;
pub mod geom;
pub mod mathx;
pub mod trig;
pub mod alien;
pub mod black_hole;
pub mod asteroid;
pub mod bullet;
pub mod particle;
pub mod player;
pub mod rng;
pub mod sched;
pub mod score;
pub mod targeting;
pub mod wrap;
