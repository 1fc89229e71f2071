//! Simulation core of a small arena survival game: a player steers through a
//! bounded arena while waves of enemies chase it, contacts cost health, and a
//! coarse clock counts the run.
//!
//! All quantities are integers. Positions are in thousandths of a pixel,
//! headings in thousandths of a unit vector, durations in milliseconds.
pub mod geometry;
pub mod movement;
pub mod contact;
pub mod random;
pub mod spawner;
pub mod clock;
pub mod projectile;
pub mod world;
