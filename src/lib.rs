//! Round engine of a find-the-target-in-a-crowd game.
//!
//! Time is counted in whole milliseconds, positions in whole pixels of the
//! 1280x720 virtual screen and score in thousandths of a point, so every rule
//! of the game is exact integer arithmetic.

pub mod config;
pub mod random;
pub mod character;
pub mod level;
pub mod scoring;
pub mod game;
pub mod record;
