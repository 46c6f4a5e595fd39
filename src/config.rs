//! Fixed tunables of the game and the trait space of a character.

use vstd::prelude::*;

verus! {

/// Width of the virtual screen, in pixels.
pub const GAME_WIDTH: i32 = 1280;

/// Height of the virtual screen, in pixels.
pub const GAME_HEIGHT: i32 = 720;

/// Width of a character's footprint, for separation and hit tests.
pub const CHAR_WIDTH: i32 = 120;

/// Height of a character's footprint, for separation and hit tests.
pub const CHAR_HEIGHT: i32 = 120;

/// Top band of a character's box that a click does not hit.
pub const CLICK_OFFSET: i32 = 20;

/// Width of the ground the round is played on.
pub const GROUND_WIDTH: i32 = 867;

/// Height of the ground the round is played on.
pub const GROUND_HEIGHT: i32 = 564;

/// Length of a round, in milliseconds.
pub const LEVEL_TIME_MS: i64 = 10000;

/// Delay between two spawns, in milliseconds.
pub const SPAWN_DELAY_MS: i64 = 200;

/// Longest delay before the first spawn of a round, in milliseconds.
pub const FIRST_SPAWN_MAX_MS: i64 = 1000;

/// Shortest delay before the first spawn of a round, in milliseconds.
pub const FIRST_SPAWN_MIN_MS: i64 = 100;

/// Freeze after a target was shot, in milliseconds.
pub const SUCCESS_TRANSITION_MS: i64 = 500;

/// Freeze after a lost round, in milliseconds.
pub const FAILURE_TRANSITION_MS: i64 = 3000;

/// Number of part categories of a character: arms, body, face, hat, legs.
pub const PART_COUNT: usize = 5;

/// Number of hint traits that single out the target.
pub const HINT_COUNT: usize = 3;

pub const ARMS: usize = 0;
pub const BODY: usize = 1;
pub const FACE: usize = 2;
pub const HAT: usize = 3;
pub const LEGS: usize = 4;

pub const ARMS_COUNT: usize = 9;
pub const BODY_COUNT: usize = 10;
pub const FACE_COUNT: usize = 13;
pub const HAT_COUNT: usize = 10;
pub const LEGS_COUNT: usize = 5;

/// Number of variants of part category `part`.
pub open spec fn variants(part: int) -> nat {
    if part == ARMS {
        ARMS_COUNT as nat
    } else if part == BODY {
        BODY_COUNT as nat
    } else if part == FACE {
        FACE_COUNT as nat
    } else if part == HAT {
        HAT_COUNT as nat
    } else if part == LEGS {
        LEGS_COUNT as nat
    } else {
        0
    }
}

/// Number of variants of part category `part`.
pub fn variant_count(part: usize) -> (r: usize)
    requires
        part < PART_COUNT,
    ensures
        r == variants(part as int),
        2 <= r <= 13,
{
    match part {
        0 => ARMS_COUNT,
        1 => BODY_COUNT,
        2 => FACE_COUNT,
        3 => HAT_COUNT,
        _ => LEGS_COUNT,
    }
}

/// Display name of part category `part`.
pub fn part_name(part: usize) -> (r: &'static str)
    requires
        part < PART_COUNT,
    ensures
        part == ARMS ==> r@ == "Arms"@,
        part == BODY ==> r@ == "Body"@,
        part == FACE ==> r@ == "Face"@,
        part == HAT ==> r@ == "Hat"@,
        part == LEGS ==> r@ == "Legs"@,
{
    match part {
        0 => "Arms",
        1 => "Body",
        2 => "Face",
        3 => "Hat",
        _ => "Legs",
    }
}

} // verus!
