//! A positioned member of the crowd and the palette it is tinted from.

use crate::config::{CHAR_HEIGHT, CHAR_WIDTH, CLICK_OFFSET, PART_COUNT, variants};
use crate::random::random_below;
use vstd::prelude::*;

verus! {

/// The tints a character or a hint can be drawn with.
#[derive(Clone, Copy, Debug, PartialEq, Eq, Structural)]
pub enum Tint {
    Blue,
    Red,
    Orange,
    Green,
    Yellow,
}

/// Number of tints in the palette.
pub const TINT_COUNT: u32 = 5;

/// The tint at position `i` of the palette.
pub fn tint_at(i: u32) -> (r: Tint)
    requires
        i < TINT_COUNT,
    ensures
        i == 0 ==> r == Tint::Blue,
        i == 1 ==> r == Tint::Red,
        i == 2 ==> r == Tint::Orange,
        i == 3 ==> r == Tint::Green,
        i == 4 ==> r == Tint::Yellow,
{
    match i {
        0 => Tint::Blue,
        1 => Tint::Red,
        2 => Tint::Orange,
        3 => Tint::Green,
        _ => Tint::Yellow,
    }
}

/// A tint drawn uniformly from the palette.
pub fn rand_color() -> Tint {
    let i = random_below(0, TINT_COUNT);
    tint_at(i)
}

/// A trait tuple: one variant index per part category.
pub type Traits = [usize; PART_COUNT];

/// Whether every entry of `t` is a variant of its category.
pub open spec fn traits_in_range(t: Seq<usize>) -> bool {
    &&& t.len() == PART_COUNT
    &&& forall|i: int| 0 <= i < PART_COUNT ==> #[trigger] t[i] < variants(i)
}

/// A member of the crowd.
#[derive(Clone, Copy, Debug, PartialEq, Eq)]
pub struct Character {
    /// Left edge, in pixels.
    pub x: i32,
    /// Top edge, in pixels.
    pub y: i32,
    /// Variant chosen for each part category.
    pub traits: Traits,
    /// Tint of arms, body and legs.
    pub color: Tint,
    pub is_target: bool,
    /// Set once the spawn cadence has revealed the character.
    pub spawned: bool,
    /// Set once the character has been shot.
    pub dead: bool,
}

/// Whether point `(px, py)` lies in the hittable part of a box whose top
/// left corner is `(x, y)`: `[x, x + W] x [y + CLICK_OFFSET, y + H]`.
pub open spec fn box_hit(x: int, y: int, px: int, py: int) -> bool {
    &&& x <= px <= x + CHAR_WIDTH
    &&& y + CLICK_OFFSET <= py <= y + CHAR_HEIGHT
}

/// Whether two characters at `(ax, ay)` and `(bx, by)` are far enough apart
/// not to overlap: apart by a full width or by a full height.
pub open spec fn separated(ax: int, ay: int, bx: int, by: int) -> bool {
    ||| ax - bx >= CHAR_WIDTH
    ||| bx - ax >= CHAR_WIDTH
    ||| ay - by >= CHAR_HEIGHT
    ||| by - ay >= CHAR_HEIGHT
}

impl Character {
    /// A new character at `(x, y)` with trait tuple `traits`, a random tint,
    /// not the target, not spawned and alive.
    pub fn init(x: i32, y: i32, traits: Traits) -> (r: Character)
        ensures
            r.x == x,
            r.y == y,
            r.traits == traits,
            !r.is_target,
            !r.spawned,
            !r.dead,
    {
        Character { x, y, traits, color: rand_color(), is_target: false, spawned: false, dead: false }
    }

    /// Whether a click at `(px, py)` lands on this character's hittable box.
    pub fn hit_test(&self, px: i32, py: i32) -> (r: bool)
        ensures
            r == box_hit(self.x as int, self.y as int, px as int, py as int),
    {
        let x = self.x as i64;
        let y = self.y as i64;
        let px = px as i64;
        let py = py as i64;
        x <= px && px <= x + CHAR_WIDTH as i64 && y + CLICK_OFFSET as i64 <= py && py <= y
            + CHAR_HEIGHT as i64
    }

    /// Marks the character as revealed.
    pub fn mark_spawned(&mut self)
        ensures
            *final(self) == (Character { spawned: true, ..*old(self) }),
    {
        self.spawned = true;
    }

    /// Marks the character as shot.
    pub fn mark_dead(&mut self)
        ensures
            *final(self) == (Character { dead: true, ..*old(self) }),
    {
        self.dead = true;
    }
}

/// Whether `(x, y)` keeps its distance from every character in `crowd`.
pub fn position_clear(crowd: &Vec<Character>, x: i32, y: i32) -> (r: bool)
    ensures
        r == forall|j: int|
            0 <= j < crowd@.len() ==> separated(
                #[trigger] crowd@[j].x as int,
                crowd@[j].y as int,
                x as int,
                y as int,
            ),
{
    let mut j: usize = 0;
    while j < crowd.len()
        invariant
            j <= crowd@.len(),
            forall|k: int|
                0 <= k < j ==> separated(
                    #[trigger] crowd@[k].x as int,
                    crowd@[k].y as int,
                    x as int,
                    y as int,
                ),
        decreases crowd@.len() - j,
    {
        let c = &crowd[j];
        let dx = c.x as i64 - x as i64;
        let dy = c.y as i64 - y as i64;
        if dx < CHAR_WIDTH as i64 && -dx < CHAR_WIDTH as i64 && dy < CHAR_HEIGHT as i64 && -dy
            < CHAR_HEIGHT as i64 {
            return false;
        }
        j = j + 1;
    }
    true
}

} // verus!
