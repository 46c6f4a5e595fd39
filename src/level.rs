//! A round: the crowd, the hints that single out its target, and the clock.

use crate::character::{
    separated, box_hit, position_clear, rand_color, traits_in_range, Character, Tint, Traits,
};
use crate::config::{
    FIRST_SPAWN_MAX_MS, LEVEL_TIME_MS, SPAWN_DELAY_MS, ARMS, BODY, FACE, HAT, LEGS, ARMS_COUNT, BODY_COUNT, FACE_COUNT, HAT_COUNT, HINT_COUNT, LEGS_COUNT, PART_COUNT, variants,
};
use crate::random::{random_below, shuffle_in_place};
use vstd::prelude::*;

verus! {

broadcast use vstd::seq_lib::group_to_multiset_ensures;

/// Number of positions tried for one character before the last one is kept.
pub const POSITION_TRIES: u32 = 1000;

/// Number of trait tuples tried for one character before giving up.
pub const TRAIT_TRIES: u32 = 10000;

/// The trait space cannot give a character that differs from the target on
/// a hint trait: the variant counts are too small.
#[derive(Clone, Copy, Debug, PartialEq, Eq, Structural)]
pub enum ConfigError {
    TraitsExhausted,
}

/// Whether `a` and `b` agree on every part category listed in `parts`.
pub open spec fn agree_on(parts: Seq<usize>, a: Seq<usize>, b: Seq<usize>) -> bool {
    forall|k: int| 0 <= k < parts.len() ==> a[#[trigger] parts[k] as int] == b[parts[k] as int]
}

/// Three distinct part categories in ascending order.
pub open spec fn hints_valid(parts: Seq<usize>) -> bool {
    &&& parts.len() == HINT_COUNT
    &&& forall|k: int| 0 <= k < parts.len() ==> #[trigger] parts[k] < PART_COUNT
    &&& forall|a: int, b: int| 0 <= a < b < parts.len() ==> parts[a] < parts[b]
}

/// Exactly one member of `crowd` is the target.
pub open spec fn exactly_one_target(crowd: Seq<Character>) -> bool {
    &&& exists|i: int| 0 <= i < crowd.len() && #[trigger] crowd[i].is_target
    &&& forall|i: int, j: int|
        0 <= i < crowd.len() && 0 <= j < crowd.len() && #[trigger] crowd[i].is_target
            && #[trigger] crowd[j].is_target ==> i == j
}

/// Whether two members keep their distance: apart by a full width or by a
/// full height.
pub open spec fn apart(a: Character, b: Character) -> bool {
    separated(a.x as int, a.y as int, b.x as int, b.y as int)
}

/// Every two members of `crowd` keep their distance.
pub open spec fn crowd_apart(crowd: Seq<Character>) -> bool {
    forall|i: int, j: int| 0 <= i < j < crowd.len() ==> apart(#[trigger] crowd[i], #[trigger] crowd[j])
}

/// Whether `c` lies in the bounding box `[x_min, x_max) x [y_min, y_max)`.
pub open spec fn in_box(c: Character, x_min: int, x_max: int, y_min: int, y_max: int) -> bool {
    x_min <= c.x < x_max && y_min <= c.y < y_max
}

/// Whether `[x_min, x_max) x [y_min, y_max)` is a box characters can be
/// placed in: nonempty, not negative, and within the random draw bound.
pub open spec fn box_valid(x_min: i32, x_max: i32, y_min: i32, y_max: i32) -> bool {
    &&& 0 <= x_min < x_max <= crate::random::RANDOM_BOUND
    &&& 0 <= y_min < y_max <= crate::random::RANDOM_BOUND
}

/// Whether `a` and `b` agree on every part category listed in `parts`.
pub fn equal_on(parts: &Vec<usize>, a: &Traits, b: &Traits) -> (r: bool)
    requires
        forall|k: int| 0 <= k < parts@.len() ==> #[trigger] parts@[k] < PART_COUNT,
    ensures
        r == agree_on(parts@, a@, b@),
{
    let mut k: usize = 0;
    while k < parts.len()
        invariant
            k <= parts@.len(),
            forall|k: int| 0 <= k < parts@.len() ==> #[trigger] parts@[k] < PART_COUNT,
            forall|m: int| 0 <= m < k ==> a@[#[trigger] parts@[m] as int] == b@[parts@[m] as int],
        decreases parts@.len() - k,
    {
        let p = parts[k];
        if a[p] != b[p] {
            return false;
        }
        k = k + 1;
    }
    true
}

/// A trait tuple drawn uniformly from the trait space.
pub fn sample_trait_tuple() -> (r: Traits)
    ensures
        traits_in_range(r@),
{
    let r = [
        random_below(0, ARMS_COUNT as u32) as usize,
        random_below(0, BODY_COUNT as u32) as usize,
        random_below(0, FACE_COUNT as u32) as usize,
        random_below(0, HAT_COUNT as u32) as usize,
        random_below(0, LEGS_COUNT as u32) as usize,
    ];
    assert(forall|i: int| 0 <= i < PART_COUNT ==> #[trigger] r@[i] < variants(i));
    r
}

/// What the rejection sampler does with a drawn tuple.
#[derive(Clone, Copy, Debug, PartialEq, Eq, Structural)]
pub enum Verdict {
    /// The tuple differs from the target on a hint part: keep it.
    Accept,
    /// The tuple agrees with the target on every hint part: draw again.
    Retry,
    /// The tuple agrees with the target and it was the last draw allowed.
    GiveUp,
}

/// Judges draw number `tries` (counting from 0) of the rejection sampler:
/// a tuple `t` that differs from `target` on one of `parts` is accepted;
/// one that agrees on all of them is retried, unless it was draw number
/// `TRAIT_TRIES - 1`, after which the sampler gives up.
pub fn judge_draw(t: &Traits, target: &Traits, parts: &Vec<usize>, tries: u32) -> (r: Verdict)
    requires
        hints_valid(parts@),
        tries < TRAIT_TRIES,
    ensures
        r == if !agree_on(parts@, t@, target@) {
            Verdict::Accept
        } else if tries + 1 >= TRAIT_TRIES {
            Verdict::GiveUp
        } else {
            Verdict::Retry
        },
{
    if !equal_on(parts, t, target) {
        Verdict::Accept
    } else if tries + 1 >= TRAIT_TRIES {
        Verdict::GiveUp
    } else {
        Verdict::Retry
    }
}

/// A trait tuple that differs from `target` on at least one of `parts`,
/// drawn by rejection; each draw is judged by `judge_draw`, and the result
/// is `Err` when it says to give up.
pub fn sample_distinct_traits(target: &Traits, parts: &Vec<usize>) -> (r: Result<
    Traits,
    ConfigError,
>)
    requires
        hints_valid(parts@),
    ensures
        r matches Ok(t) ==> traits_in_range(t@) && !agree_on(parts@, t@, target@),
{
    let mut tries: u32 = 0;
    while tries < TRAIT_TRIES
        invariant
            hints_valid(parts@),
        decreases TRAIT_TRIES - tries,
    {
        let t = sample_trait_tuple();
        match judge_draw(&t, target, parts, tries) {
            Verdict::Accept => {
                return Ok(t);
            },
            Verdict::GiveUp => {
                return Err(ConfigError::TraitsExhausted);
            },
            Verdict::Retry => {
                tries = tries + 1;
            },
        }
    }
    Err(ConfigError::TraitsExhausted)
}

/// A position in `[x_min, x_max) x [y_min, y_max)` drawn uniformly until it
/// keeps its distance from all of `crowd`; after `POSITION_TRIES` draws the
/// last one is kept. The flag tells whether the position kept its distance.
pub fn sample_position(crowd: &Vec<Character>, x_min: i32, x_max: i32, y_min: i32, y_max: i32) -> (r:
    (i32, i32, bool))
    requires
        box_valid(x_min, x_max, y_min, y_max),
    ensures
        x_min <= r.0 < x_max,
        y_min <= r.1 < y_max,
        r.2 == forall|j: int|
            0 <= j < crowd@.len() ==> separated(
                #[trigger] crowd@[j].x as int,
                crowd@[j].y as int,
                r.0 as int,
                r.1 as int,
            ),
{
    let mut x = random_below(x_min as u32, x_max as u32) as i32;
    let mut y = random_below(y_min as u32, y_max as u32) as i32;
    let mut tries: u32 = 1;
    let mut clear = position_clear(crowd, x, y);
    while !clear && tries < POSITION_TRIES
        invariant
            box_valid(x_min, x_max, y_min, y_max),
            x_min <= x < x_max,
            y_min <= y < y_max,
            tries <= POSITION_TRIES,
            clear == forall|j: int|
                0 <= j < crowd@.len() ==> separated(
                    #[trigger] crowd@[j].x as int,
                    crowd@[j].y as int,
                    x as int,
                    y as int,
                ),
        decreases POSITION_TRIES - tries,
    {
        x = random_below(x_min as u32, x_max as u32) as i32;
        y = random_below(y_min as u32, y_max as u32) as i32;
        tries = tries + 1;
        clear = position_clear(crowd, x, y);
    }
    (x, y, clear)
}

/// `a`, `b`, `c` in ascending order.
pub fn sort_three(a: usize, b: usize, c: usize) -> (r: Vec<usize>)
    ensures
        r@.len() == 3,
        r@[0] <= r@[1] <= r@[2],
        forall|k: int| 0 <= k < 3 ==> #[trigger] r@[k] == a || r@[k] == b || r@[k] == c,
        r@.contains(a),
        r@.contains(b),
        r@.contains(c),
{
    let (lo, hi) = if a <= b {
        (a, b)
    } else {
        (b, a)
    };
    let r = if c <= lo {
        vec![c, lo, hi]
    } else if c <= hi {
        vec![lo, c, hi]
    } else {
        vec![lo, hi, c]
    };
    assert(r@[0] == a || r@[1] == a || r@[2] == a);
    assert(r@[0] == b || r@[1] == b || r@[2] == b);
    assert(r@[0] == c || r@[1] == c || r@[2] == c);
    r
}

/// Three distinct part categories drawn at random, in ascending order: the
/// first three of a shuffle of all categories, sorted.
pub fn pick_hint_parts() -> (r: Vec<usize>)
    ensures
        hints_valid(r@),
{
    let mut all: Vec<usize> = vec![ARMS, BODY, FACE, HAT, LEGS];
    let ghost before = all@;
    shuffle_in_place(&mut all);
    proof {
        assert(before.no_duplicates());
        assert(before.len() == 5);
        assert(all@.to_multiset().len() == before.to_multiset().len());
        assert(all@.len() == 5);
        before.lemma_multiset_has_no_duplicates();
        all@.lemma_multiset_has_no_duplicates_conv();
        assert forall|k: int| 0 <= k < all@.len() implies #[trigger] all@[k] < PART_COUNT by {
            assert(all@.to_multiset().count(all@[k]) > 0);
            assert(before.contains(all@[k]));
        }
    }
    let r = sort_three(all[0], all[1], all[2]);
    proof {
        assert(all@[0] != all@[1] && all@[1] != all@[2] && all@[0] != all@[2]);
    }
    r
}

/// Two distinct places of `s` that hold `x` make `x` occur twice.
pub proof fn lemma_two_places_count<A>(s: Seq<A>, i: int, j: int)
    requires
        0 <= i < s.len(),
        0 <= j < s.len(),
        i != j,
        s[i] == s[j],
    ensures
        s.to_multiset().count(s[i]) >= 2,
{
    broadcast use vstd::multiset::group_multiset_axioms;

    let rest = s.remove(i);
    let k = if j < i {
        j
    } else {
        j - 1
    };
    assert(s.contains(s[i]));
    assert(rest.len() == s.len() - 1);
    assert(rest[k] == s[j]);
    assert(rest.contains(s[i]));
    assert(rest.to_multiset() =~= s.to_multiset().remove(s[i]));
    assert(rest.to_multiset().count(s[i]) > 0);
}

/// An element that occurs twice in `s` stands in two distinct places.
pub proof fn lemma_count_two_places<A>(s: Seq<A>, x: A) -> (r: (int, int))
    requires
        s.to_multiset().count(x) >= 2,
    ensures
        0 <= r.0 < s.len(),
        0 <= r.1 < s.len(),
        r.0 != r.1,
        s[r.0] == x,
        s[r.1] == x,
{
    broadcast use vstd::multiset::group_multiset_axioms;

    assert(s.contains(x));
    let i = choose|i: int| 0 <= i < s.len() && s[i] == x;
    let rest = s.remove(i);
    assert(rest.len() == s.len() - 1);
    assert(rest.to_multiset() =~= s.to_multiset().remove(x));
    assert(rest.to_multiset().count(x) > 0);
    assert(rest.contains(x));
    let k = choose|k: int| 0 <= k < rest.len() && rest[k] == x;
    let j = if k < i {
        k
    } else {
        k + 1
    };
    (i, j)
}

/// What a generated crowd satisfies against its hint parts and target
/// tuple: one target, which carries the target tuple; every other member
/// differs from it on at least one hint part; every tuple is in range.
pub open spec fn crowd_valid(crowd: Seq<Character>, parts: Seq<usize>, target: Seq<usize>) -> bool {
    &&& exactly_one_target(crowd)
    &&& forall|i: int| 0 <= i < crowd.len() && #[trigger] crowd[i].is_target ==> crowd[i].traits@ == target
    &&& forall|i: int|
        0 <= i < crowd.len() && !(#[trigger] crowd[i].is_target) ==> !agree_on(
            parts,
            crowd[i].traits@,
            target,
        )
    &&& forall|i: int| 0 <= i < crowd.len() ==> traits_in_range(#[trigger] crowd[i].traits@)
}

/// Reordering a valid crowd keeps it valid.
pub proof fn lemma_reorder_keeps_crowd_valid(
    before: Seq<Character>,
    after: Seq<Character>,
    parts: Seq<usize>,
    target: Seq<usize>,
)
    requires
        crowd_valid(before, parts, target),
        after.to_multiset() == before.to_multiset(),
    ensures
        crowd_valid(after, parts, target),
{
    assert forall|i: int| 0 <= i < after.len() implies exists|k: int|
        0 <= k < before.len() && before[k] == #[trigger] after[i] by {
        assert(after.to_multiset().count(after[i]) > 0);
        assert(before.contains(after[i]));
    }
    let t = choose|t: int| 0 <= t < before.len() && #[trigger] before[t].is_target;
    assert(after.to_multiset().count(before[t]) > 0);
    assert(after.contains(before[t]));
    assert forall|i: int, j: int|
        0 <= i < after.len() && 0 <= j < after.len() && #[trigger] after[i].is_target
            && #[trigger] after[j].is_target implies i == j by {
        if i != j {
            let ki = choose|k: int| 0 <= k < before.len() && before[k] == after[i];
            let kj = choose|k: int| 0 <= k < before.len() && before[k] == after[j];
            assert(ki == t && kj == t);
            lemma_two_places_count(after, i, j);
            let (a, b) = lemma_count_two_places(before, after[i]);
            assert(before[a].is_target && before[b].is_target);
        }
    }
    assert forall|i: int| 0 <= i < after.len() implies traits_in_range(#[trigger] after[i].traits@)
        && (after[i].is_target ==> after[i].traits@ == target) && (!after[i].is_target
        ==> !agree_on(parts, after[i].traits@, target)) by {
        let k = choose|k: int| 0 <= k < before.len() && before[k] == after[i];
        assert(traits_in_range(before[k].traits@));
        assert(before[k].is_target ==> before[k].traits@ == target);
        assert(!before[k].is_target ==> !agree_on(parts, before[k].traits@, target));
    }
}

/// Colour band of the time bar.
#[derive(Clone, Copy, Debug, PartialEq, Eq, Structural)]
pub enum Band {
    Red,
    Yellow,
    Green,
}

/// One hint: a part category and the target's variant of it.
#[derive(Clone, Copy, Debug, PartialEq, Eq, Structural)]
pub struct Hint {
    pub part: usize,
    pub variant: usize,
    /// Drawn in the hint tint; face and hat are drawn untinted.
    pub tinted: bool,
    /// Nothing to draw: the target wears no hat.
    pub blank: bool,
}

/// What a click resolves to.
#[derive(Clone, Copy, Debug, PartialEq, Eq, Structural)]
pub enum HitOutcome {
    /// Nothing was shot: the timer was off, or no spawned member was under the click.
    NoHit,
    /// A member other than the target was shot.
    WrongHit,
    /// The target was shot.
    TargetHit,
}

/// Whether a click at `(px, py)` can hit `c`: it has spawned and the click
/// lies in its hittable box.
pub open spec fn hittable(c: Character, px: int, py: int) -> bool {
    c.spawned && box_hit(c.x as int, c.y as int, px, py)
}

/// Whether `i` is the first member of `crowd`, in draw order, that a click
/// at `(px, py)` can hit.
pub open spec fn first_hit(crowd: Seq<Character>, px: int, py: int, i: int) -> bool {
    &&& 0 <= i < crowd.len()
    &&& hittable(crowd[i], px, py)
    &&& forall|j: int| 0 <= j < i ==> !hittable(#[trigger] crowd[j], px, py)
}

/// `post` is `pre` with, at most, another crowd and another clock.
pub open spec fn same_round(pre: Level, post: Level) -> bool {
    &&& post.crowd@.len() == pre.crowd@.len()
    &&& post.target_traits == pre.target_traits
    &&& post.unique_traits_indices@ == pre.unique_traits_indices@
    &&& post.hints_color == pre.hints_color
}

/// One frame of `dt` milliseconds of the spawn cadence takes `pre` to
/// `post`; `spawned` tells whether a member spawned.
pub open spec fn spawn_step(pre: Level, post: Level, dt: int, spawned: bool) -> bool {
    &&& same_round(pre, post)
    &&& post.timer == pre.timer
    &&& if pre.crowd_iter >= pre.crowd@.len() {
        &&& !spawned
        &&& post.crowd@ == pre.crowd@
        &&& post.spawn_timer == pre.spawn_timer
        &&& post.crowd_iter == pre.crowd_iter
        &&& post.timer_on == pre.timer_on
    } else if pre.spawn_timer - dt > 0 {
        &&& !spawned
        &&& post.crowd@ == pre.crowd@
        &&& post.spawn_timer == pre.spawn_timer - dt
        &&& post.crowd_iter == pre.crowd_iter
        &&& post.timer_on == pre.timer_on
    } else {
        &&& spawned
        &&& post.crowd@ == pre.crowd@.update(
            pre.crowd_iter as int,
            Character { spawned: true, ..pre.crowd@[pre.crowd_iter as int] },
        )
        &&& post.spawn_timer == SPAWN_DELAY_MS
        &&& post.crowd_iter == pre.crowd_iter + 1
        &&& post.timer_on == (pre.timer_on || post.crowd_iter == post.crowd@.len())
    }
}

/// One frame of `dt` milliseconds of the round timer takes `pre` to `post`;
/// `expired` tells whether time is up.
pub open spec fn timer_step(pre: Level, post: Level, dt: int, expired: bool) -> bool {
    &&& same_round(pre, post)
    &&& post.crowd@ == pre.crowd@
    &&& post.timer_on == pre.timer_on
    &&& post.spawn_timer == pre.spawn_timer
    &&& post.crowd_iter == pre.crowd_iter
    &&& post.timer == if pre.timer_on {
        pre.timer - dt
    } else {
        pre.timer as int
    }
    &&& expired == (pre.timer_on && post.timer <= 0)
}

/// A click at `(px, py)` takes `pre` to `post` with outcome `r`: nothing
/// happens while the timer is off or when no spawned member is under the
/// click; otherwise the first such member in draw order is shot, and the
/// outcome tells whether it is the target.
pub open spec fn click_step(pre: Level, post: Level, px: int, py: int, r: HitOutcome) -> bool {
    &&& same_round(pre, post)
    &&& post.timer == pre.timer
    &&& post.timer_on == pre.timer_on
    &&& post.spawn_timer == pre.spawn_timer
    &&& post.crowd_iter == pre.crowd_iter
    &&& !pre.timer_on ==> r == HitOutcome::NoHit && post.crowd@ == pre.crowd@
    &&& (forall|i: int| !first_hit(pre.crowd@, px, py, i)) ==> r == HitOutcome::NoHit
        && post.crowd@ == pre.crowd@
    &&& forall|i: int|
        pre.timer_on && #[trigger] first_hit(pre.crowd@, px, py, i) ==> post.crowd@
            == pre.crowd@.update(i, Character { dead: true, ..pre.crowd@[i] }) && r == if pre.crowd@[i].is_target {
            HitOutcome::TargetHit
        } else {
            HitOutcome::WrongHit
        }
}

/// A generated round has exactly one target; its hint parts are three
/// distinct categories in ascending order; and every member but the target
/// differs from the target's tuple on at least one hint part.
pub proof fn lemma_generated_round(l: Level)
    requires
        l.generated(),
    ensures
        exists|t: int| 0 <= t < l.crowd@.len() && #[trigger] l.crowd@[t].is_target,
        forall|i: int, j: int|
            0 <= i < l.crowd@.len() && 0 <= j < l.crowd@.len() && #[trigger] l.crowd@[i].is_target
                && #[trigger] l.crowd@[j].is_target ==> i == j,
        l.unique_traits_indices@.len() == 3,
        l.unique_traits_indices@[0] < l.unique_traits_indices@[1] < l.unique_traits_indices@[2] < PART_COUNT,
        forall|i: int|
            0 <= i < l.crowd@.len() && !(#[trigger] l.crowd@[i]).is_target ==> exists|k: int|
                0 <= k < 3 && l.crowd@[i].traits@[l.unique_traits_indices@[k] as int]
                    != l.target_traits@[#[trigger] l.unique_traits_indices@[k] as int],
{
    let h = l.unique_traits_indices@;
    assert(h[2] < PART_COUNT);
    assert forall|i: int| 0 <= i < l.crowd@.len() && !(#[trigger] l.crowd@[i]).is_target implies exists|k: int|
        0 <= k < 3 && l.crowd@[i].traits@[l.unique_traits_indices@[k] as int]
            != l.target_traits@[#[trigger] l.unique_traits_indices@[k] as int] by {
        assert(!agree_on(h, l.crowd@[i].traits@, l.target_traits@));
    }
}

/// A click while the round timer is off hits nothing and changes no member
/// of the crowd.
pub proof fn lemma_click_while_timer_off(pre: Level, post: Level, px: int, py: int, r: HitOutcome)
    requires
        click_step(pre, post, px, py, r),
        !pre.timer_on,
    ensures
        r == HitOutcome::NoHit,
        post.crowd@ == pre.crowd@,
{
}

/// A click hits the target exactly when the timer runs and the first
/// spawned member in draw order under the click is the target.
pub proof fn lemma_target_hit_iff_first_is_target(
    pre: Level,
    post: Level,
    px: int,
    py: int,
    r: HitOutcome,
)
    requires
        click_step(pre, post, px, py, r),
    ensures
        r == HitOutcome::TargetHit <==> pre.timer_on && exists|i: int|
            #[trigger] first_hit(pre.crowd@, px, py, i) && pre.crowd@[i].is_target,
{
    if pre.timer_on && exists|i: int| #[trigger] first_hit(pre.crowd@, px, py, i) && pre.crowd@[i].is_target {
        let i = choose|i: int| #[trigger] first_hit(pre.crowd@, px, py, i) && pre.crowd@[i].is_target;
        assert(r == HitOutcome::TargetHit);
    }
    if r == HitOutcome::TargetHit {
        assert(pre.timer_on);
        if forall|i: int| !first_hit(pre.crowd@, px, py, i) {
            assert(r == HitOutcome::NoHit);
        }
        let i = choose|i: int| first_hit(pre.crowd@, px, py, i);
        assert(pre.crowd@[i].is_target);
    }
}

/// `post` is `pre` with the target marked spawned.
pub open spec fn revealed(pre: Seq<Character>, post: Seq<Character>) -> bool {
    &&& post.len() == pre.len()
    &&& forall|i: int|
        0 <= i < pre.len() ==> #[trigger] post[i] == if pre[i].is_target {
            Character { spawned: true, ..pre[i] }
        } else {
            pre[i]
        }
}

/// Two crowds whose members agree, place by place, on who is the target and
/// on the trait tuple.
pub open spec fn same_roles(a: Seq<Character>, b: Seq<Character>) -> bool {
    &&& a.len() == b.len()
    &&& forall|i: int|
        0 <= i < a.len() ==> (#[trigger] a[i]).is_target == b[i].is_target && a[i].traits
            == b[i].traits
}

/// Spawning or shooting members keeps a crowd valid.
pub proof fn lemma_same_roles_keep_crowd_valid(
    a: Seq<Character>,
    b: Seq<Character>,
    parts: Seq<usize>,
    target: Seq<usize>,
)
    requires
        crowd_valid(a, parts, target),
        same_roles(a, b),
    ensures
        crowd_valid(b, parts, target),
{
    let t = choose|t: int| 0 <= t < a.len() && #[trigger] a[t].is_target;
    assert(b[t].is_target);
    assert forall|i: int, j: int|
        0 <= i < b.len() && 0 <= j < b.len() && #[trigger] b[i].is_target
            && #[trigger] b[j].is_target implies i == j by {
        assert(a[i].is_target && a[j].is_target);
    }
    assert forall|i: int| 0 <= i < b.len() implies traits_in_range(#[trigger] b[i].traits@) by {
        assert(traits_in_range(a[i].traits@));
    }
    assert forall|i: int| 0 <= i < b.len() && #[trigger] b[i].is_target implies b[i].traits@ == target by {
        assert(a[i].is_target);
    }
    assert forall|i: int| 0 <= i < b.len() && !(#[trigger] b[i].is_target) implies !agree_on(parts, b[i].traits@, target) by {
        assert(!a[i].is_target);
        assert(a[i].traits@ == b[i].traits@);
    }
}

/// Reordering a crowd whose members keep their distance keeps them so.
pub proof fn lemma_reorder_keeps_apart(before: Seq<Character>, after: Seq<Character>)
    requires
        crowd_apart(before),
        after.to_multiset() == before.to_multiset(),
    ensures
        crowd_apart(after),
{
    assert forall|a: int, b: int| 0 <= a < b < after.len() implies apart(
        #[trigger] after[a],
        #[trigger] after[b],
    ) by {
        assert(after.to_multiset().count(after[a]) > 0);
        assert(after.to_multiset().count(after[b]) > 0);
        let ka = choose|k: int| 0 <= k < before.len() && before[k] == after[a];
        let kb = choose|k: int| 0 <= k < before.len() && before[k] == after[b];
        if ka == kb {
            lemma_two_places_count(after, a, b);
            let (p, q) = lemma_count_two_places(before, after[a]);
            if p < q {
                assert(apart(before[p], before[q]));
            } else {
                assert(apart(before[q], before[p]));
            }
        } else if ka < kb {
            assert(apart(before[ka], before[kb]));
        } else {
            assert(apart(before[kb], before[ka]));
        }
    }
}

/// Lowest value the round timer may take. A round ends on the first frame
/// the timer is not positive, and one frame takes it down by at most
/// `u32::MAX` milliseconds, so a game never comes near it.
pub const TIMER_FLOOR: i64 = -4294967295;

/// A round: the crowd, its hints and its clock.
pub struct Level {
    /// Members of the crowd, in draw order: later members are drawn on top.
    pub crowd: Vec<Character>,
    /// The target's trait tuple.
    pub target_traits: Traits,
    /// The hint part categories, in ascending order.
    pub unique_traits_indices: Vec<usize>,
    /// Tint of the tinted hints.
    pub hints_color: Tint,
    /// Time left in the round, in milliseconds.
    pub timer: i64,
    /// Whether the round timer runs; off until the whole crowd has spawned.
    pub timer_on: bool,
    /// Time to the next spawn, in milliseconds.
    pub spawn_timer: i64,
    /// Index of the next member of the crowd to spawn.
    pub crowd_iter: usize,
}

impl Level {
    /// The bounds the clock stays in.
    pub open spec fn clock_ok(&self) -> bool {
        &&& 0 < self.spawn_timer <= FIRST_SPAWN_MAX_MS
        &&& TIMER_FLOOR <= self.timer <= LEVEL_TIME_MS
        &&& self.crowd_iter <= self.crowd@.len()
    }

    /// The invariants of a generated round: a crowd of at least one, three
    /// valid hint parts, a target tuple in range, and a valid crowd.
    pub open spec fn generated(&self) -> bool {
        &&& self.crowd@.len() >= 1
        &&& hints_valid(self.unique_traits_indices@)
        &&& traits_in_range(self.target_traits@)
        &&& crowd_valid(self.crowd@, self.unique_traits_indices@, self.target_traits@)
    }

    /// An empty level with a full timer and a random hint tint.
    pub fn init() -> (r: Level)
        ensures
            r.crowd@.len() == 0,
            r.unique_traits_indices@.len() == 0,
            r.target_traits@ == seq![0usize, 0, 0, 0, 0],
            r.timer == LEVEL_TIME_MS,
            !r.timer_on,
            r.spawn_timer == SPAWN_DELAY_MS,
            r.crowd_iter == 0,
            r.clock_ok(),
    {
        Level {
            crowd: Vec::new(),
            target_traits: [0, 0, 0, 0, 0],
            unique_traits_indices: Vec::new(),
            hints_color: rand_color(),
            timer: LEVEL_TIME_MS,
            timer_on: false,
            spawn_timer: SPAWN_DELAY_MS,
            crowd_iter: 0,
        }
    }

    /// Replaces the crowd with `num` new characters placed in
    /// `[x_min, x_max) x [y_min, y_max)`, with new hint parts and a new
    /// target; the target is the first of the crowd. Nobody has spawned yet
    /// and the timer is off. `Ok` tells whether every two members keep their
    /// distance (a member is placed where it keeps its distance from those
    /// before it, unless `POSITION_TRIES` draws all failed). `Err` when the
    /// trait space could not give a member that differs from the target on a
    /// hint part, which cannot happen to the first member.
    pub fn gen_crowd(&mut self, num: usize, x_min: i32, x_max: i32, y_min: i32, y_max: i32) -> (r:
        Result<bool, ConfigError>)
        requires
            num >= 1,
            box_valid(x_min, x_max, y_min, y_max),
            old(self).clock_ok(),
        ensures
            final(self).clock_ok(),
            final(self).crowd_iter == 0,
            !final(self).timer_on,
            final(self).timer == old(self).timer,
            final(self).spawn_timer == old(self).spawn_timer,
            final(self).hints_color == old(self).hints_color,
            forall|i: int|
                0 <= i < final(self).crowd@.len() ==> in_box(
                    #[trigger] final(self).crowd@[i],
                    x_min as int,
                    x_max as int,
                    y_min as int,
                    y_max as int,
                ) && !final(self).crowd@[i].spawned && !final(self).crowd@[i].dead,
            hints_valid(final(self).unique_traits_indices@),
            r is Ok ==> final(self).generated() && final(self).crowd@.len() == num
                && final(self).crowd@[0].is_target,
            r matches Ok(b) ==> b == crowd_apart(final(self).crowd@),
            r is Err ==> 1 <= final(self).crowd@.len() < num,
            num == 1 ==> r is Ok,
    {
        let parts = pick_hint_parts();
        self.unique_traits_indices = parts;
        self.crowd = Vec::new();
        self.crowd_iter = 0;
        self.timer_on = false;
        let mut all_apart = true;
        let mut i: usize = 0;
        while i < num
            invariant
                num >= 1,
                box_valid(x_min, x_max, y_min, y_max),
                i <= num,
                self.crowd@.len() == i,
                all_apart == crowd_apart(self.crowd@),
                self.crowd_iter == 0,
                !self.timer_on,
                self.timer == old(self).timer,
                self.spawn_timer == old(self).spawn_timer,
                self.hints_color == old(self).hints_color,
                self.clock_ok(),
                hints_valid(self.unique_traits_indices@),
                i > 0 ==> traits_in_range(self.target_traits@) && self.crowd@[0].is_target
                    && self.crowd@[0].traits == self.target_traits,
                forall|k: int|
                    0 < k < i ==> !(#[trigger] self.crowd@[k]).is_target && !agree_on(
                        self.unique_traits_indices@,
                        self.crowd@[k].traits@,
                        self.target_traits@,
                    ),
                forall|k: int|
                    0 <= k < i ==> traits_in_range((#[trigger] self.crowd@[k]).traits@) && in_box(
                        self.crowd@[k],
                        x_min as int,
                        x_max as int,
                        y_min as int,
                        y_max as int,
                    ) && !self.crowd@[k].spawned && !self.crowd@[k].dead,
            decreases num - i,
        {
            let (x, y, clear) = sample_position(&self.crowd, x_min, x_max, y_min, y_max);
            let ghost before = self.crowd@;
            if i == 0 {
                let t = sample_trait_tuple();
                self.target_traits = t;
                let mut c = Character::init(x, y, t);
                c.is_target = true;
                self.crowd.push(c);
            } else {
                match sample_distinct_traits(&self.target_traits, &self.unique_traits_indices) {
                    Ok(t) => {
                        let c = Character::init(x, y, t);
                        self.crowd.push(c);
                    },
                    Err(e) => {
                        return Err(e);
                    },
                }
            }
            proof {
                let after = self.crowd@;
                assert(after =~= before.push(after[i as int]));
                if clear && all_apart {
                    assert forall|a: int, b: int| 0 <= a < b < after.len() implies apart(
                        #[trigger] after[a],
                        #[trigger] after[b],
                    ) by {
                        if b == i {
                            assert(separated(before[a].x as int, before[a].y as int, x as int, y as int));
                        } else {
                            assert(apart(before[a], before[b]));
                        }
                    }
                }
                if !clear {
                    let j = choose|j: int|
                        0 <= j < before.len() && !separated(
                            #[trigger] before[j].x as int,
                            before[j].y as int,
                            x as int,
                            y as int,
                        );
                    assert(!apart(after[j], after[i as int]));
                }
                if !all_apart {
                    let (a, b) = choose|a: int, b: int|
                        0 <= a < b < before.len() && !apart(#[trigger] before[a], #[trigger] before[b]);
                    assert(!apart(after[a], after[b]));
                }
            }
            all_apart = all_apart && clear;
            i = i + 1;
        }
        proof {
            let crowd = self.crowd@;
            assert forall|a: int, b: int|
                0 <= a < crowd.len() && 0 <= b < crowd.len() && #[trigger] crowd[a].is_target
                    && #[trigger] crowd[b].is_target implies a == b by {
                if a != 0 {
                    assert(!crowd[a].is_target);
                }
                if b != 0 {
                    assert(!crowd[b].is_target);
                }
            }
            assert(crowd[0].is_target);
        }
        Ok(all_apart)
    }

    /// Advances the spawn cadence by `dt` milliseconds. While some member
    /// has not spawned, the spawn timer runs down; when it is not positive
    /// the next member spawns, the timer is set to `SPAWN_DELAY_MS`, and once
    /// the last member has spawned the round timer starts. Returns whether a
    /// member spawned.
    pub fn advance_spawn(&mut self, dt: u32) -> (r: bool)
        requires
            old(self).clock_ok(),
        ensures
            final(self).clock_ok(),
            spawn_step(*old(self), *final(self), dt as int, r),
            old(self).generated() ==> final(self).generated(),
    {
        if self.crowd_iter >= self.crowd.len() {
            return false;
        }
        let left = self.spawn_timer - dt as i64;
        if left > 0 {
            self.spawn_timer = left;
            return false;
        }
        let i = self.crowd_iter;
        let mut c = self.crowd[i];
        c.mark_spawned();
        self.crowd.set(i, c);
        self.spawn_timer = SPAWN_DELAY_MS;
        self.crowd_iter = i + 1;
        if self.crowd_iter == self.crowd.len() {
            self.timer_on = true;
        }
        proof {
            if old(self).generated() {
                assert(same_roles(old(self).crowd@, self.crowd@));
                lemma_same_roles_keep_crowd_valid(
                    old(self).crowd@,
                    self.crowd@,
                    self.unique_traits_indices@,
                    self.target_traits@,
                );
            }
        }
        true
    }

    /// Advances the round timer by `dt` milliseconds: while it runs it goes
    /// down by `dt`. Returns whether time is up: the timer runs and is not
    /// positive. The timer must not fall below `TIMER_FLOOR`.
    pub fn advance_timer(&mut self, dt: u32) -> (r: bool)
        requires
            old(self).clock_ok(),
            old(self).timer_on ==> old(self).timer - dt >= TIMER_FLOOR,
        ensures
            final(self).clock_ok(),
            timer_step(*old(self), *final(self), dt as int, r),
            *final(self) == (Level { timer: final(self).timer, ..*old(self) }),
    {
        if self.timer_on {
            self.timer = self.timer - dt as i64;
        }
        self.timer_on && self.timer <= 0
    }

    /// Share of the round time left, in thousandths: `max(timer, 0) / LEVEL_TIME`.
    pub fn progress_permille(&self) -> (r: u32)
        requires
            self.clock_ok(),
        ensures
            r == (if self.timer > 0 { self.timer as int } else { 0 }) * 1000 / LEVEL_TIME_MS as int,
            r <= 1000,
    {
        let left: i64 = if self.timer > 0 {
            self.timer
        } else {
            0
        };
        (left * 1000 / LEVEL_TIME_MS) as u32
    }

    /// Colour band of the time bar: green from two thirds of the round time
    /// up, yellow from one third, red below.
    pub fn bar_band(&self) -> (r: Band)
        requires
            self.clock_ok(),
        ensures
            r == Band::Red <==> 3 * self.timer < LEVEL_TIME_MS,
            r == Band::Yellow <==> LEVEL_TIME_MS <= 3 * self.timer < 2 * LEVEL_TIME_MS,
            r == Band::Green <==> 2 * LEVEL_TIME_MS <= 3 * self.timer,
    {
        if 3 * self.timer < LEVEL_TIME_MS {
            Band::Red
        } else if 3 * self.timer < 2 * LEVEL_TIME_MS {
            Band::Yellow
        } else {
            Band::Green
        }
    }

    /// The hints to show, one per hint part in ascending order: the part,
    /// the target's variant of it, whether it is drawn in the hint tint (all
    /// but face and hat), and whether it is blank (the hat variant 0 is no hat).
    pub fn hints(&self) -> (r: Vec<Hint>)
        requires
            hints_valid(self.unique_traits_indices@),
        ensures
            r@.len() == HINT_COUNT,
            forall|k: int|
                0 <= k < HINT_COUNT ==> (#[trigger] r@[k]).part
                    == self.unique_traits_indices@[k] && r@[k].variant
                    == self.target_traits@[r@[k].part as int] && r@[k].tinted == (r@[k].part
                    != FACE && r@[k].part != HAT) && r@[k].blank == (r@[k].part == HAT
                    && r@[k].variant == 0),
    {
        let mut r: Vec<Hint> = Vec::new();
        let mut k: usize = 0;
        while k < HINT_COUNT
            invariant
                hints_valid(self.unique_traits_indices@),
                k <= HINT_COUNT,
                r@.len() == k,
                forall|m: int|
                    0 <= m < k ==> (#[trigger] r@[m]).part == self.unique_traits_indices@[m]
                        && r@[m].variant == self.target_traits@[r@[m].part as int] && r@[m].tinted
                        == (r@[m].part != FACE && r@[m].part != HAT) && r@[m].blank == (r@[m].part
                        == HAT && r@[m].variant == 0),
            decreases HINT_COUNT - k,
        {
            let part = self.unique_traits_indices[k];
            let variant = self.target_traits[part];
            r.push(
                Hint {
                    part,
                    variant,
                    tinted: part != FACE && part != HAT,
                    blank: part == HAT && variant == 0,
                },
            );
            k = k + 1;
        }
        r
    }

    /// Resolves a click at `(px, py)`: while the timer runs, the first
    /// spawned member in draw order whose hittable box holds the click is
    /// shot, and the outcome tells whether it was the target. Clicks while
    /// the timer is off, and clicks on nobody, change nothing.
    pub fn check_target_click(&mut self, px: i32, py: i32) -> (r: HitOutcome)
        requires
            old(self).clock_ok(),
        ensures
            final(self).clock_ok(),
            click_step(*old(self), *final(self), px as int, py as int, r),
            old(self).generated() ==> final(self).generated(),
    {
        if !self.timer_on {
            return HitOutcome::NoHit;
        }
        let mut i: usize = 0;
        while i < self.crowd.len()
            invariant
                i <= self.crowd@.len(),
                *self == *old(self),
                self.clock_ok(),
                self.timer_on,
                forall|j: int| 0 <= j < i ==> !hittable(#[trigger] self.crowd@[j], px as int, py as int),
            decreases self.crowd@.len() - i,
        {
            let c = self.crowd[i];
            if c.spawned && c.hit_test(px, py) {
                let mut shot = c;
                shot.mark_dead();
                self.crowd.set(i, shot);
                proof {
                    assert(self.crowd@.len() == old(self).crowd@.len());
                    assert(first_hit(old(self).crowd@, px as int, py as int, i as int));
                    assert forall|k: int| #[trigger] first_hit(old(self).crowd@, px as int, py as int, k) implies k == i by {
                        if k < i {
                            assert(!hittable(old(self).crowd@[k], px as int, py as int));
                        }
                        if k > i {
                            assert(!hittable(old(self).crowd@[i as int], px as int, py as int));
                        }
                    }
                    if old(self).generated() {
                        assert(same_roles(old(self).crowd@, self.crowd@));
                        lemma_same_roles_keep_crowd_valid(
                            old(self).crowd@,
                            self.crowd@,
                            self.unique_traits_indices@,
                            self.target_traits@,
                        );
                    }
                }
                return if c.is_target {
                    HitOutcome::TargetHit
                } else {
                    HitOutcome::WrongHit
                };
            }
            i = i + 1;
        }
        proof {
            assert forall|k: int| !first_hit(old(self).crowd@, px as int, py as int, k) by {
                if 0 <= k < self.crowd@.len() {
                    assert(!hittable(self.crowd@[k], px as int, py as int));
                }
            }
        }
        HitOutcome::NoHit
    }

    /// Shows the target: it is marked spawned, everybody else is left as is.
    pub fn reveal_target(&mut self)
        requires
            old(self).clock_ok(),
        ensures
            final(self).clock_ok(),
            revealed(old(self).crowd@, final(self).crowd@),
            *final(self) == (Level { crowd: final(self).crowd, ..*old(self) }),
            old(self).generated() ==> final(self).generated(),
    {
        let mut i: usize = 0;
        while i < self.crowd.len()
            invariant
                self.clock_ok(),
                i <= self.crowd@.len(),
                *self == (Level { crowd: self.crowd, ..*old(self) }),
                self.crowd@.len() == old(self).crowd@.len(),
                forall|k: int|
                    0 <= k < i ==> #[trigger] self.crowd@[k] == if old(self).crowd@[k].is_target {
                        Character { spawned: true, ..old(self).crowd@[k] }
                    } else {
                        old(self).crowd@[k]
                    },
                forall|k: int| i <= k < self.crowd@.len() ==> #[trigger] self.crowd@[k] == old(self).crowd@[k],
            decreases self.crowd@.len() - i,
        {
            let mut c = self.crowd[i];
            if c.is_target {
                c.mark_spawned();
                self.crowd.set(i, c);
            }
            i = i + 1;
        }
        proof {
            if old(self).generated() {
                assert(same_roles(old(self).crowd@, self.crowd@));
                lemma_same_roles_keep_crowd_valid(
                    old(self).crowd@,
                    self.crowd@,
                    self.unique_traits_indices@,
                    self.target_traits@,
                );
            }
        }
    }

    /// Index of the target in the crowd, if there is one.
    pub fn target_index(&self) -> (r: Option<usize>)
        ensures
            r matches Some(i) ==> i < self.crowd@.len() && self.crowd@[i as int].is_target,
            r is None ==> forall|i: int| 0 <= i < self.crowd@.len() ==> !(#[trigger] self.crowd@[i]).is_target,
    {
        let mut i: usize = 0;
        while i < self.crowd.len()
            invariant
                i <= self.crowd@.len(),
                forall|j: int| 0 <= j < i ==> !(#[trigger] self.crowd@[j]).is_target,
            decreases self.crowd@.len() - i,
        {
            if self.crowd[i].is_target {
                return Some(i);
            }
            i = i + 1;
        }
        None
    }

    /// Reorders the crowd at random, so that neither the spawn order nor the
    /// place in the draw order gives the target away.
    pub fn shuffle_crowd(&mut self)
        requires
            old(self).generated(),
            old(self).clock_ok(),
            old(self).crowd_iter == 0,
        ensures
            final(self).crowd@.to_multiset() == old(self).crowd@.to_multiset(),
            final(self).crowd@.len() == old(self).crowd@.len(),
            forall|i: int|
                0 <= i < final(self).crowd@.len() ==> old(self).crowd@.contains(
                    #[trigger] final(self).crowd@[i],
                ),
            final(self).generated(),
            crowd_apart(final(self).crowd@) == crowd_apart(old(self).crowd@),
            final(self).clock_ok(),
            final(self).target_traits == old(self).target_traits,
            final(self).unique_traits_indices@ == old(self).unique_traits_indices@,
            final(self).hints_color == old(self).hints_color,
            final(self).timer == old(self).timer,
            final(self).timer_on == old(self).timer_on,
            final(self).spawn_timer == old(self).spawn_timer,
            final(self).crowd_iter == 0,
    {
        let ghost before = self.crowd@;
        shuffle_in_place(&mut self.crowd);
        proof {
            assert(self.crowd@.to_multiset().len() == before.to_multiset().len());
            assert forall|i: int| 0 <= i < self.crowd@.len() implies before.contains(
                #[trigger] self.crowd@[i],
            ) by {
                assert(self.crowd@.to_multiset().count(self.crowd@[i]) > 0);
            }
            lemma_reorder_keeps_crowd_valid(
                before,
                self.crowd@,
                self.unique_traits_indices@,
                self.target_traits@,
            );
            if crowd_apart(before) {
                lemma_reorder_keeps_apart(before, self.crowd@);
            }
            if crowd_apart(self.crowd@) {
                lemma_reorder_keeps_apart(self.crowd@, before);
            }
        }
    }
}

} // verus!
