//! Score of a run and the difficulty of the next round.

use crate::config::{FIRST_SPAWN_MAX_MS, FIRST_SPAWN_MIN_MS, LEVEL_TIME_MS};
use vstd::prelude::*;

verus! {

/// Points for a target, before bonuses.
pub const SCORE_BASE: u64 = 100;

/// Thousandths of a point in a point: totals are counted in thousandths.
pub const MILLI: u64 = 1000;

/// Most targets a run is counted for.
pub const MAX_LEVEL: u64 = 1000000;

/// Most thousandths of a point one target can bring while the level index
/// stays below `MAX_LEVEL`.
pub const MAX_DELTA: u64 = 20000200000;

/// Largest crowd of a round.
pub const MAX_CROWD: usize = 10;

/// Crowd of the first round.
pub const START_CROWD: usize = 3;

/// Targets to clear for one more member of the crowd.
pub const LEVELS_PER_MEMBER: u64 = 5;

/// The score of a run.
#[derive(Clone, Copy, Debug, PartialEq, Eq, Structural)]
pub struct Score {
    /// Targets eliminated.
    pub level: u64,
    /// Total, in thousandths of a point.
    pub total: u64,
}

/// Level bonus for the `k`-th target, in points: `(BASE / 10) * k`.
pub open spec fn level_bonus(k: int) -> int {
    (SCORE_BASE / 10) as int * k
}

/// Time bonus in thousandths of a point, with `r` milliseconds left:
/// `(BASE + level_bonus) * (r / LEVEL_TIME)` points.
pub open spec fn time_bonus(k: int, r: int) -> int {
    (SCORE_BASE + level_bonus(k)) * r * MILLI / LEVEL_TIME_MS as int
}

/// What a target brings at level index `k` with `r` milliseconds left, in
/// thousandths of a point: base, level bonus and time bonus, the time left
/// counted as zero when negative.
pub open spec fn score_delta_spec(k: int, r: int) -> int {
    let r = if r > 0 { r } else { 0 };
    MILLI * (SCORE_BASE + level_bonus(k)) + time_bonus(k, r)
}

/// What a target brings at level index `k` with `r >= 0` milliseconds left
/// is `100 + 10k + (100 + 10k) * (r / 10 s)` points: in thousandths of a
/// point, `1000 * (100 + 10k) + (100 + 10k) * r / 10`, which is a whole
/// number.
pub proof fn lemma_score_delta_closed_form(k: nat, r: nat)
    ensures
        score_delta_spec(k as int, r as int) == 1000 * (100 + 10 * k) + (100 + 10 * k) * r / 10,
        ((100 + 10 * k) * r) % 10 == 0,
{
    assert((100 + 10 * k) * r == 10 * ((10 + k) * r)) by (nonlinear_arith);
    assert((SCORE_BASE + level_bonus(k as int)) * r * MILLI == 10000 * ((10 + k) * r))
        by (nonlinear_arith);
    assert(10000 * ((10 + k) * r) / 10000 == (10 + k) * r) by (nonlinear_arith);
    assert(10 * ((10 + k) * r) / 10 == (10 + k) * r) by (nonlinear_arith);
    assert((10 * ((10 + k) * r)) % 10 == 0) by (nonlinear_arith);
}

/// Crowd of the round after `k` targets: `min(10, 3 + floor(k / 5))`.
pub open spec fn crowd_size_spec(k: int) -> int {
    let n = START_CROWD + k / LEVELS_PER_MEMBER as int;
    if n < MAX_CROWD { n } else { MAX_CROWD as int }
}

/// Delay before the first spawn after `k` targets, in milliseconds:
/// `clamp(1 - k / 20, 0.1, 1.0)` seconds.
pub open spec fn first_spawn_delay_spec(k: int) -> int {
    let d = FIRST_SPAWN_MAX_MS - 50 * k;
    if d < FIRST_SPAWN_MIN_MS {
        FIRST_SPAWN_MIN_MS as int
    } else if d > FIRST_SPAWN_MAX_MS {
        FIRST_SPAWN_MAX_MS as int
    } else {
        d
    }
}

/// What a target brings at level index `level` with `remaining`
/// milliseconds left, in thousandths of a point.
pub fn score_delta(level: u64, remaining: i64) -> (r: u64)
    requires
        level < MAX_LEVEL,
        remaining <= LEVEL_TIME_MS,
    ensures
        r == score_delta_spec(level as int, remaining as int),
        r <= MAX_DELTA,
{
    let left: u64 = if remaining > 0 {
        remaining as u64
    } else {
        0
    };
    proof {
        let k = level as int;
        let t = left as int;
        assert((SCORE_BASE + level_bonus(k)) * t * MILLI == (10 + k) * t * 10000)
            by (nonlinear_arith);
        assert(((10 + k) * t * 10000) / 10000 == (10 + k) * t) by (nonlinear_arith);
        assert(MILLI * (SCORE_BASE + level_bonus(k)) + (10 + k) * t == (10 + k) * (10000 + t))
            by (nonlinear_arith);
        assert((10 + k) * (10000 + t) <= (10 + MAX_LEVEL) * 20000) by (nonlinear_arith)
            requires
                0 <= k < MAX_LEVEL,
                0 <= t <= 10000,
        ;
    }
    (10 + level) * (10000 + left)
}

/// Crowd of the round after `level` targets.
pub fn crowd_size(level: u64) -> (r: usize)
    ensures
        r == crowd_size_spec(level as int),
        START_CROWD <= r <= MAX_CROWD,
{
    let step = level / LEVELS_PER_MEMBER;
    if step < (MAX_CROWD - START_CROWD) as u64 {
        START_CROWD + step as usize
    } else {
        MAX_CROWD
    }
}

/// Delay before the first spawn after `level` targets, in milliseconds.
pub fn first_spawn_delay(level: u64) -> (r: i64)
    ensures
        r == first_spawn_delay_spec(level as int),
        FIRST_SPAWN_MIN_MS <= r <= FIRST_SPAWN_MAX_MS,
{
    if level >= 18 {
        FIRST_SPAWN_MIN_MS
    } else {
        FIRST_SPAWN_MAX_MS - 50 * level as i64
    }
}

impl Score {
    /// A run with nothing scored yet.
    pub open spec fn zero_spec() -> Score {
        Score { level: 0, total: 0 }
    }

    /// A run with nothing scored yet.
    pub fn zero() -> (r: Score)
        ensures
            r == Score::zero_spec(),
    {
        Score { level: 0, total: 0 }
    }

    /// The bound the total stays under: at most `MAX_DELTA` per target.
    pub open spec fn bounded(&self) -> bool {
        &&& self.level <= MAX_LEVEL
        &&& self.total <= self.level * MAX_DELTA
    }
}

} // verus!
