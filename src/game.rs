//! The game's state machine: menu, rounds, transitions, game over, pause.

use crate::character::rand_color;
use crate::config::{
    CHAR_HEIGHT, CHAR_WIDTH, FAILURE_TRANSITION_MS, GAME_HEIGHT, GAME_WIDTH, GROUND_HEIGHT,
    GROUND_WIDTH, LEVEL_TIME_MS, SUCCESS_TRANSITION_MS,
};
use crate::level::{
    click_step, crowd_apart, in_box, revealed, same_roles, spawn_step, timer_step, ConfigError, HitOutcome, Level,
    TIMER_FLOOR, lemma_same_roles_keep_crowd_valid,
};
use crate::record::StoredTotal;
use crate::scoring::{
    crowd_size, crowd_size_spec, first_spawn_delay, first_spawn_delay_spec, score_delta,
    score_delta_spec, Score, MAX_LEVEL,
};
use vstd::prelude::*;

verus! {

/// Left edge of the box a round's crowd is placed in.
pub const PLAY_X_MIN: i32 = GAME_WIDTH - GROUND_WIDTH - 40;

/// Right edge (excluded) of the box a round's crowd is placed in.
pub const PLAY_X_MAX: i32 = GAME_WIDTH - CHAR_WIDTH - 50;

/// Top edge of the box a round's crowd is placed in.
pub const PLAY_Y_MIN: i32 = GAME_HEIGHT - GROUND_HEIGHT - 50;

/// Bottom edge (excluded) of the box a round's crowd is placed in.
pub const PLAY_Y_MAX: i32 = GAME_HEIGHT - CHAR_HEIGHT - 70;

/// Size of the crowd behind the menu.
pub const MENU_CROWD: usize = 200;

/// Where the game is.
#[derive(Clone, Copy, Debug, PartialEq, Eq, Structural)]
pub enum GameState {
    Menu,
    Playing,
    /// The freeze after a round; `true` when the target was shot.
    Transition(bool),
    GameOver,
    Paused,
}

/// What the player did during one frame.
#[derive(Clone, Copy, Debug, PartialEq, Eq, Structural)]
pub struct FrameInput {
    /// The primary button went down.
    pub click: bool,
    /// Pointer position on the virtual screen.
    pub mouse_x: i32,
    pub mouse_y: i32,
    /// Enter: start, restart, resume.
    pub key_start: bool,
    /// Escape: pause, back, quit.
    pub key_escape: bool,
}

/// Outside work the game needs before it can go on.
#[derive(Clone, Copy, Debug, PartialEq, Eq, Structural)]
pub enum Request {
    Nothing,
    /// Load the stored highscore and hand it to `set_menu`.
    LoadMenu,
    /// Load the stored total and hand it to `set_game_over`.
    StoreGameOver,
    /// Ask the player to confirm quitting.
    ConfirmQuit,
}

/// What happened during one frame.
#[derive(Clone, Copy, Debug, PartialEq, Eq, Structural)]
pub struct Frame {
    /// A member of the crowd spawned.
    pub spawned: bool,
    /// The round timer ran out.
    pub expired: bool,
    /// What the click hit.
    pub hit: HitOutcome,
    pub request: Request,
}

/// A frame in which nothing happened but, perhaps, a request.
pub open spec fn quiet(f: Frame, request: Request) -> bool {
    f == Frame { spawned: false, expired: false, hit: HitOutcome::NoHit, request }
}

/// The game.
pub struct Game {
    /// The current round.
    pub level: Level,
    pub game_state: GameState,
    /// Score of the current run.
    pub score: Score,
    /// Best stored run, once one was loaded or made.
    pub highscore: Option<Score>,
    /// Time left of the freeze after a round, in milliseconds.
    pub transition_timer: i64,
}

/// `post` is `pre` with a new round set up for `pre`'s score: the crowd of
/// `crowd_size(level)` fresh members in the play box, the round timer full
/// and off, the first spawn after `first_spawn_delay(level)`.
pub open spec fn round_started(pre: Game, post: Game) -> bool {
    &&& post.game_state == GameState::Playing
    &&& post.score == pre.score
    &&& post.highscore == pre.highscore
    &&& post.transition_timer == pre.transition_timer
    &&& post.level.generated()
    &&& post.level.crowd@.len() == crowd_size_spec(pre.score.level as int)
    &&& post.level.spawn_timer == first_spawn_delay_spec(pre.score.level as int)
    &&& post.level.timer == LEVEL_TIME_MS
    &&& !post.level.timer_on
    &&& post.level.crowd_iter == 0
    &&& forall|i: int|
        0 <= i < post.level.crowd@.len() ==> in_box(
            #[trigger] post.level.crowd@[i],
            PLAY_X_MIN as int,
            PLAY_X_MAX as int,
            PLAY_Y_MIN as int,
            PLAY_Y_MAX as int,
        ) && !post.level.crowd@[i].spawned && !post.level.crowd@[i].dead
}

/// `post` is `pre` frozen after a round: timer off, in `Transition(success)`
/// for `SUCCESS_TRANSITION_MS` or `FAILURE_TRANSITION_MS`.
pub open spec fn frozen(pre: Game, post: Game, success: bool) -> bool {
    post == Game {
        game_state: GameState::Transition(success),
        level: Level { timer_on: false, ..pre.level },
        transition_timer: if success {
            SUCCESS_TRANSITION_MS
        } else {
            FAILURE_TRANSITION_MS
        },
        ..pre
    }
}

/// The score after a target shot with `remaining` milliseconds left: one
/// more target and its points, while fewer than `MAX_LEVEL` targets are
/// counted; past that the score stays as it is.
pub open spec fn scored(s: Score, remaining: int) -> Score {
    if s.level < MAX_LEVEL {
        Score {
            level: (s.level + 1) as u64,
            total: (s.total + score_delta_spec(s.level as int, remaining)) as u64,
        }
    } else {
        s
    }
}

/// What a frame of play does once the clock has moved and the click has
/// been resolved: `mid` is the game at that point, `post` after it.
pub open spec fn playing_outcome(mid: Game, post: Game, input: FrameInput, f: Frame) -> bool {
    &&& f.request == Request::Nothing
    &&& if f.hit == HitOutcome::TargetHit {
        frozen(Game { score: scored(mid.score, mid.level.timer as int), ..mid }, post, true)
    } else if f.hit == HitOutcome::WrongHit || f.expired {
        frozen(mid, post, false)
    } else if input.key_escape {
        post == Game { game_state: GameState::Paused, level: Level { timer_on: false, ..mid.level }, ..mid }
    } else {
        post == mid
    }
}

/// A frame of play: the spawn cadence takes `pre`'s round to `l1`, the
/// round timer takes it to `l2`, the click (if any) takes it to `l3`, and the
/// outcome takes the game, with round `l3`, to `post`.
pub open spec fn played(
    pre: Game,
    post: Game,
    dt: int,
    input: FrameInput,
    f: Frame,
    l1: Level,
    l2: Level,
    l3: Level,
) -> bool {
    &&& spawn_step(pre.level, l1, dt, f.spawned)
    &&& timer_step(l1, l2, dt, f.expired)
    &&& if input.click {
        click_step(l2, l3, input.mouse_x as int, input.mouse_y as int, f.hit)
    } else {
        l3 == l2 && f.hit == HitOutcome::NoHit
    }
    &&& playing_outcome(Game { level: l3, ..pre }, post, input, f)
}

/// The freeze timer after a frame of `dt` milliseconds: it goes down while
/// it is positive.
pub open spec fn freeze_left(t: i64, dt: int) -> int {
    if t > 0 {
        t - dt
    } else {
        t as int
    }
}

/// Whether the frame sets up a new round, the one kind of frame that draws
/// at random and so can fail: start from the menu or from game over, or
/// the end of a success freeze.
pub open spec fn generates(g: Game, dt: int, input: FrameInput) -> bool {
    ||| g.game_state == GameState::Menu && input.key_start
    ||| g.game_state == GameState::GameOver && input.key_start
    ||| g.game_state == GameState::Transition(true) && freeze_left(g.transition_timer, dt) <= 0
}

impl Game {
    /// The bounds the clocks and the score stay in.
    pub open spec fn bounds_ok(&self) -> bool {
        &&& self.level.clock_ok()
        &&& self.score.bounded()
        &&& TIMER_FLOOR <= self.transition_timer <= FAILURE_TRANSITION_MS
    }

    /// The invariant of the game: the bounds hold, the round timer runs
    /// only in play, and in play or paused it is positive.
    pub open spec fn wf(&self) -> bool {
        &&& self.bounds_ok()
        &&& self.game_state != GameState::Playing ==> !self.level.timer_on
        &&& (self.game_state == GameState::Playing || self.game_state == GameState::Paused)
            ==> self.level.timer > 0
    }

    /// A new game at the menu, with `stored` as the highscore.
    pub fn init(stored: Option<Score>) -> (r: Result<Game, ConfigError>)
        ensures
            r matches Ok(g) ==> g.wf() && g.game_state == GameState::Menu && g.score
                == Score::zero_spec() && g.highscore == stored && g.level.generated(),
    {
        let mut game = Game {
            level: Level::init(),
            game_state: GameState::Menu,
            score: Score::zero(),
            highscore: None,
            transition_timer: SUCCESS_TRANSITION_MS,
        };
        match game.set_menu(stored) {
            Ok(()) => Ok(game),
            Err(e) => Err(e),
        }
    }

    /// Goes to the menu: the score is reset, `stored` (when there is one)
    /// becomes the highscore, and a crowd fills the screen behind the menu.
    pub fn set_menu(&mut self, stored: Option<Score>) -> (r: Result<(), ConfigError>)
        requires
            old(self).wf(),
        ensures
            final(self).wf(),
            final(self).game_state == GameState::Menu,
            final(self).score == Score::zero_spec(),
            final(self).highscore == if stored is Some {
                stored
            } else {
                old(self).highscore
            },
            final(self).transition_timer == old(self).transition_timer,
            r is Ok ==> final(self).level.generated() && final(self).level.crowd@.len()
                == MENU_CROWD && forall|i: int|
                0 <= i < final(self).level.crowd@.len() ==> (
                #[trigger] final(self).level.crowd@[i]).spawned,
    {
        self.game_state = GameState::Menu;
        self.score = Score::zero();
        if let Some(h) = stored {
            self.highscore = Some(h);
        }
        match self.level.gen_crowd(MENU_CROWD, 0, GAME_WIDTH - CHAR_WIDTH, 0, GAME_HEIGHT - CHAR_HEIGHT) {
            Ok(_) => {},
            Err(e) => {
                return Err(e);
            },
        }
        let ghost generated = self.level.crowd@;
        let mut i: usize = 0;
        while i < self.level.crowd.len()
            invariant
                self.wf(),
                self.game_state == GameState::Menu,
                self.score == Score::zero_spec(),
                self.highscore == if stored is Some {
                    stored
                } else {
                    old(self).highscore
                },
                self.transition_timer == old(self).transition_timer,
                i <= self.level.crowd@.len(),
                self.level.crowd@.len() == MENU_CROWD,
                same_roles(generated, self.level.crowd@),
                crate::level::hints_valid(self.level.unique_traits_indices@),
                crate::character::traits_in_range(self.level.target_traits@),
                crate::level::crowd_valid(generated, self.level.unique_traits_indices@, self.level.target_traits@),
                forall|k: int| 0 <= k < i ==> (#[trigger] self.level.crowd@[k]).spawned,
            decreases self.level.crowd@.len() - i,
        {
            let mut c = self.level.crowd[i];
            c.mark_spawned();
            self.level.crowd.set(i, c);
            i = i + 1;
        }
        proof {
            lemma_same_roles_keep_crowd_valid(
                generated,
                self.level.crowd@,
                self.level.unique_traits_indices@,
                self.level.target_traits@,
            );
        }
        Ok(())
    }

    /// Sets up a round for the current score.
    /// `Ok` tells whether every two members of the new crowd keep their
    /// distance.
    pub fn set_level(&mut self) -> (r: Result<bool, ConfigError>)
        requires
            old(self).wf(),
        ensures
            final(self).wf(),
            r is Ok ==> round_started(*old(self), *final(self)),
            r matches Ok(b) ==> b == crowd_apart(final(self).level.crowd@),
            r is Err ==> final(self).game_state == old(self).game_state && final(self).score
                == old(self).score && final(self).highscore == old(self).highscore
                && final(self).transition_timer == old(self).transition_timer,
    {
        let n = crowd_size(self.score.level);
        self.level.spawn_timer = first_spawn_delay(self.score.level);
        self.level.timer = LEVEL_TIME_MS;
        self.level.hints_color = rand_color();
        let apart = match self.level.gen_crowd(n, PLAY_X_MIN, PLAY_X_MAX, PLAY_Y_MIN, PLAY_Y_MAX) {
            Ok(b) => b,
            Err(e) => {
                return Err(e);
            },
        };
        let ghost generated = self.level.crowd@;
        self.level.shuffle_crowd();
        proof {
            assert forall|i: int| 0 <= i < self.level.crowd@.len() implies in_box(
                #[trigger] self.level.crowd@[i],
                PLAY_X_MIN as int,
                PLAY_X_MAX as int,
                PLAY_Y_MIN as int,
                PLAY_Y_MAX as int,
            ) && !self.level.crowd@[i].spawned && !self.level.crowd@[i].dead by {
                assert(generated.contains(self.level.crowd@[i]));
                let k = choose|k: int| 0 <= k < generated.len() && generated[k] == self.level.crowd@[i];
                assert(in_box(generated[k], PLAY_X_MIN as int, PLAY_X_MAX as int, PLAY_Y_MIN as int, PLAY_Y_MAX as int));
            }
        }
        self.game_state = GameState::Playing;
        Ok(apart)
    }

    /// Counts the target just shot, with the time left on the round timer.
    pub fn add_score(&mut self)
        requires
            old(self).bounds_ok(),
            old(self).score.level < MAX_LEVEL,
        ensures
            final(self).bounds_ok(),
            *final(self) == (Game {
                score: Score {
                    level: (old(self).score.level + 1) as u64,
                    total: (old(self).score.total + score_delta_spec(
                        old(self).score.level as int,
                        old(self).level.timer as int,
                    )) as u64,
                },
                ..*old(self)
            }),
    {
        let delta = score_delta(self.score.level, self.level.timer);
        proof {
            let k = self.score.level;
            assert(k * crate::scoring::MAX_DELTA + crate::scoring::MAX_DELTA == (k + 1) * crate::scoring::MAX_DELTA)
                by (nonlinear_arith);
            assert((k + 1) * crate::scoring::MAX_DELTA <= MAX_LEVEL * crate::scoring::MAX_DELTA) by (nonlinear_arith)
                requires
                    k < MAX_LEVEL,
            ;
        }
        self.score = Score { level: self.score.level + 1, total: self.score.total + delta };
    }

    /// Freezes the game after a round.
    fn freeze(&mut self, success: bool)
        requires
            old(self).bounds_ok(),
        ensures
            final(self).wf(),
            frozen(*old(self), *final(self), success),
    {
        self.level.timer_on = false;
        self.game_state = GameState::Transition(success);
        self.transition_timer = if success {
            SUCCESS_TRANSITION_MS
        } else {
            FAILURE_TRANSITION_MS
        };
    }

    /// Ends the run: goes to game over with the timer stopped, and tells
    /// whether the score is to be stored, which is when no total is stored
    /// or the score's total is strictly larger than the stored one; the
    /// score then becomes the highscore. A store that could not be read
    /// gets nothing.
    pub fn set_game_over(&mut self, stored: StoredTotal) -> (save: bool)
        requires
            old(self).wf(),
        ensures
            final(self).wf(),
            save == match stored {
                StoredTotal::Absent => true,
                StoredTotal::Total(t) => old(self).score.total > t,
                StoredTotal::Unreadable => false,
            },
            *final(self) == (Game {
                game_state: GameState::GameOver,
                highscore: if save {
                    Some(old(self).score)
                } else {
                    old(self).highscore
                },
                level: Level { timer_on: false, ..old(self).level },
                ..*old(self)
            }),
    {
        self.game_state = GameState::GameOver;
        self.level.timer_on = false;
        let save = match stored {
            StoredTotal::Absent => true,
            StoredTotal::Total(t) => self.score.total > t,
            StoredTotal::Unreadable => false,
        };
        if save {
            self.highscore = Some(self.score);
        }
        save
    }

    /// Whether the run just ended made the highscore: there is a highscore
    /// with at least one target, and the score's total reaches it.
    pub fn is_new_highscore(&self) -> (r: bool)
        ensures
            r == match self.highscore {
                Some(h) => h.level > 0 && self.score.total >= h.total,
                None => false,
            },
    {
        match self.highscore {
            Some(h) => h.level > 0 && self.score.total >= h.total,
            None => false,
        }
    }

    /// Advances the game by one frame of `dt` milliseconds with the
    /// player's `input`.
    ///
    /// In the menu, start begins a run and escape asks to quit. In play, the
    /// spawn cadence and the round timer advance, a click is resolved, and
    /// then: shooting the target scores and freezes for a success; shooting
    /// another member or running out of time freezes for a failure; escape
    /// pauses. Once a freeze has run out, a success starts the next round
    /// and a failure asks to store the run. At game over start begins a new
    /// run and escape asks to go to the menu; when paused, escape asks to go
    /// to the menu and start resumes. Inputs that a state does not take are
    /// ignored. `Err` when a new round could not be generated.
    pub fn update(&mut self, dt: u32, input: FrameInput) -> (r: Result<Frame, ConfigError>)
        requires
            old(self).wf(),
        ensures
            final(self).wf(),
            r is Err ==> generates(*old(self), dt as int, input),
            r is Err ==> final(self).game_state == old(self).game_state && final(self).highscore
                == old(self).highscore,
            !generates(*old(self), dt as int, input) ==> r is Ok,
            r matches Ok(f) ==> match old(self).game_state {
                GameState::Menu => if input.key_start {
                    round_started(*old(self), *final(self)) && quiet(f, Request::Nothing)
                } else if input.key_escape {
                    *final(self) == *old(self) && quiet(f, Request::ConfirmQuit)
                } else {
                    *final(self) == *old(self) && quiet(f, Request::Nothing)
                },
                GameState::Playing => exists|l1: Level, l2: Level, l3: Level|
                    #[trigger] played(*old(self), *final(self), dt as int, input, f, l1, l2, l3),
                GameState::Transition(success) => {
                    let left = freeze_left(old(self).transition_timer, dt as int);
                    let waited = Game { transition_timer: left as i64, ..*old(self) };
                    if left > 0 {
                        *final(self) == waited && quiet(f, Request::Nothing)
                    } else if success {
                        round_started(waited, *final(self)) && quiet(f, Request::Nothing)
                    } else {
                        *final(self) == (Game { level: Level { crowd: final(self).level.crowd, ..waited.level }, ..waited })
                            && revealed(old(self).level.crowd@, final(self).level.crowd@)
                            && quiet(f, Request::StoreGameOver)
                    }
                },
                GameState::GameOver => if input.key_start {
                    round_started(Game { score: Score::zero_spec(), ..*old(self) }, *final(self))
                        && quiet(f, Request::Nothing)
                } else if input.key_escape {
                    *final(self) == *old(self) && quiet(f, Request::LoadMenu)
                } else {
                    *final(self) == *old(self) && quiet(f, Request::Nothing)
                },
                GameState::Paused => if input.key_escape {
                    *final(self) == *old(self) && quiet(f, Request::LoadMenu)
                } else if input.key_start {
                    *final(self) == (Game {
                        game_state: GameState::Playing,
                        level: Level { timer_on: true, ..old(self).level },
                        ..*old(self)
                    }) && quiet(f, Request::Nothing)
                } else {
                    *final(self) == *old(self) && quiet(f, Request::Nothing)
                },
            },
    {
        let nothing = Frame {
            spawned: false,
            expired: false,
            hit: HitOutcome::NoHit,
            request: Request::Nothing,
        };
        match self.game_state {
            GameState::Menu => {
                if input.key_start {
                    match self.set_level() {
                        Ok(_) => Ok(nothing),
                        Err(e) => Err(e),
                    }
                } else if input.key_escape {
                    Ok(Frame { request: Request::ConfirmQuit, ..nothing })
                } else {
                    Ok(nothing)
                }
            },
            GameState::Playing => {
                let ghost pre = *self;
                let spawned = self.level.advance_spawn(dt);
                let ghost l1 = self.level;
                let expired = self.level.advance_timer(dt);
                let ghost l2 = self.level;
                let hit = if input.click {
                    self.level.check_target_click(input.mouse_x, input.mouse_y)
                } else {
                    HitOutcome::NoHit
                };
                let ghost l3 = self.level;
                match hit {
                    HitOutcome::TargetHit => {
                        if self.score.level < MAX_LEVEL {
                            self.add_score();
                        }
                        self.freeze(true);
                    },
                    HitOutcome::WrongHit => {
                        self.freeze(false);
                    },
                    HitOutcome::NoHit => {
                        if expired {
                            self.freeze(false);
                        } else if input.key_escape {
                            self.game_state = GameState::Paused;
                            self.level.timer_on = false;
                        }
                    },
                }
                let f = Frame { spawned, expired, hit, request: Request::Nothing };
                proof {
                    assert(played(pre, *self, dt as int, input, f, l1, l2, l3));
                }
                Ok(f)
            },
            GameState::Transition(success) => {
                if self.transition_timer > 0 {
                    self.transition_timer = self.transition_timer - dt as i64;
                }
                if self.transition_timer > 0 {
                    Ok(nothing)
                } else if success {
                    match self.set_level() {
                        Ok(_) => Ok(nothing),
                        Err(e) => Err(e),
                    }
                } else {
                    self.level.reveal_target();
                    Ok(Frame { request: Request::StoreGameOver, ..nothing })
                }
            },
            GameState::GameOver => {
                if input.key_start {
                    self.score = Score::zero();
                    match self.set_level() {
                        Ok(_) => Ok(nothing),
                        Err(e) => Err(e),
                    }
                } else if input.key_escape {
                    Ok(Frame { request: Request::LoadMenu, ..nothing })
                } else {
                    Ok(nothing)
                }
            },
            GameState::Paused => {
                if input.key_escape {
                    Ok(Frame { request: Request::LoadMenu, ..nothing })
                } else if input.key_start {
                    self.game_state = GameState::Playing;
                    self.level.timer_on = true;
                    Ok(nothing)
                } else {
                    Ok(nothing)
                }
            },
        }
    }
}

} // verus!
