use macroquad::rand::srand;
use rusty_hitman::config::{CHAR_HEIGHT, CHAR_WIDTH, LEVEL_TIME_MS};
use rusty_hitman::game::{FrameInput, Game, GameState, Request};
use rusty_hitman::level::HitOutcome;
use rusty_hitman::record::StoredTotal;
use rusty_hitman::scoring::Score;

fn idle() -> FrameInput {
    FrameInput { click: false, mouse_x: 0, mouse_y: 0, key_start: false, key_escape: false }
}

fn start() -> FrameInput {
    FrameInput { key_start: true, ..idle() }
}

fn click_at(x: i32, y: i32) -> FrameInput {
    FrameInput { click: true, mouse_x: x, mouse_y: y, ..idle() }
}

/// A game in its first round, seeded with `seed`.
fn first_round(seed: u64) -> Game {
    srand(seed);
    let mut g = Game::init(None).unwrap();
    assert_eq!(g.game_state, GameState::Menu);
    g.update(16, start()).unwrap();
    assert_eq!(g.game_state, GameState::Playing);
    g
}

/// Steps frames of 100 ms until the whole crowd has spawned.
fn spawn_all(g: &mut Game) {
    let mut frames = 0;
    while !g.level.timer_on {
        let f = g.update(100, idle()).unwrap();
        assert_eq!(f.hit, HitOutcome::NoHit);
        frames += 1;
        assert!(frames < 100);
    }
    assert!(g.level.crowd.iter().all(|c| c.spawned));
}

/// The middle of a member's hittable box.
fn centre(g: &Game, i: usize) -> (i32, i32) {
    let c = &g.level.crowd[i];
    (c.x + CHAR_WIDTH / 2, c.y + CHAR_HEIGHT / 2 + 10)
}

fn target(g: &Game) -> usize {
    g.level.target_index().unwrap()
}

#[test]
fn happy_round() {
    let mut g = first_round(1);
    assert_eq!(g.level.crowd.len(), 3);
    spawn_all(&mut g);
    g.level.timer = 7000;
    let (x, y) = centre(&g, target(&g));
    let f = g.update(0, click_at(x, y)).unwrap();
    assert_eq!(f.hit, HitOutcome::TargetHit);
    assert_eq!(g.score, Score { level: 1, total: 170_000 });
    assert_eq!(g.game_state, GameState::Transition(true));
    assert!(!g.level.timer_on);
    g.update(499, idle()).unwrap();
    assert_eq!(g.game_state, GameState::Transition(true));
    g.update(1, idle()).unwrap();
    assert_eq!(g.game_state, GameState::Playing);
    assert_eq!(g.level.crowd.len(), 3);
    assert_eq!(g.level.timer, LEVEL_TIME_MS);
}

#[test]
fn wrong_click() {
    let mut g = first_round(1);
    spawn_all(&mut g);
    let t = target(&g);
    let other = (0..g.level.crowd.len()).find(|&i| i != t).unwrap();
    let (x, y) = centre(&g, other);
    let f = g.update(0, click_at(x, y)).unwrap();
    assert_eq!(f.hit, HitOutcome::WrongHit);
    assert!(g.level.crowd[other].dead);
    assert_eq!(g.game_state, GameState::Transition(false));
    assert_eq!(g.score, Score { level: 0, total: 0 });
    let f = g.update(2999, idle()).unwrap();
    assert_eq!(f.request, Request::Nothing);
    let f = g.update(1, idle()).unwrap();
    assert_eq!(f.request, Request::StoreGameOver);
    g.set_game_over(StoredTotal::Absent);
    assert_eq!(g.game_state, GameState::GameOver);
}

#[test]
fn time_out() {
    let mut g = first_round(2);
    spawn_all(&mut g);
    let left = g.level.timer;
    let f = g.update((left - 1) as u32, idle()).unwrap();
    assert!(!f.expired);
    assert_eq!(g.game_state, GameState::Playing);
    let f = g.update(1, idle()).unwrap();
    assert!(f.expired);
    assert_eq!(g.level.timer, 0);
    assert_eq!(g.game_state, GameState::Transition(false));
    let f = g.update(3000, idle()).unwrap();
    assert_eq!(f.request, Request::StoreGameOver);
    g.set_game_over(StoredTotal::Total(0));
    assert_eq!(g.game_state, GameState::GameOver);
}

#[test]
fn difficulty_ramp() {
    let mut g = first_round(3);
    for k in 0..6u64 {
        spawn_all(&mut g);
        g.level.timer = LEVEL_TIME_MS;
        let (x, y) = centre(&g, target(&g));
        let f = g.update(0, click_at(x, y)).unwrap();
        assert_eq!(f.hit, HitOutcome::TargetHit);
        assert_eq!(g.score.level, k + 1);
        g.update(500, idle()).unwrap();
        assert_eq!(g.game_state, GameState::Playing);
    }
    assert_eq!(g.score.level, 6);
    // each target brought (10 + k) * 20000 thousandths of a point
    let expected: u64 = (0..6u64).map(|k| (10 + k) * 20_000).sum();
    assert_eq!(g.score.total, expected);
    assert_eq!(g.level.crowd.len(), 4);
}

#[test]
fn pre_spawn_click_is_free() {
    let mut g = first_round(4);
    assert!(!g.level.timer_on);
    for i in 0..g.level.crowd.len() {
        let (x, y) = centre(&g, i);
        let f = g.update(0, click_at(x, y)).unwrap();
        assert_eq!(f.hit, HitOutcome::NoHit);
        assert_eq!(g.game_state, GameState::Playing);
    }
    assert!(g.level.crowd.iter().all(|c| !c.dead));
}

#[test]
fn highscore_persistence() {
    srand(5);
    let mut g = Game::init(None).unwrap();
    g.score = Score { level: 7, total: 1_234_500 };
    g.game_state = GameState::Transition(false);
    g.transition_timer = 0;
    let f = g.update(16, idle()).unwrap();
    assert_eq!(f.request, Request::StoreGameOver);
    assert!(g.set_game_over(StoredTotal::Absent));
    let stored = g.score;
    g.set_menu(Some(stored)).unwrap();
    assert_eq!(g.game_state, GameState::Menu);
    assert_eq!(g.highscore.unwrap().total, 1_234_500);
    assert_eq!(g.score, Score { level: 0, total: 0 });

    // a lower run is not stored and keeps the highscore
    g.score = Score { level: 2, total: 400_000 };
    assert!(!g.set_game_over(StoredTotal::Total(stored.total)));
    assert_eq!(g.highscore.unwrap().total, 1_234_500);
    g.set_menu(None).unwrap();
    assert_eq!(g.highscore.unwrap().total, 1_234_500);
    // an equal run is not stored either
    g.score = stored;
    assert!(!g.set_game_over(StoredTotal::Total(stored.total)));
}

#[test]
fn pause_and_resume() {
    let mut g = first_round(6);
    spawn_all(&mut g);
    let before = g.level.timer;
    g.update(0, FrameInput { key_escape: true, ..idle() }).unwrap();
    assert_eq!(g.game_state, GameState::Paused);
    assert!(!g.level.timer_on);
    g.update(5000, idle()).unwrap();
    assert_eq!(g.level.timer, before);
    g.update(0, start()).unwrap();
    assert_eq!(g.game_state, GameState::Playing);
    assert!(g.level.timer_on);
    let f = g.update(0, FrameInput { key_escape: true, ..idle() }).unwrap();
    assert_eq!(f.request, Request::Nothing);
    let f = g.update(0, FrameInput { key_escape: true, ..idle() }).unwrap();
    assert_eq!(f.request, Request::LoadMenu);
}

#[test]
fn menu_and_game_over_keys() {
    srand(7);
    let mut g = Game::init(None).unwrap();
    assert_eq!(g.level.crowd.len(), 200);
    assert!(g.level.crowd.iter().all(|c| c.spawned));
    let f = g.update(16, FrameInput { key_escape: true, ..idle() }).unwrap();
    assert_eq!(f.request, Request::ConfirmQuit);
    assert_eq!(g.game_state, GameState::Menu);
    g.game_state = GameState::GameOver;
    g.score = Score { level: 12, total: 5_000_000 };
    let f = g.update(16, FrameInput { key_escape: true, ..idle() }).unwrap();
    assert_eq!(f.request, Request::LoadMenu);
    g.update(16, start()).unwrap();
    assert_eq!(g.game_state, GameState::Playing);
    assert_eq!(g.score, Score { level: 0, total: 0 });
    assert_eq!(g.level.crowd.len(), 3);
    assert_eq!(g.level.spawn_timer, 1000);
}

#[test]
fn new_highscore_flag() {
    srand(8);
    let mut g = Game::init(None).unwrap();
    assert!(!g.is_new_highscore());
    g.score = Score { level: 3, total: 600_000 };
    assert!(g.set_game_over(StoredTotal::Absent));
    assert!(g.is_new_highscore());
    g.score = Score { level: 1, total: 100_000 };
    assert!(!g.is_new_highscore());
}

#[test]
fn failure_freeze_reveals_the_target() {
    let mut g = first_round(9);
    let t = target(&g);
    g.level.crowd[t].spawned = false;
    g.game_state = GameState::Transition(false);
    g.level.timer_on = false;
    g.transition_timer = 10;
    let f = g.update(10, idle()).unwrap();
    assert_eq!(f.request, Request::StoreGameOver);
    assert!(g.level.crowd[t].spawned);
    assert_eq!(g.game_state, GameState::Transition(false));
}

#[test]
fn unreadable_store_keeps_the_highscore() {
    srand(10);
    let mut g = Game::init(Some(Score { level: 2, total: 300_000 })).unwrap();
    g.score = Score { level: 9, total: 2_000_000 };
    assert!(!g.set_game_over(StoredTotal::Unreadable));
    assert_eq!(g.game_state, GameState::GameOver);
    assert_eq!(g.highscore, Some(Score { level: 2, total: 300_000 }));
}

#[test]
fn clicks_outside_play_are_ignored() {
    srand(14);
    let mut g = Game::init(None).unwrap();
    let (x, y) = centre(&g, 0);
    let f = g.update(16, click_at(x, y)).unwrap();
    assert_eq!(f.hit, HitOutcome::NoHit);
    assert_eq!(g.game_state, GameState::Menu);
    assert!(g.level.crowd.iter().all(|c| !c.dead));
}

#[test]
fn targets_past_the_counting_limit_score_nothing() {
    let mut g = first_round(15);
    spawn_all(&mut g);
    let cap = rusty_hitman::scoring::MAX_LEVEL;
    g.score = Score { level: cap, total: 5 };
    let (x, y) = centre(&g, target(&g));
    let f = g.update(0, click_at(x, y)).unwrap();
    assert_eq!(f.hit, HitOutcome::TargetHit);
    assert_eq!(g.score, Score { level: cap, total: 5 });
    assert_eq!(g.game_state, GameState::Transition(true));
}
