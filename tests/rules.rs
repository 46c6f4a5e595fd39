use macroquad::rand::srand;
use rusty_hitman::character::{rand_color, Character, Tint};
use rusty_hitman::config::{part_name, variant_count, PART_COUNT};
use rusty_hitman::level::{equal_on, judge_draw, pick_hint_parts, sort_three, Band, Level, Verdict, TRAIT_TRIES};
use rusty_hitman::scoring::{crowd_size, first_spawn_delay, score_delta};

fn member(x: i32, y: i32) -> Character {
    Character {
        x,
        y,
        traits: [0; PART_COUNT],
        color: Tint::Blue,
        is_target: false,
        spawned: true,
        dead: false,
    }
}

#[test]
fn score_delta_formula() {
    // 100 + 10k + (100 + 10k) * r / 10 points, in thousandths
    assert_eq!(score_delta(0, 7000), 170_000);
    assert_eq!(score_delta(0, 10_000), 200_000);
    assert_eq!(score_delta(0, 0), 100_000);
    assert_eq!(score_delta(0, -250), 100_000);
    assert_eq!(score_delta(4, 5000), 210_000);
    assert_eq!(score_delta(3, 1234), 130_000 + 16_042);
}

#[test]
fn crowd_size_steps() {
    assert_eq!(crowd_size(0), 3);
    assert_eq!(crowd_size(4), 3);
    assert_eq!(crowd_size(5), 4);
    assert_eq!(crowd_size(6), 4);
    assert_eq!(crowd_size(34), 9);
    assert_eq!(crowd_size(35), 10);
    assert_eq!(crowd_size(1000), 10);
}

#[test]
fn first_spawn_delay_clamps() {
    assert_eq!(first_spawn_delay(0), 1000);
    assert_eq!(first_spawn_delay(1), 950);
    assert_eq!(first_spawn_delay(10), 500);
    assert_eq!(first_spawn_delay(18), 100);
    assert_eq!(first_spawn_delay(17), 150);
    assert_eq!(first_spawn_delay(500), 100);
}

#[test]
fn hit_box_leaves_top_band() {
    let c = member(100, 200);
    assert!(c.hit_test(100, 220));
    assert!(c.hit_test(220, 320));
    assert!(c.hit_test(160, 260));
    assert!(!c.hit_test(160, 219));
    assert!(!c.hit_test(99, 260));
    assert!(!c.hit_test(221, 260));
    assert!(!c.hit_test(160, 321));
}

#[test]
fn first_hit_in_draw_order() {
    let mut l = Level::init();
    let mut a = member(100, 100);
    a.traits = [1, 1, 1, 1, 1];
    let mut b = member(150, 150);
    b.is_target = true;
    let hidden = Character { spawned: false, ..member(100, 100) };
    l.crowd = vec![hidden, a, b];
    l.crowd_iter = 3;
    l.timer_on = true;
    // overlapping box: the first spawned member in stored order is shot
    assert_eq!(l.check_target_click(160, 200), rusty_hitman::level::HitOutcome::WrongHit);
    assert!(l.crowd[1].dead);
    assert!(!l.crowd[0].dead);
    // only the target is under this point
    assert_eq!(l.check_target_click(260, 265), rusty_hitman::level::HitOutcome::TargetHit);
    assert!(l.crowd[2].dead);
    assert_eq!(l.check_target_click(900, 900), rusty_hitman::level::HitOutcome::NoHit);
    l.timer_on = false;
    assert_eq!(l.check_target_click(260, 265), rusty_hitman::level::HitOutcome::NoHit);
}

#[test]
fn spawn_cadence() {
    let mut l = Level::init();
    l.crowd = vec![Character { spawned: false, ..member(0, 0) }; 2];
    l.spawn_timer = 300;
    assert!(!l.advance_spawn(299));
    assert_eq!(l.spawn_timer, 1);
    assert!(l.advance_spawn(1));
    assert!(l.crowd[0].spawned && !l.crowd[1].spawned);
    assert_eq!(l.spawn_timer, 200);
    assert!(!l.timer_on);
    assert!(l.advance_spawn(500));
    assert!(l.crowd[1].spawned);
    assert!(l.timer_on);
    assert!(!l.advance_spawn(500));
    assert_eq!(l.crowd_iter, 2);
}

#[test]
fn round_timer() {
    let mut l = Level::init();
    assert!(!l.advance_timer(100));
    assert_eq!(l.timer, 10_000);
    l.timer_on = true;
    assert!(!l.advance_timer(9_999));
    assert_eq!(l.timer, 1);
    assert!(l.advance_timer(50));
    assert_eq!(l.timer, -49);
    assert!(l.advance_timer(50));
    assert_eq!(l.timer, -99);
}

#[test]
fn progress_and_band() {
    let mut l = Level::init();
    assert_eq!(l.progress_permille(), 1000);
    assert_eq!(l.bar_band(), Band::Green);
    l.timer = 6667;
    assert_eq!(l.bar_band(), Band::Green);
    l.timer = 6666;
    assert_eq!(l.bar_band(), Band::Yellow);
    assert_eq!(l.progress_permille(), 666);
    l.timer = 3334;
    assert_eq!(l.bar_band(), Band::Yellow);
    l.timer = 3333;
    assert_eq!(l.bar_band(), Band::Red);
    l.timer = -20;
    assert_eq!(l.progress_permille(), 0);
    assert_eq!(l.bar_band(), Band::Red);
}

#[test]
fn trait_agreement() {
    let parts = vec![0, 2, 4];
    assert!(equal_on(&parts, &[1, 2, 3, 4, 0], &[1, 9, 3, 9, 0]));
    assert!(!equal_on(&parts, &[1, 2, 3, 4, 0], &[1, 2, 3, 4, 1]));
    assert!(equal_on(&vec![], &[1, 2, 3, 4, 0], &[0, 0, 0, 0, 0]));
}

#[test]
fn sorting_three() {
    assert_eq!(sort_three(4, 0, 2), vec![0, 2, 4]);
    assert_eq!(sort_three(1, 3, 2), vec![1, 2, 3]);
    assert_eq!(sort_three(3, 2, 1), vec![1, 2, 3]);
}

#[test]
fn hint_parts_are_three_sorted_distinct() {
    srand(11);
    let mut seen = std::collections::HashSet::new();
    for _ in 0..200 {
        let h = pick_hint_parts();
        assert_eq!(h.len(), 3);
        assert!(h[0] < h[1] && h[1] < h[2] && h[2] < PART_COUNT);
        seen.insert(h);
    }
    // the shuffle picks more than one subset
    assert!(seen.len() > 1);
}

#[test]
fn trait_space_and_names() {
    let counts: Vec<usize> = (0..PART_COUNT).map(variant_count).collect();
    assert_eq!(counts, vec![9, 10, 13, 10, 5]);
    assert_eq!(part_name(0), "Arms");
    assert_eq!(part_name(3), "Hat");
    assert_eq!(part_name(4), "Legs");
}

#[test]
fn palette_draws_vary() {
    srand(12);
    let mut seen = std::collections::HashSet::new();
    for _ in 0..200 {
        seen.insert(format!("{:?}", rand_color()));
    }
    assert_eq!(seen.len(), 5);
}

#[test]
fn new_character_is_plain() {
    srand(13);
    let c = Character::init(10, 20, [1, 2, 3, 4, 0]);
    assert_eq!((c.x, c.y), (10, 20));
    assert_eq!(c.traits, [1, 2, 3, 4, 0]);
    assert!(!c.is_target && !c.spawned && !c.dead);
}

#[test]
fn rejection_verdicts() {
    let parts = vec![0, 2, 4];
    let target = [1, 2, 3, 4, 0];
    assert_eq!(judge_draw(&[1, 9, 3, 9, 1], &target, &parts, 0), Verdict::Accept);
    assert_eq!(judge_draw(&[1, 9, 3, 9, 0], &target, &parts, 0), Verdict::Retry);
    assert_eq!(judge_draw(&[1, 9, 3, 9, 0], &target, &parts, TRAIT_TRIES - 2), Verdict::Retry);
    assert_eq!(judge_draw(&[1, 9, 3, 9, 0], &target, &parts, TRAIT_TRIES - 1), Verdict::GiveUp);
    assert_eq!(judge_draw(&[0, 9, 3, 9, 0], &target, &parts, TRAIT_TRIES - 1), Verdict::Accept);
}

#[test]
fn new_level_is_blank() {
    let l = Level::init();
    assert_eq!(l.target_traits, [0; PART_COUNT]);
    assert!(l.crowd.is_empty() && l.unique_traits_indices.is_empty());
}
