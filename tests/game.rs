use target_shooter::constants::{GAME_TIME, MAX_EVIL_TARGETS, MAX_HERO_TARGETS};
use target_shooter::game::{FrameOutcome, Game, Image, Mode};
use target_shooter::placement::pos_is_okay;
use target_shooter::random::{Cmwc, MTRng32, Rng};
use target_shooter::shooter::Target;

fn running_game<R: Rng>(rng: R, now: u64) -> Game<R> {
    let mut g = Game::new(rng, now);
    g.start((300, 100), now);
    g
}

fn target(x: u16, y: u16, bounty: u16, birthday: u64, lifetime: u64) -> Target {
    Target::new(x, y, 50, 50, bounty, birthday, lifetime)
}

#[test]
fn new_game_waits_for_start() {
    let g = Game::new(MTRng32::new(1), 77);
    assert_eq!(g.mode, Mode::Idle);
    assert_eq!(g.countdown, GAME_TIME);
    assert_eq!(g.score, 0);
    assert_eq!(g.highscore, 0);
    assert!(g.evil_targets.is_empty() && g.hero_targets.is_empty());
}

#[test]
fn start_picks_skin_by_half() {
    let mut g = Game::new(MTRng32::new(1), 0);
    g.start((300, 10), 5);
    assert_eq!(g.mode, Mode::Running);
    assert_eq!(
        (g.hero_target_img, g.super_target_img, g.evil_target_img),
        (Image::Mexican, Image::SuperTrump, Image::Trump)
    );
    assert!(g.super_target_hiding_duration >= 5000 && g.super_target_hiding_duration < 10000);
    assert_eq!(g.last_super_target_render_time, 5);
    let mut h = Game::new(MTRng32::new(1), 0);
    h.start((240, 10), 5);
    assert_eq!(
        (h.hero_target_img, h.super_target_img, h.evil_target_img),
        (Image::Trump, Image::SuperMexican, Image::Mexican)
    );
}

#[test]
fn expiry_boundary() {
    let mut g = running_game(MTRng32::new(4), 0);
    g.evil_targets.push(target(200, 100, 50, 1000, 500));
    g.hero_targets.push(target(300, 100, 70, 1000, 500));
    g.tick = 1500;
    let (e, h) = g.purge_old_targets();
    assert!(e.is_empty() && h.is_empty());
    assert_eq!(g.evil_targets.len(), 1);
    assert_eq!(g.hero_targets.len(), 1);
    g.tick = 1501;
    let (e, h) = g.purge_old_targets();
    assert_eq!(e.len(), 1);
    assert_eq!(h.len(), 1);
    assert!(g.evil_targets.is_empty() && g.hero_targets.is_empty());
}

#[test]
fn purge_keeps_order_of_survivors() {
    let mut g = running_game(MTRng32::new(4), 0);
    g.evil_targets.push(target(100, 100, 50, 0, 100));
    g.evil_targets.push(target(200, 100, 50, 0, 5000));
    g.evil_targets.push(target(300, 100, 50, 0, 10));
    g.evil_targets.push(target(100, 200, 50, 0, 6000));
    g.tick = 1000;
    let (e, _) = g.purge_old_targets();
    assert_eq!(e.iter().map(|t| t.x).collect::<Vec<_>>(), vec![100, 300]);
    assert_eq!(g.evil_targets.iter().map(|t| (t.x, t.y)).collect::<Vec<_>>(), vec![(200, 100), (100, 200)]);
}

fn check_fill<R: Rng>(rng: R) {
    let mut g = running_game(rng, 0);
    g.update_countdown(100);
    assert!(g.draw_missing_targets().is_ok());
    assert_eq!(g.evil_targets.len(), MAX_EVIL_TARGETS);
    assert_eq!(g.hero_targets.len(), MAX_HERO_TARGETS);
    for (k, t) in g.evil_targets.iter().enumerate() {
        assert!(pos_is_okay((t.x, t.y), &[], &g.evil_targets[..k]));
        assert_eq!(t.birthday, 100);
        assert_eq!((t.width, t.height), (50, 50));
        assert_eq!(t.bounty, 50);
        assert!(t.lifetime >= 3000 && t.lifetime < 5000);
    }
    for (k, t) in g.hero_targets.iter().enumerate() {
        assert!(pos_is_okay((t.x, t.y), &g.hero_targets[..k], &g.evil_targets));
        assert_eq!(t.bounty, 70);
        assert!(t.lifetime >= 3000 && t.lifetime < 5000);
    }
    // a second fill adds nothing
    let before = (g.evil_targets.clone(), g.hero_targets.clone());
    assert!(g.draw_missing_targets().is_ok());
    assert_eq!((g.evil_targets.clone(), g.hero_targets.clone()), before);
}

#[test]
fn fill_reaches_capacity_mt() {
    check_fill(MTRng32::new(2024));
}

#[test]
fn fill_reaches_capacity_cmwc() {
    check_fill(Cmwc::new(2024));
}

#[test]
fn fill_tops_up_after_removal() {
    let mut g = running_game(MTRng32::new(8), 0);
    g.update_countdown(10);
    assert!(g.draw_missing_targets().is_ok());
    let kept = g.evil_targets[1];
    g.evil_targets.remove(0);
    g.hero_targets.truncate(2);
    g.tick = 20;
    assert!(g.draw_missing_targets().is_ok());
    assert_eq!(g.evil_targets.len(), 4);
    assert_eq!(g.hero_targets.len(), 6);
    assert_eq!(g.evil_targets[0], kept);
    assert_eq!(g.evil_targets[3].birthday, 20);
    assert_eq!(g.hero_targets[5].birthday, 20);
}

fn super_schedule<R: Rng>(rng: R) {
    let mut g = running_game(rng, 0);
    g.last_super_target_render_time = 10_000;
    g.super_target_hiding_duration = 5_000;
    // before T0 + D: no super target
    g.tick = 14_999;
    assert!(g.draw_missing_targets().is_ok());
    assert!(g.evil_targets.iter().all(|t| t.bounty == 50));
    assert_eq!(g.last_super_target_render_time, 10_000);
    assert_eq!(g.super_target_hiding_duration, 5_000);
    // at T0 + D: exactly one, the first one spawned
    g.evil_targets.clear();
    g.hero_targets.clear();
    g.tick = 15_000;
    assert!(g.draw_missing_targets().is_ok());
    let supers: Vec<&Target> = g.evil_targets.iter().filter(|t| t.bounty == 100).collect();
    assert_eq!(supers.len(), 1);
    assert_eq!(g.evil_targets[0].bounty, 100);
    assert_eq!(g.evil_targets[0].lifetime, 2000);
    assert_eq!(g.last_super_target_render_time, 15_000);
    assert!(g.super_target_hiding_duration >= 5_000 && g.super_target_hiding_duration < 10_000);
    // right after: none until the new hiding duration has passed
    g.evil_targets.clear();
    g.tick = 15_001;
    assert!(g.draw_missing_targets().is_ok());
    assert!(g.evil_targets.iter().all(|t| t.bounty == 50));
}

#[test]
fn super_reveal_schedule_mt() {
    super_schedule(MTRng32::new(77));
}

#[test]
fn super_reveal_schedule_cmwc() {
    super_schedule(Cmwc::new(77));
}

#[test]
fn shooting_is_gated_by_volume() {
    let mut g = running_game(MTRng32::new(4), 0);
    g.evil_targets.push(target(200, 100, 50, 0, 4000));
    let touches = vec![(210u16, 110u16)];
    let r = g.process_shooting(&touches, (100, -100));
    assert!(r.evil_hit.is_empty() && !r.toggled_silent);
    assert_eq!(g.evil_targets.len(), 1);
    assert_eq!(g.score, 0);
    let r = g.process_shooting(&touches, (100, -2500));
    assert_eq!(r.evil_hit.len(), 1);
    assert!(g.evil_targets.is_empty());
    assert_eq!(g.score, 50);
}

#[test]
fn shooting_scores_and_floors() {
    let mut g = running_game(MTRng32::new(4), 0);
    g.score = 20;
    g.hero_targets.push(target(200, 100, 70, 0, 4000));
    g.hero_targets.push(target(300, 100, 70, 0, 4000));
    g.evil_targets.push(target(100, 100, 50, 0, 4000));
    // one touch inside the first hero target, two inside the second
    let touches = vec![(210u16, 110u16), (310, 110), (320, 120)];
    let r = g.process_shooting(&touches, (3000, 0));
    assert_eq!(r.hero_hit.len(), 2);
    assert!(r.evil_hit.is_empty());
    assert_eq!(g.score, 0);
    assert!(g.hero_targets.is_empty());
    assert_eq!(g.evil_targets.len(), 1);
}

#[test]
fn evil_then_hero_in_one_round() {
    let mut g = running_game(MTRng32::new(4), 0);
    g.score = 20;
    g.evil_targets.push(target(100, 100, 50, 0, 4000));
    g.hero_targets.push(target(300, 100, 70, 0, 4000));
    let touches = vec![(110u16, 110u16), (310, 110)];
    g.process_shooting(&touches, (3000, 0));
    // 20 + 50 - 70 = 0
    assert_eq!(g.score, 0);
    g.score = 30;
    g.evil_targets.push(target(100, 100, 100, 0, 4000));
    g.hero_targets.push(target(300, 100, 70, 0, 4000));
    g.process_shooting(&touches, (3000, 0));
    assert_eq!(g.score, 60);
}

#[test]
fn mute_button_toggles_and_bypasses_volume() {
    let mut g = running_game(MTRng32::new(4), 0);
    g.evil_targets.push(target(200, 100, 50, 0, 4000));
    let touches = vec![(10u16, 250u16), (210, 110)];
    let r = g.process_shooting(&touches, (0, 0));
    assert!(r.toggled_silent);
    assert!(g.silent_mode);
    assert_eq!(r.evil_hit.len(), 1);
    assert_eq!(g.score, 50);
    let r = g.process_shooting(&[(5, 260)], (0, 0));
    assert!(r.toggled_silent);
    assert!(!g.silent_mode);
}

#[test]
fn volume_threshold() {
    assert!(Game::<MTRng32>::vol_limit_reached(-2001, 0));
    assert!(Game::<MTRng32>::vol_limit_reached(0, 2001));
    assert!(!Game::<MTRng32>::vol_limit_reached(2000, -2000));
    assert!(Game::<MTRng32>::vol_limit_reached(i16::MIN, 0));
}

#[test]
fn mute_button_zone() {
    assert!(Game::<MTRng32>::silent_btn_touched(&[(0, 232)]));
    assert!(Game::<MTRng32>::silent_btn_touched(&[(300, 10), (40, 271)]));
    assert!(!Game::<MTRng32>::silent_btn_touched(&[(41, 250)]));
    assert!(!Game::<MTRng32>::silent_btn_touched(&[(10, 231)]));
    assert!(!Game::<MTRng32>::silent_btn_touched(&[]));
}

#[test]
fn countdown_steps_at_most_once_per_interval() {
    let mut g = running_game(MTRng32::new(4), 0);
    assert_eq!(g.update_countdown(999), 30);
    assert_eq!(g.update_countdown(1000), 29);
    assert_eq!(g.update_countdown(1999), 29);
    assert_eq!(g.update_countdown(5000), 28);
    g.countdown = 0;
    assert_eq!(g.update_countdown(10_000), 0);
}

#[test]
fn game_over_keeps_best_score() {
    let mut g = running_game(MTRng32::new(4), 0);
    g.highscore = 80;
    g.score = 120;
    g.evil_targets.push(target(200, 100, 50, 0, 4000));
    let r = g.game_over();
    assert_eq!((r.score, r.highscore), (120, 120));
    assert_eq!(r.cleared_evil.len(), 1);
    assert_eq!(g.score, 0);
    assert_eq!(g.countdown, 0);
    assert!(g.evil_targets.is_empty());
    assert_eq!(g.mode, Mode::GameOver);
    g.score = 50;
    let r = g.game_over();
    assert_eq!((r.score, r.highscore), (50, 120));
}

#[test]
fn end_to_end_session() {
    let mut g = Game::new(MTRng32::new(2718), 0);
    g.highscore = 80;
    // the first touch starts a round
    assert!(matches!(g.frame(0, &[(400, 100)], (0, 0)), FrameOutcome::Started));
    assert_eq!(g.mode, Mode::Running);
    assert_eq!(g.countdown, 30);
    let mut now = 0u64;
    for step in 1..30u16 {
        now += 1000;
        match g.frame(now, &[], (0, 0)) {
            FrameOutcome::Played { countdown, spawned, .. } => {
                assert_eq!(countdown, 30 - step);
                assert!(spawned.is_ok());
            }
            _ => panic!("round ended early"),
        }
        assert_eq!(g.evil_targets.len() + g.hero_targets.len() > 0, true);
    }
    assert_eq!(g.countdown, 1);
    g.score = 120;
    now += 1000;
    match g.frame(now, &[], (0, 0)) {
        FrameOutcome::Over(rep) => {
            assert_eq!(rep.score, 120);
            assert_eq!(rep.highscore, 120);
        }
        _ => panic!("round should be over"),
    }
    assert_eq!(g.mode, Mode::GameOver);
    assert_eq!(g.highscore, 120);
    assert_eq!(g.countdown, 0);
    assert!(g.evil_targets.is_empty() && g.hero_targets.is_empty());
    // afterwards: one touch is swallowed, the next shows the start banner,
    // the third starts a new round
    assert!(matches!(g.frame(now + 1, &[], (0, 0)), FrameOutcome::Waiting));
    assert_eq!(g.mode, Mode::Idle);
    assert!(matches!(g.frame(now + 2, &[(10, 10)], (0, 0)), FrameOutcome::Debounced));
    assert!(matches!(g.frame(now + 3, &[(10, 10)], (0, 0)), FrameOutcome::ShowStartBanner));
    assert!(matches!(g.frame(now + 4, &[(10, 10)], (0, 0)), FrameOutcome::Started));
    assert_eq!(g.mode, Mode::Running);
    assert_eq!(g.countdown, 30);
    assert_eq!(g.hero_target_img, Image::Trump);
}

#[test]
fn end_to_end_lower_score_keeps_highscore() {
    let mut g = running_game(Cmwc::new(1), 0);
    g.highscore = 500;
    g.score = 70;
    let mut now = 0;
    let mut over = None;
    for _ in 0..30 {
        now += 1000;
        if let FrameOutcome::Over(rep) = g.frame(now, &[], (0, 0)) {
            over = Some(rep);
        }
    }
    let rep = over.expect("round ends after thirty steps");
    assert_eq!(rep.score, 70);
    assert_eq!(rep.highscore, 500);
    assert_eq!(g.highscore, 500);
}

#[test]
fn mute_touch_is_not_a_shot() {
    let mut g = running_game(MTRng32::new(4), 0);
    // a target placed by hand over the mute button
    g.hero_targets.push(target(0, 222, 70, 0, 4000));
    g.score = 100;
    let r = g.process_shooting(&[(10, 250)], (0, 0));
    assert!(r.toggled_silent);
    assert!(r.hero_hit.is_empty());
    assert_eq!(g.hero_targets.len(), 1);
    assert_eq!(g.score, 100);
    assert_eq!(
        Game::<MTRng32>::touches_off_button(&[(10, 250), (100, 100), (40, 232), (41, 232)]),
        vec![(100, 100), (41, 232)]
    );
}

#[test]
fn first_frame_reports_spawned_targets() {
    let mut g = Game::new(Cmwc::new(31), 0);
    assert!(matches!(g.frame(0, &[(100, 100)], (0, 0)), FrameOutcome::Started));
    match g.frame(10, &[], (0, 0)) {
        FrameOutcome::Played { countdown, spawned, spawned_evil, spawned_hero, .. } => {
            assert_eq!(countdown, 30);
            assert!(spawned.is_ok());
            assert_eq!(spawned_evil.len(), 4);
            assert_eq!(spawned_hero.len(), 6);
            assert_eq!(spawned_evil, g.evil_targets);
            assert_eq!(spawned_hero, g.hero_targets);
        }
        _ => panic!("expected a frame of play"),
    }
}

#[test]
fn frame_of_play_scores_and_expires() {
    let mut g = Game::new(MTRng32::new(99), 0);
    assert!(matches!(g.frame(0, &[(100, 100)], (0, 0)), FrameOutcome::Started));
    // first frame of play fills the display
    assert!(matches!(g.frame(10, &[], (0, 0)), FrameOutcome::Played { .. }));
    let evil = g.evil_targets[0];
    let hero = g.hero_targets[0];
    // a quiet shot hits nothing
    let quiet = vec![(evil.x + 1, evil.y + 1)];
    match g.frame(20, &quiet, (10, -10)) {
        FrameOutcome::Played { shots, spawned_evil, .. } => {
            assert!(shots.evil_hit.is_empty() && shots.hero_hit.is_empty());
            assert!(spawned_evil.is_empty());
        }
        _ => panic!("expected a frame of play"),
    }
    assert_eq!(g.score, 0);
    // a loud shot on one evil and one hero target
    let both = vec![(evil.x + 1, evil.y + 1), (hero.x + 1, hero.y + 1)];
    match g.frame(30, &both, (-3000, 0)) {
        FrameOutcome::Played { shots, .. } => {
            assert_eq!(shots.evil_hit, vec![evil]);
            assert_eq!(shots.hero_hit, vec![hero]);
        }
        _ => panic!("expected a frame of play"),
    }
    // 0 + 50 - 70 floors at zero
    assert_eq!(g.score, 0);
    assert!(!g.evil_targets.contains(&evil));
    // the next frame refills both collections
    match g.frame(40, &[], (0, 0)) {
        FrameOutcome::Played { spawned_evil, spawned_hero, .. } => {
            assert_eq!(spawned_evil.len(), 1);
            assert_eq!(spawned_hero.len(), 1);
        }
        _ => panic!("expected a frame of play"),
    }
    // long after, every target of the first fill has expired
    match g.frame(6000, &[], (0, 0)) {
        FrameOutcome::Played { expired_evil, expired_hero, countdown, .. } => {
            assert!(!expired_evil.is_empty() && !expired_hero.is_empty());
            assert_eq!(countdown, 29);
        }
        _ => panic!("expected a frame of play"),
    }
}
