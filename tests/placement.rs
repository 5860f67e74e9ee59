use target_shooter::placement::{
    are_overlapping_targets, get_random_pos, get_rnd_pos, point_is_within, pos_is_okay,
};
use target_shooter::random::{Cmwc, MTRng32};
use target_shooter::shooter::Target;

fn target(x: u16, y: u16, w: u16, h: u16) -> Target {
    Target::new(x, y, w, h, 50, 0, 4000)
}

#[test]
fn point_within_is_inclusive() {
    assert!(point_is_within((10, 10), (10, 10), (20, 20)));
    assert!(point_is_within((20, 20), (10, 10), (20, 20)));
    assert!(!point_is_within((21, 20), (10, 10), (20, 20)));
}

#[test]
fn free_position_is_okay() {
    assert!(pos_is_okay((200, 100), &[], &[]));
}

#[test]
fn score_display_is_excluded() {
    assert!(!pos_is_okay((0, 0), &[], &[]));
    // upper-left corner (30, 0) lies in the score display
    assert!(!pos_is_okay((30, 0), &[], &[]));
    assert!(pos_is_okay((73, 0), &[], &[]));
}

#[test]
fn countdown_display_is_excluded() {
    // upper-right corner (479, 0) lies in the countdown display
    assert!(!pos_is_okay((429, 0), &[], &[]));
    assert!(pos_is_okay((429, 25), &[], &[]));
}

#[test]
fn mute_button_is_excluded() {
    // lower-left corner (0, 271) lies on the mute button
    assert!(!pos_is_okay((0, 221), &[], &[]));
    assert!(pos_is_okay((41, 221), &[], &[]));
}

#[test]
fn corner_inside_existing_target_is_rejected() {
    let hero = vec![target(120, 120, 50, 50)];
    assert!(!pos_is_okay((100, 100), &hero, &[]));
    assert!(!pos_is_okay((100, 100), &[], &hero));
    assert!(are_overlapping_targets(&hero[0], (100, 100)));
    // touching edges count: the rectangles are closed
    assert!(!pos_is_okay((170, 170), &hero, &[]));
    assert!(pos_is_okay((171, 171), &hero, &[]));
}

#[test]
fn contained_target_without_shared_corner_is_not_detected() {
    // a small target fully inside the candidate has none of the candidate's
    // corners inside it: the corner test lets this overlap through
    let small = vec![target(110, 110, 10, 10)];
    assert!(!are_overlapping_targets(&small[0], (100, 100)));
    assert!(pos_is_okay((100, 100), &small, &[]));
}

#[test]
fn random_pos_stays_on_display() {
    let mut rng = MTRng32::new(3);
    for _ in 0..2000 {
        let (x, y) = get_random_pos(&mut rng, 50, 50);
        assert!(x <= 429);
        assert!(y <= 221);
    }
}

#[test]
fn random_pos_reduces_first_word() {
    let mut a = MTRng32::new(11);
    let mut b = MTRng32::new(11);
    let w = a.rand();
    let v = a.rand();
    let expected = (std::cmp::min((w as u16) % 480, 429), std::cmp::min((v as u16) % 272, 221));
    assert_eq!(get_random_pos(&mut b, 50, 50), expected);
    // both generators continue from the same state
    assert_eq!(a.rand(), b.rand());
}

#[test]
fn found_position_is_first_fitting_candidate() {
    let hero = vec![target(100, 60, 50, 50), target(300, 150, 50, 50), target(200, 150, 50, 50)];
    let evil = vec![target(200, 60, 50, 50), target(60, 150, 50, 50)];
    let mut a = Cmwc::new(1234);
    let mut b = Cmwc::new(1234);
    for _ in 0..100 {
        let mut expected = get_random_pos(&mut a, 50, 50);
        while !pos_is_okay(expected, &hero, &evil) {
            expected = get_random_pos(&mut a, 50, 50);
        }
        assert_eq!(get_rnd_pos(&mut b, &hero, &evil), Some(expected));
    }
}

#[test]
fn found_position_avoids_everything() {
    let hero = vec![target(100, 60, 50, 50), target(300, 150, 50, 50)];
    let evil = vec![target(200, 100, 50, 50)];
    let mut rng = Cmwc::new(5);
    for _ in 0..200 {
        let p = get_rnd_pos(&mut rng, &hero, &evil).expect("free area is large");
        assert!(pos_is_okay(p, &hero, &evil));
        assert!(p.0 <= 429 && p.1 <= 221);
    }
}
