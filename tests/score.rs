use target_shooter::score::{apply_evil_hit, apply_hero_hit};

#[test]
fn hero_hit_floors_at_zero() {
    assert_eq!(apply_hero_hit(20, 70), 0);
    assert_eq!(apply_hero_hit(100, 70), 30);
    assert_eq!(apply_hero_hit(70, 70), 0);
}

#[test]
fn repeated_hero_hits_never_negative() {
    let mut s = 150u16;
    for b in [70u16, 70, 70, 70] {
        s = apply_hero_hit(s, b);
    }
    assert_eq!(s, 0);
}

#[test]
fn evil_hit_adds_and_saturates() {
    assert_eq!(apply_evil_hit(20, 50), 70);
    assert_eq!(apply_evil_hit(65500, 100), 65535);
    assert_eq!(apply_evil_hit(65535, 1), 65535);
}
