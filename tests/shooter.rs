use target_shooter::shooter::Target;

fn target(x: u16, y: u16) -> Target {
    Target::new(x, y, 50, 50, 10, 0, 1000)
}

#[test]
fn coord_inside_is_half_open() {
    let t = target(100, 100);
    assert!(t.coord_is_inside(100, 100));
    assert!(t.coord_is_inside(149, 149));
    assert!(!t.coord_is_inside(150, 120));
    assert!(!t.coord_is_inside(120, 150));
    assert!(!t.coord_is_inside(99, 120));
}

#[test]
fn check_for_hit_reports_each_touch() {
    let targets = vec![target(0, 0), target(40, 40), target(300, 200)];
    let touches = vec![(45u16, 45u16), (10, 10), (310, 210), (400, 10)];
    // target 0 holds (45,45) and (10,10); target 1 holds (45,45); target 2 holds (310,210)
    assert_eq!(Target::check_for_hit(&targets, &touches), vec![0, 0, 1, 2]);
}

#[test]
fn check_for_hit_nothing() {
    let targets = vec![target(0, 0)];
    let touches: Vec<(u16, u16)> = vec![];
    assert!(Target::check_for_hit(&targets, &touches).is_empty());
    assert!(Target::check_for_hit(&[], &[(1, 1)]).is_empty());
}

use target_shooter::registry::remove_hit;

#[test]
fn remove_hit_ignores_duplicates_order_and_strays() {
    let mut targets = vec![target(0, 0), target(60, 0), target(120, 0), target(180, 0)];
    let removed = remove_hit(&mut targets, &[2, 0, 2, 9, 0]);
    assert_eq!(removed.iter().map(|t| t.x).collect::<Vec<_>>(), vec![0, 120]);
    assert_eq!(targets.iter().map(|t| t.x).collect::<Vec<_>>(), vec![60, 180]);
}

#[test]
fn remove_reported_hits_removes_each_hit_target_once() {
    let mut targets = vec![target(0, 0), target(40, 40), target(300, 200)];
    let touches = vec![(45u16, 45u16), (10, 10), (20, 20)];
    let hits = Target::check_for_hit(&targets, &touches);
    assert_eq!(hits, vec![0, 0, 0, 1]);
    let removed = remove_hit(&mut targets, &hits);
    assert_eq!(removed.len(), 2);
    assert_eq!(targets.len(), 1);
    assert_eq!(targets[0].x, 300);
}
