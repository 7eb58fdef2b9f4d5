use bevy_uspsa::aim::{nearest_index, on_face_check, paper_zone};
use bevy_uspsa::scoring::{score_targets, Score};
use bevy_uspsa::target::{Pos, TKind, Target, Zone};

fn paper(hits: &[Zone]) -> Target {
    let mut t = Target::new(TKind::Paper, Pos { x: 0, y: 1_420_000, z: -5_000_000 });
    t.hits = hits.to_vec();
    t
}

fn steel(down: bool) -> Target {
    let mut t = Target::new(TKind::Steel, Pos { x: 0, y: 1_300_000, z: -5_000_000 });
    t.down = down;
    t
}

fn noshoot(n: u32) -> Target {
    let mut t = Target::new(TKind::NoShoot, Pos { x: 0, y: 1_420_000, z: -5_000_000 });
    t.ns_hits = n;
    t
}

#[test]
fn zone_points_are_minor() {
    assert_eq!(Zone::A.points(), 5);
    assert_eq!(Zone::C.points(), 3);
    assert_eq!(Zone::D.points(), 1);
}

#[test]
fn best_two_hits_count() {
    let s = score_targets(&vec![paper(&[Zone::D, Zone::A, Zone::C, Zone::D])], 1_000_000);
    assert_eq!((s.a, s.c, s.d, s.mikes), (1, 1, 0, 0));
    assert_eq!(s.points, 8);
    let s = score_targets(&vec![paper(&[Zone::C, Zone::A, Zone::A])], 1_000_000);
    assert_eq!((s.a, s.c, s.d), (2, 0, 0));
    assert_eq!(s.points, 10);
    let s = score_targets(&vec![paper(&[Zone::D, Zone::D, Zone::D])], 1_000_000);
    assert_eq!((s.a, s.c, s.d), (0, 0, 2));
    assert_eq!(s.points, 2);
}

#[test]
fn missing_hits_are_mikes() {
    let s = score_targets(&vec![paper(&[Zone::A])], 1_000_000);
    assert_eq!(s.mikes, 1);
    assert_eq!(s.points, 5 - 10);
    let s = score_targets(&vec![paper(&[])], 1_000_000);
    assert_eq!(s.mikes, 2);
    assert_eq!(s.points, -20);
}

#[test]
fn steel_and_no_shoots() {
    let s = score_targets(&vec![steel(true), steel(false), noshoot(3)], 2_000_000);
    assert_eq!(s.steel_total, 2);
    assert_eq!(s.steel_down, 1);
    assert_eq!(s.mikes, 1);
    assert_eq!(s.ns, 3);
    assert_eq!(s.points, 5 - 10 - 30);
    assert_eq!(s.time_us, 2_000_000);
}

#[test]
fn mixed_stage_score_and_hit_factor_points() {
    let ts = vec![
        paper(&[Zone::A, Zone::A]),
        paper(&[Zone::C, Zone::D, Zone::D]),
        steel(true),
        noshoot(0),
    ];
    let s = score_targets(&ts, 4_000_000);
    assert_eq!(s.points, 10 + 4 + 5);
    assert_eq!(s.factor_points(), 19);
    let neg = score_targets(&vec![paper(&[]), noshoot(1)], 1_000_000);
    assert_eq!(neg.points, -30);
    assert_eq!(neg.factor_points(), 0);
}

#[test]
fn hit_accounting_holds_on_an_example() {
    let ts = vec![paper(&[Zone::A]), paper(&[Zone::C, Zone::C, Zone::A]), steel(false), steel(true)];
    let s = score_targets(&ts, 1);
    assert_eq!(s.a + s.c + s.d + s.mikes, 2 * 2 + s.steel_total - s.steel_down);
}

#[test]
fn clean_and_untouched_stages() {
    let clean = vec![paper(&[Zone::A, Zone::A]), paper(&[Zone::A, Zone::A, Zone::D]), steel(true), noshoot(0)];
    let s = score_targets(&clean, 1);
    assert_eq!(s.points, 10 * 2 + 5);
    assert_eq!(s.mikes, 0);
    let untouched = vec![paper(&[]), paper(&[]), steel(false), noshoot(0)];
    let s = score_targets(&untouched, 1);
    assert_eq!(s.mikes, 5);
    assert_eq!(s.points, -50);
}

#[test]
fn extra_hit_never_hurts_example() {
    let before = score_targets(&vec![paper(&[Zone::C])], 1).points;
    let after = score_targets(&vec![paper(&[Zone::C, Zone::D])], 1).points;
    assert!(after >= before);
    let more = score_targets(&vec![paper(&[Zone::C, Zone::D, Zone::D])], 1).points;
    assert!(more >= after);
}

#[test]
fn default_score_is_empty() {
    let s = Score::default();
    assert_eq!((s.a, s.c, s.d, s.mikes, s.ns, s.points, s.time_us), (0, 0, 0, 0, 0, 0, 0));
}

#[test]
fn paper_zones_are_nested_rectangles() {
    let (hw, hh) = (230_000, 300_000);
    assert_eq!(paper_zone(0, 0, hw, hh), Zone::A);
    assert_eq!(paper_zone(78_000, 0, hw, hh), Zone::A);
    assert_eq!(paper_zone(79_000, 0, hw, hh), Zone::C);
    assert_eq!(paper_zone(0, -101_000, hw, hh), Zone::A);
    assert_eq!(paper_zone(0, -103_000, hw, hh), Zone::C);
    assert_eq!(paper_zone(160_000, 0, hw, hh), Zone::C);
    assert_eq!(paper_zone(162_000, 0, hw, hh), Zone::D);
    assert_eq!(paper_zone(0, 299_000, hw, hh), Zone::D);
}

#[test]
fn faces_are_rectangles_and_discs() {
    assert!(on_face_check(TKind::Paper, 230_000, 300_000, 230_000, -300_000));
    assert!(!on_face_check(TKind::Paper, 230_000, 300_000, 230_001, 0));
    assert!(on_face_check(TKind::Steel, 160_000, 160_000, 0, 160_000));
    assert!(!on_face_check(TKind::Steel, 160_000, 160_000, 120_000, 120_000));
    assert!(on_face_check(TKind::Steel, 160_000, 160_000, 110_000, 110_000));
    assert!(!on_face_check(TKind::Steel, 160_000, 160_000, i64::MIN, 0));
}

#[test]
fn nearest_is_first_among_equals() {
    assert_eq!(nearest_index(&vec![None, Some(5), Some(3), Some(3)]), Some(2));
    assert_eq!(nearest_index(&vec![None, None]), None);
    assert_eq!(nearest_index(&vec![]), None);
    assert_eq!(nearest_index(&vec![Some(7)]), Some(0));
}
