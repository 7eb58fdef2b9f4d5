use bevy_uspsa::game::Phase;
use bevy_uspsa::sfx::Sfx;
use bevy_uspsa::layout::PLACEMENT_TRIES;
use bevy_uspsa::stage::{lay_out_board, layout, Point, Stage, StageStatus, Target, MAX_BG_HOLES};
use bevy_uspsa::target::{TKind, Zone};

fn running(targets: Vec<Target>) -> Stage {
    let mut s = Stage::new();
    s.targets = targets;
    s.phase = Phase::Running;
    s.pending.clear();
    s
}

#[test]
fn board_layout_is_spread() {
    for _ in 0..20 {
        let ts = layout();
        assert!(ts.len() <= 10);
        assert!(!ts.is_empty());
        assert!(ts[0].kind == TKind::Paper);
        for (i, t) in ts.iter().enumerate() {
            assert!(t.pos.x >= -450_000 && t.pos.x < 450_000);
            assert!(t.pos.y >= -40_000 && t.pos.y < 300_000);
            for u in &ts[i + 1..] {
                let need = (t.ext() + u.ext() + 24_000).max(118_000) as i128;
                let dx = (t.pos.x - u.pos.x) as i128;
                let dy = (t.pos.y - u.pos.y) as i128;
                assert!(dx * dx + dy * dy > need * need);
            }
        }
    }
}

#[test]
fn board_stage_runs_and_scores() {
    let mut s = Stage::new();
    assert!(s.status == StageStatus::MakeReady);
    s.shoot(Point { x: 0, y: 0 });
    assert_eq!(s.shots, 0);
    s.make_ready();
    assert!(s.phase == Phase::Waiting);
    let w = s.wait_left_us as u64;
    s.tick(w);
    assert!(s.phase == Phase::Running);
    assert!(s.status == StageStatus::Go);
    assert_eq!(s.wait_left_us, 0);
    s.tick(2_000_000);
    s.stop();
    assert!(s.phase == Phase::Scored);
    assert!(s.status == StageStatus::Complete);
    assert_eq!(s.result.unwrap().time_us, 2_000_000);
    s.next_stage();
    assert_eq!(s.stage_num, 2);
    assert!(s.status == StageStatus::NewStage);
}

#[test]
fn tap_takes_the_target_whose_centre_is_nearest() {
    let a = Target::new(TKind::Paper, Point { x: 0, y: 0 });
    let b = Target::new(TKind::NoShoot, Point { x: 20_000, y: 0 });
    let mut s = running(vec![a, b]);
    s.shoot(Point { x: 12_000, y: 0 });
    assert_eq!(s.targets[1].ns_hits, 1);
    assert_eq!(s.targets[1].holes.len(), 1);
    assert!(s.targets[1].holes[0].bad);
    assert_eq!(s.targets[1].holes[0].off, Point { x: -8_000, y: 0 });
    s.shoot(Point { x: 5_000, y: 1_000 });
    assert_eq!(s.targets[0].hits, vec![Zone::A]);
    assert_eq!(s.pending, vec![Sfx::Shot, Sfx::Penalty, Sfx::Shot, Sfx::Paper]);
    assert_eq!(s.shots, 2);
}

#[test]
fn steel_is_a_disc_and_falls_once() {
    let mut s = running(vec![Target::new(TKind::Steel, Point { x: 0, y: 0 })]);
    s.shoot(Point { x: 30_000, y: 30_000 });
    assert!(!s.targets[0].down);
    assert_eq!(s.bg_holes, vec![Point { x: 30_000, y: 30_000 }]);
    s.shoot(Point { x: 20_000, y: 20_000 });
    assert!(s.targets[0].down);
    s.shoot(Point { x: 0, y: 0 });
    assert_eq!(s.pending, vec![Sfx::Shot, Sfx::Shot, Sfx::Steel, Sfx::Shot]);
    s.tick(1);
    assert!(s.phase == Phase::Scored);
    assert_eq!(s.result.unwrap().points, 5);
}

#[test]
fn background_holes_keep_the_last_thirty() {
    let mut s = running(vec![]);
    for k in 0..40 {
        s.shoot(Point { x: k, y: 900_000 });
    }
    assert_eq!(s.bg_holes.len(), MAX_BG_HOLES);
    assert_eq!(s.bg_holes[0], Point { x: 10, y: 900_000 });
    assert_eq!(s.bg_holes[29], Point { x: 39, y: 900_000 });
}

#[test]
fn far_taps_miss_everything() {
    let mut s = running(vec![Target::new(TKind::Paper, Point { x: 0, y: 0 })]);
    s.shoot(Point { x: i64::MAX, y: i64::MIN });
    assert!(s.targets[0].hits.is_empty());
    assert_eq!(s.bg_holes.len(), 1);
}

#[test]
fn board_wait_runs_below_zero_when_the_tick_overshoots() {
    let mut s = Stage::new();
    s.make_ready();
    let w = s.wait_left_us;
    assert!(w >= 1_500_000 && w < 3_500_000);
    s.tick(w as u64 - 1);
    assert!(s.phase == Phase::Waiting);
    assert_eq!(s.wait_left_us, 1);
    s.tick(250_000);
    assert!(s.phase == Phase::Running);
    assert_eq!(s.wait_left_us, -249_999);
    assert_eq!(s.elapsed_us, 0);
    assert_eq!(s.pending.last(), Some(&Sfx::Buzzer));
}

#[test]
fn new_and_next_boards_start_with_a_paper() {
    let mut s = Stage::new();
    assert!(!s.targets.is_empty());
    assert!(s.targets[0].kind == TKind::Paper);
    for _ in 0..10 {
        s.next_stage();
        assert!(!s.targets.is_empty());
        assert!(s.targets[0].kind == TKind::Paper);
    }
}

#[test]
fn board_hit_far_outside_the_board_is_no_hit() {
    let t = Target::new(TKind::Paper, Point { x: 0, y: 0 });
    assert_eq!(t.contains(Point { x: i64::MAX, y: 0 }), None);
    assert_eq!(t.contains(Point { x: i64::MIN, y: i64::MIN }), None);
    assert_eq!(t.contains(Point { x: 10_000, y: -5_000 }), Some(Point { x: 10_000, y: -5_000 }));
}

fn board_grid() -> Vec<Point> {
    let mut d = Vec::new();
    for s in 0..10i64 {
        for _ in 0..PLACEMENT_TRIES {
            d.push(Point { x: -400_000 + (s % 5) * 200_000, y: (s / 5) * 200_000 });
        }
    }
    d
}

#[test]
fn board_targets_take_their_first_clear_draw() {
    let draws = board_grid();
    let ts = lay_out_board(&draws);
    assert_eq!(ts.len(), 10);
    for (s, t) in ts.iter().enumerate() {
        assert_eq!(t.pos, draws[s * PLACEMENT_TRIES]);
        let want = if s < 5 { TKind::Paper } else if s < 8 { TKind::Steel } else { TKind::NoShoot };
        assert!(t.kind == want);
    }
}

#[test]
fn board_skips_a_crowded_draw_and_leaves_out_a_hopeless_target() {
    let mut draws = board_grid();
    draws[PLACEMENT_TRIES] = Point { x: -390_000, y: 10_000 };
    draws[PLACEMENT_TRIES + 1] = Point { x: 400_000, y: 280_000 };
    for k in 9 * PLACEMENT_TRIES..10 * PLACEMENT_TRIES {
        draws[k] = Point { x: 0, y: 0 };
    }
    let ts = lay_out_board(&draws);
    assert_eq!(ts.len(), 9);
    assert_eq!(ts[1].pos, Point { x: 400_000, y: 280_000 });
}
