use bevy_uspsa::aim::RayCross;
use bevy_uspsa::controls::{AmmoDisplay, Btn, FireAction};
use bevy_uspsa::enemy::{Enemy, ENEMY_HP, ENEMY_Y, FALL_US, HIT_FLASH_US, PLAYER_HP};
use bevy_uspsa::game::{Match, Phase, ShotHit, Status, DAMAGE_FLASH_US, MAG_SIZE, RELOAD_TIME_US, WAIT_MAX_US, WAIT_MIN_US};
use bevy_uspsa::layout::{
    build_stage, lay_out_targets, PLACEMENT_TRIES, BAY_HALF_W, FAR_Z, MAX_TARGETS, NEAR_Z, OUTLAW_FAR_Z, OUTLAW_PATROL, OUTLAW_X, OUTLAW_Z, OUTLAW_Z_STEP, SPACING,
};
use bevy_uspsa::sfx::Sfx;
use bevy_uspsa::stage::{Point, Stage, Target as BoardTarget};
use bevy_uspsa::target::{Pos, TKind, Target, Zone, PAPER_Y, STEEL_Y};

fn target(kind: TKind, x: i64) -> Target {
    let y = if kind == TKind::Steel { STEEL_Y } else { PAPER_Y };
    Target::new(kind, Pos { x, y, z: -5_000_000 })
}

fn running(targets: Vec<Target>, enemies: Vec<Enemy>) -> Match {
    let mut m = Match::new();
    m.targets = targets;
    m.enemies = enemies;
    m.phase = Phase::Running;
    m.status = Status::Go;
    m.pending.clear();
    m
}

fn cross(dist: u64, off_x: i64, off_y: i64) -> Option<RayCross> {
    Some(RayCross { dist, off_x, off_y })
}

fn still_enemy(x: i64, fire_in_us: u64) -> Enemy {
    Enemy {
        center: Pos { x, y: ENEMY_Y, z: -8_500_000 },
        home_x: x,
        patrol: 4_000_000,
        dir: 1,
        hp: ENEMY_HP,
        alive: true,
        fire_in_us,
        flash_us: 0,
        hit_flash_us: 0,
        fall_us: 0,
    }
}

#[test]
fn new_match_is_idle_at_stage_one() {
    let m = Match::new();
    assert!(m.phase == Phase::Idle);
    assert_eq!(m.stage_num, 1);
    assert!(m.status == Status::MakeReady);
    assert_eq!(m.ammo, MAG_SIZE);
    assert_eq!(m.hp, PLAYER_HP);
    assert!(m.enemies.is_empty());
    assert!(m.targets.len() <= MAX_TARGETS);
    assert!(m.result.is_none());
    assert!(m.rebuild && !m.clear_marks);
}

#[test]
fn stage_one_layout_is_spread_and_in_the_bay() {
    for _ in 0..20 {
        let (ts, es) = build_stage(1);
        assert!(es.is_empty());
        assert!(ts.len() <= 10);
        let papers = ts.iter().filter(|t| t.kind == TKind::Paper).count();
        let steel = ts.iter().filter(|t| t.kind == TKind::Steel).count();
        let ns = ts.iter().filter(|t| t.kind == TKind::NoShoot).count();
        assert!(papers <= 5 && steel <= 3 && ns <= 2);
        for (i, t) in ts.iter().enumerate() {
            assert!(t.center.x >= -BAY_HALF_W && t.center.x < BAY_HALF_W);
            assert!(t.center.z >= FAR_Z && t.center.z < NEAR_Z);
            assert!(t.hits.is_empty() && t.ns_hits == 0 && !t.down);
            for u in &ts[i + 1..] {
                assert!((t.center.x - u.center.x).abs() > SPACING || (t.center.z - u.center.z).abs() > SPACING);
            }
        }
        let ranks: Vec<u8> = ts.iter().map(|t| match t.kind { TKind::Paper => 0, TKind::Steel => 1, TKind::NoShoot => 2 }).collect();
        assert!(ranks.windows(2).all(|w| w[0] <= w[1]));
    }
}

#[test]
fn outlaw_stages_add_two_outlaws() {
    let (ts, es) = build_stage(2);
    assert!(ts.len() <= 6);
    assert!(ts.iter().all(|t| t.center.z >= OUTLAW_FAR_Z));
    assert_eq!(es.len(), 2);
    assert_eq!(es[0].home_x, -OUTLAW_X);
    assert_eq!(es[0].center.z, OUTLAW_Z);
    assert_eq!(es[1].home_x, OUTLAW_X);
    assert_eq!(es[1].center.z, OUTLAW_Z - OUTLAW_Z_STEP);
    for e in &es {
        assert_eq!(e.patrol, OUTLAW_PATROL);
        assert!(e.alive && e.hp == ENEMY_HP);
        assert!(e.dir == 1 || e.dir == -1);
        assert!(e.fire_in_us >= 1_400_000 && e.fire_in_us < 2_600_000);
    }
}

#[test]
fn make_ready_waits_then_the_buzzer_starts_the_clock() {
    let mut m = Match::new();
    m.make_ready();
    assert!(m.phase == Phase::Waiting);
    assert!(m.status == Status::StandBy);
    assert!(m.wait_left_us >= WAIT_MIN_US as i128 && m.wait_left_us < WAIT_MAX_US as i128);
    assert!(m.clear_marks);
    let wait = m.wait_left_us;
    m.make_ready();
    assert_eq!(m.wait_left_us, wait);
    m.tick(wait as u64 - 1);
    assert!(m.phase == Phase::Waiting);
    assert_eq!(m.wait_left_us, 1);
    m.tick(1);
    assert!(m.phase == Phase::Running);
    assert!(m.status == Status::Go);
    assert_eq!(m.elapsed_us, 0);
    assert_eq!(m.take_pending(), vec![Sfx::Buzzer]);
    assert!(m.pending.is_empty());
}

#[test]
fn the_random_delay_varies() {
    let mut waits = std::collections::HashSet::new();
    for _ in 0..20 {
        let mut m = Match::new();
        m.make_ready();
        waits.insert(m.wait_left_us);
    }
    assert!(waits.len() > 1);
}

#[test]
fn idle_and_scored_matches_do_not_tick() {
    let mut m = Match::new();
    m.tick(5_000_000);
    assert!(m.phase == Phase::Idle);
    assert_eq!(m.elapsed_us, 0);
}

#[test]
fn shooting_paper_records_the_zone() {
    let mut m = running(vec![target(TKind::Paper, 0), target(TKind::Steel, 2_000_000)], vec![]);
    let r = m.shoot(&vec![cross(10, 10_000, 10_000), None], &vec![]);
    assert_eq!(r.hit, ShotHit::Target(0));
    assert!(r.on_target && !r.bad);
    assert_eq!(m.targets[0].hits, vec![Zone::A]);
    assert_eq!(m.shots, 1);
    assert_eq!(m.ammo, MAG_SIZE - 1);
    assert_eq!(m.pending, vec![Sfx::Shot, Sfx::Paper]);
}

#[test]
fn nearest_face_takes_the_shot() {
    let mut m = running(vec![target(TKind::Paper, 0), target(TKind::NoShoot, 0)], vec![]);
    let r = m.shoot(&vec![cross(20, 0, 0), cross(10, 0, 0)], &vec![]);
    assert_eq!(r.hit, ShotHit::Target(1));
    assert!(r.bad);
    assert_eq!(m.targets[1].ns_hits, 1);
    assert!(m.targets[0].hits.is_empty());
    assert_eq!(m.pending, vec![Sfx::Shot, Sfx::Penalty]);
}

#[test]
fn a_crossing_off_the_face_misses() {
    let mut m = running(vec![target(TKind::Steel, 0)], vec![]);
    let r = m.shoot(&vec![cross(5, 130_000, 130_000)], &vec![]);
    assert_eq!(r.hit, ShotHit::Miss);
    assert!(!r.on_target);
    assert!(!m.targets[0].down);
    let r = m.shoot(&vec![cross(5, 100_000, 100_000)], &vec![]);
    assert_eq!(r.hit, ShotHit::Target(0));
    assert!(m.targets[0].down);
    let r = m.shoot(&vec![cross(5, 0, 0)], &vec![]);
    assert_eq!(r.hit, ShotHit::Target(0));
    assert_eq!(m.pending, vec![Sfx::Shot, Sfx::Shot, Sfx::Steel, Sfx::Shot]);
    assert_eq!(m.shots, 3);
}

#[test]
fn outlaw_wins_a_tie_and_goes_down_after_five_hits() {
    let mut m = running(vec![target(TKind::Paper, 0)], vec![still_enemy(0, 2_000_000)]);
    for k in 0..5 {
        let r = m.shoot(&vec![cross(7, 0, 0)], &vec![cross(7, 0, 0)]);
        assert_eq!(r.hit, ShotHit::Enemy(0));
        assert_eq!(m.enemies[0].hp, ENEMY_HP - 1 - k);
        assert_eq!(m.enemies[0].hit_flash_us, HIT_FLASH_US);
    }
    assert!(!m.enemies[0].alive);
    assert!(m.targets[0].hits.is_empty());
    let p = m.take_pending();
    assert_eq!(&p[p.len() - 3..], &[Sfx::Shot, Sfx::Paper, Sfx::Down]);
    let r = m.shoot(&vec![cross(7, 0, 0)], &vec![cross(1, 0, 0)]);
    assert_eq!(r.hit, ShotHit::Target(0));
}

#[test]
fn outlaw_torso_bounds() {
    let mut m = running(vec![], vec![still_enemy(0, 2_000_000)]);
    let r = m.shoot(&vec![], &vec![cross(3, 340_001, 0)]);
    assert_eq!(r.hit, ShotHit::Miss);
    let r = m.shoot(&vec![], &vec![cross(3, -340_000, -520_000)]);
    assert_eq!(r.hit, ShotHit::Enemy(0));
}

#[test]
fn engaging_everything_scores_the_stage() {
    let mut m = running(vec![target(TKind::Paper, 0), target(TKind::Steel, 3_000_000)], vec![]);
    m.shoot(&vec![cross(1, 0, 0), None], &vec![]);
    m.tick(1_000_000);
    assert!(m.phase == Phase::Running);
    m.shoot(&vec![cross(1, 0, 0), None], &vec![]);
    m.shoot(&vec![None, cross(1, 0, 0)], &vec![]);
    m.tick(500_000);
    assert!(m.phase == Phase::Scored);
    assert!(m.status == Status::Scored);
    let s = m.result.unwrap();
    assert_eq!(s.points, 15);
    assert_eq!(s.time_us, 1_500_000);
    assert_eq!(m.pending.last(), Some(&Sfx::Clear));
}

#[test]
fn stopping_without_shooting_scores_all_mikes() {
    let mut m = running(vec![target(TKind::Paper, 0), target(TKind::Steel, 3_000_000), target(TKind::NoShoot, -3_000_000)], vec![]);
    m.stop();
    let s = m.result.unwrap();
    assert_eq!(s.mikes, 3);
    assert_eq!(s.points, -30);
    assert_eq!(s.time_us, 50_000);
    assert_eq!(m.pending.last(), Some(&Sfx::Penalty));
    let before = m.result.unwrap().points;
    m.stop();
    assert_eq!(m.result.unwrap().points, before);
}

#[test]
fn reload_takes_time_on_the_clock() {
    let mut m = running(vec![target(TKind::Paper, 0)], vec![]);
    m.reload();
    assert!(!m.reloading);
    m.shoot(&vec![None], &vec![]);
    m.reload();
    assert!(m.reloading);
    assert_eq!(m.reload_left_us, RELOAD_TIME_US);
    assert_eq!(m.fire_action(true), FireAction::Ignore);
    assert_eq!(m.ammo_display(), AmmoDisplay::Reloading);
    m.tick(1_000_000);
    assert!(m.reloading);
    m.tick(800_000);
    assert!(!m.reloading);
    assert_eq!(m.ammo, MAG_SIZE);
    assert_eq!(m.elapsed_us, 1_800_000);
}

#[test]
fn empty_gun_dry_fires() {
    let mut m = running(vec![target(TKind::Paper, 0)], vec![]);
    m.ammo = 0;
    assert_eq!(m.fire_action(true), FireAction::DryFire);
    assert_eq!(m.fire_action(false), FireAction::Ignore);
    assert!(!m.can_fire());
    assert_eq!(m.ammo_display(), AmmoDisplay::Empty);
    m.dry_fire();
    assert_eq!(m.pending, vec![Sfx::Empty]);
    m.ammo = 4;
    assert_eq!(m.fire_action(true), FireAction::Fire);
    assert_eq!(m.ammo_display(), AmmoDisplay::Rounds(4));
}

#[test]
fn outlaws_strafe_and_turn_at_the_patrol_end() {
    let mut e = still_enemy(0, 10_000_000);
    e.strafe(1_000_000);
    assert_eq!(e.center.x, 2_600_000);
    assert_eq!(e.dir, 1);
    e.strafe(1_000_000);
    assert_eq!(e.center.x, 4_000_000);
    assert_eq!(e.dir, -1);
    e.strafe(u64::MAX);
    assert_eq!(e.center.x, -4_000_000);
    assert_eq!(e.dir, 1);
}

#[test]
fn a_due_outlaw_fires_and_reloads_its_timer() {
    let mut e = still_enemy(0, 100);
    assert!(!e.advance(50, 2_000_000));
    assert_eq!(e.fire_in_us, 50);
    assert!(e.advance(50, 2_000_000));
    assert_eq!(e.fire_in_us, 2_000_000);
    assert_eq!(e.flash_us, 60_000);
    e.alive = false;
    e.hp = 0;
    e.topple(300_000);
    assert_eq!(e.fall_us, 300_000);
    e.topple(300_000);
    assert_eq!(e.fall_us, FALL_US);
}

#[test]
fn outlaw_fire_never_takes_health_below_zero() {
    for _ in 0..50 {
        let mut m = running(vec![target(TKind::Paper, 0)], vec![still_enemy(-3_000_000, 1), still_enemy(3_000_000, 1)]);
        m.hp = 14;
        m.tick(10);
        assert!(m.hp == 0 || m.hp == 14);
        let sounds: Vec<Sfx> = m.pending.clone();
        assert!(sounds.iter().filter(|s| **s == Sfx::Shot).count() == 2);
        if m.hp == 0 {
            assert!(m.failed);
            assert!(m.phase == Phase::Scored);
            assert!(m.status == Status::Downed);
            assert_eq!(m.result.unwrap().points, 0);
            assert_eq!(sounds.last(), Some(&Sfx::Penalty));
            assert!(m.damage_flash_us > 0);
        } else {
            assert!(m.phase == Phase::Running);
        }
    }
}

#[test]
fn next_stage_brings_outlaws_and_not_while_running() {
    let mut m = Match::new();
    m.next_stage();
    assert_eq!(m.stage_num, 2);
    assert!(m.status == Status::OutlawsDownrange);
    assert_eq!(m.enemies.len(), 2);
    assert!(m.rebuild);
    m.make_ready();
    let w = m.wait_left_us as u64;
    m.tick(w);
    assert!(m.phase == Phase::Running);
    m.next_stage();
    assert_eq!(m.stage_num, 2);
}

#[test]
fn buttons_follow_the_phase() {
    let mut m = Match::new();
    assert!(m.button_active(Btn::Ready));
    assert!(!m.button_active(Btn::Stop));
    assert!(m.button_active(Btn::Next));
    assert!(!m.button_active(Btn::Fire));
    assert!(!m.press(Btn::Fire));
    assert!(!m.press(Btn::Stop));
    assert!(m.phase == Phase::Idle);
    m.press(Btn::Ready);
    assert!(m.phase == Phase::Waiting);
    m.start_stop();
    assert!(m.phase == Phase::Waiting);
    let w = m.wait_left_us as u64;
    m.tick(w);
    assert!(m.button_active(Btn::Fire) && m.button_active(Btn::Stop));
    assert!(!m.button_active(Btn::Reload));
    assert!(m.press(Btn::Fire));
    m.start_stop();
    assert!(m.phase == Phase::Scored);
    assert!(m.remaining() == m.targets.iter().filter(|t| !t.satisfied()).count());
    m.press(Btn::Next);
    assert_eq!(m.stage_num, 2);
}

#[test]
fn remaining_counts_unengaged_targets() {
    let mut m = running(vec![target(TKind::Paper, 0), target(TKind::Steel, 3_000_000), target(TKind::NoShoot, -3_000_000)], vec![]);
    assert_eq!(m.remaining(), 2);
    m.shoot(&vec![None, cross(1, 0, 0), None], &vec![]);
    assert_eq!(m.remaining(), 1);
    assert_eq!(m.ammo_display(), AmmoDisplay::Rounds(MAG_SIZE - 1));
}

#[test]
fn ready_buzzer_stop_scores_every_required_hit_as_a_mike() {
    let mut m = Match::new();
    let papers = m.targets.iter().filter(|t| t.kind == TKind::Paper).count() as i64;
    let steel = m.targets.iter().filter(|t| t.kind == TKind::Steel).count() as i64;
    m.make_ready();
    let w = m.wait_left_us as u64;
    m.tick(w);
    m.stop();
    let s = m.result.unwrap();
    assert_eq!(s.mikes as i64, 2 * papers + steel);
    assert_eq!(s.points, -20 * papers - 10 * steel);
    assert_eq!(s.time_us, 50_000);
    assert!(m.phase == Phase::Scored && m.status == Status::Scored);
}

#[test]
fn outlaws_face_either_way() {
    let mut dirs = std::collections::HashSet::new();
    for _ in 0..30 {
        let (_, es) = build_stage(3);
        for e in es {
            dirs.insert(e.dir);
        }
    }
    assert_eq!(dirs.len(), 2);
}

#[test]
fn outlaw_reset_stands_it_up_at_home() {
    let mut e = still_enemy(1_000_000, 5);
    e.center.x = 2_500_000;
    e.hp = 0;
    e.alive = false;
    e.fall_us = FALL_US;
    e.reset();
    assert_eq!(e.center.x, 1_000_000);
    assert!(e.alive && e.hp == ENEMY_HP && e.fall_us == 0);
    assert!(e.fire_in_us >= 1_400_000 && e.fire_in_us < 2_600_000);
}

#[test]
fn match_wait_runs_below_zero_when_the_tick_overshoots() {
    let mut m = Match::new();
    m.make_ready();
    let w = m.wait_left_us;
    m.tick(w as u64 + 40_000);
    assert!(m.phase == Phase::Running);
    assert!(m.status == Status::Go);
    assert_eq!(m.wait_left_us, -40_000);
    assert_eq!(m.elapsed_us, 0);
    assert_eq!(m.pending, vec![Sfx::Buzzer]);
}

#[test]
fn a_volley_hits_exactly_where_the_rolls_say() {
    let mut m = running(vec![target(TKind::Paper, 0)], vec![still_enemy(-3_000_000, 1), still_enemy(3_000_000, 1)]);
    m.apply_volley(10, &vec![true, false], &vec![2_000_000, 1_600_000]);
    assert_eq!(m.hp, PLAYER_HP - 14);
    assert_eq!(m.pending, vec![Sfx::Shot, Sfx::Hurt, Sfx::Shot]);
    assert_eq!(m.enemies[0].fire_in_us, 2_000_000);
    assert_eq!(m.enemies[1].fire_in_us, 1_600_000);
    assert_eq!(m.damage_flash_us, DAMAGE_FLASH_US);
    assert!(m.phase == Phase::Running && !m.failed);
}

#[test]
fn a_volley_that_all_misses_costs_nothing() {
    let mut m = running(vec![target(TKind::Paper, 0)], vec![still_enemy(-3_000_000, 1), still_enemy(3_000_000, 1)]);
    m.apply_volley(10, &vec![false, false], &vec![1_500_000, 2_799_999]);
    assert_eq!(m.hp, PLAYER_HP);
    assert_eq!(m.pending, vec![Sfx::Shot, Sfx::Shot]);
    assert_eq!(m.damage_flash_us, 0);
    assert_eq!(m.enemies[1].fire_in_us, 2_799_999);
}

#[test]
fn a_volley_that_takes_the_last_health_downs_the_shooter() {
    let mut m = running(vec![target(TKind::Paper, 0)], vec![still_enemy(-3_000_000, 1), still_enemy(3_000_000, 1)]);
    m.hp = 20;
    m.elapsed_us = 1_000_000;
    m.apply_volley(10, &vec![true, true], &vec![2_000_000, 2_000_000]);
    assert_eq!(m.hp, 0);
    assert!(m.failed);
    assert!(m.phase == Phase::Scored && m.status == Status::Downed);
    assert_eq!(m.pending, vec![Sfx::Shot, Sfx::Hurt, Sfx::Shot, Sfx::Hurt, Sfx::Penalty]);
    let r = m.result.unwrap();
    assert_eq!(r.points, 0);
    assert_eq!(r.time_us, 1_000_000);
}

#[test]
fn an_outlaw_not_yet_due_holds_its_fire_whatever_the_roll() {
    let mut m = running(vec![target(TKind::Paper, 0)], vec![still_enemy(0, 1_000_000)]);
    m.apply_volley(10, &vec![true], &vec![2_000_000]);
    assert_eq!(m.hp, PLAYER_HP);
    assert!(m.pending.is_empty());
    assert_eq!(m.enemies[0].fire_in_us, 999_990);
    assert_eq!(m.enemies[0].center.x, 26);
}

#[test]
fn an_outlaw_outside_its_patrol_comes_back_inside() {
    let mut e = still_enemy(0, 10_000_000);
    e.center.x = 50_000_000;
    e.strafe(1);
    assert_eq!(e.center.x, 4_000_000);
    assert_eq!(e.dir, -1);
    let mut f = still_enemy(0, 10_000_000);
    f.patrol = 0;
    f.strafe(1_000_000);
    assert_eq!(f.center.x, 0);
    assert_eq!(f.dir, -1);
    let mut g = still_enemy(i64::MAX - 4_000_000, 10_000_000);
    g.strafe(u64::MAX);
    assert_eq!(g.center.x, i64::MAX);
    assert_eq!(g.dir, -1);
}

#[test]
fn every_new_layout_starts_with_a_paper() {
    let mut m = Match::new();
    assert!(!m.targets.is_empty() && m.targets[0].kind == TKind::Paper);
    for _ in 0..6 {
        m.next_stage();
        assert!(!m.targets.is_empty() && m.targets[0].kind == TKind::Paper);
    }
}

#[test]
fn board_and_match_score_the_same_cards_alike() {
    let mut bp = BoardTarget::new(TKind::Paper, Point { x: 0, y: 0 });
    bp.hits = vec![Zone::A, Zone::D];
    let mut bs = BoardTarget::new(TKind::Steel, Point { x: 200_000, y: 0 });
    bs.down = true;
    let mut bn = BoardTarget::new(TKind::NoShoot, Point { x: -200_000, y: 0 });
    bn.ns_hits = 1;
    let mut st = Stage::new();
    st.targets = vec![bp, bs, bn];
    st.phase = Phase::Running;
    st.elapsed_us = 4_000_000;
    st.shots = 4;
    st.stop();

    let mut mp = target(TKind::Paper, 0);
    mp.hits = vec![Zone::A, Zone::D];
    let mut ms = target(TKind::Steel, 3_000_000);
    ms.down = true;
    let mut mn = target(TKind::NoShoot, -3_000_000);
    mn.ns_hits = 1;
    let mut m = running(vec![mp, ms, mn], vec![]);
    m.elapsed_us = 4_000_000;
    m.shots = 4;
    m.stop();

    let (a, b) = (st.result.unwrap(), m.result.unwrap());
    assert_eq!((a.a, a.c, a.d, a.mikes, a.ns, a.steel_down, a.steel_total), (b.a, b.c, b.d, b.mikes, b.ns, b.steel_down, b.steel_total));
    assert_eq!((a.points, a.time_us), (b.points, b.time_us));
    assert_eq!(a.points, 5 + 1 + 5 - 10);
    assert!(st.phase == Phase::Scored && m.phase == Phase::Scored);
    assert_eq!(st.pending.last(), m.pending.last());
    assert_eq!(m.pending.last(), Some(&Sfx::Clear));
}

fn grid_draws(slots: usize, far_row: i64) -> Vec<(i64, i64)> {
    let mut d = Vec::new();
    for s in 0..slots {
        let x = -4_800_000 + (s as i64 % 5) * 2_000_000;
        let z = if s < 5 { -4_000_000 } else { far_row };
        for _ in 0..PLACEMENT_TRIES {
            d.push((x, z));
        }
    }
    d
}

#[test]
fn each_target_takes_its_first_clear_draw() {
    let draws = grid_draws(10, -7_000_000);
    let ts = lay_out_targets(1, &draws);
    assert_eq!(ts.len(), 10);
    let kinds: Vec<TKind> = ts.iter().map(|t| t.kind).collect();
    assert_eq!(kinds[..5], [TKind::Paper; 5]);
    assert_eq!(kinds[5..8], [TKind::Steel; 3]);
    assert_eq!(kinds[8..], [TKind::NoShoot; 2]);
    for (s, t) in ts.iter().enumerate() {
        assert_eq!(t.center, Pos { x: draws[s * PLACEMENT_TRIES].0, y: if t.kind == TKind::Steel { STEEL_Y } else { PAPER_Y }, z: draws[s * PLACEMENT_TRIES].1 });
        assert!(t.hits.is_empty() && t.ns_hits == 0 && !t.down);
    }
}

#[test]
fn a_crowded_draw_is_skipped_for_the_next_one() {
    let mut draws = grid_draws(10, -7_000_000);
    draws[PLACEMENT_TRIES] = (-4_500_000, -4_200_000);
    draws[PLACEMENT_TRIES + 1] = (-4_800_000, -9_500_000);
    let ts = lay_out_targets(1, &draws);
    assert_eq!(ts.len(), 10);
    assert_eq!(ts[1].center, Pos { x: -4_800_000, y: PAPER_Y, z: -9_500_000 });
}

#[test]
fn a_target_with_no_clear_draw_is_left_out() {
    let draws = vec![(0, -5_000_000); 10 * PLACEMENT_TRIES];
    let ts = lay_out_targets(1, &draws);
    assert_eq!(ts.len(), 1);
    assert!(ts[0].kind == TKind::Paper);
    assert_eq!(ts[0].center, Pos { x: 0, y: PAPER_Y, z: -5_000_000 });
}

#[test]
fn outlaw_stages_lay_out_three_two_and_one() {
    let draws = grid_draws(6, -4_000_000);
    let mut draws = draws;
    for k in 5 * PLACEMENT_TRIES..6 * PLACEMENT_TRIES {
        draws[k] = (5_000_000, -6_000_000);
    }
    let ts = lay_out_targets(2, &draws);
    let kinds: Vec<TKind> = ts.iter().map(|t| t.kind).collect();
    assert_eq!(kinds, vec![TKind::Paper, TKind::Paper, TKind::Paper, TKind::Steel, TKind::Steel, TKind::NoShoot]);
    assert_eq!(ts[5].center, Pos { x: 5_000_000, y: PAPER_Y, z: -6_000_000 });
}
