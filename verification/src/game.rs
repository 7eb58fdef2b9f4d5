use vstd::prelude::*;
pub use crate::enemy::Enemy;
use crate::enemy::{HIT_FLASH_US, ENEMY_FIRE_MIN_US, ENEMY_FIRE_MAX_US, ENEMY_HW, ENEMY_HH, ENEMY_DAMAGE, ENEMY_HIT_NUM, ENEMY_HIT_DEN, PLAYER_HP, ENEMY_HP, ENEMY_FIRST_FIRE_MIN_US, ENEMY_FIRST_FIRE_MAX_US};
use crate::random::{chance, random_in};
use crate::layout::{build_stage, drawn_layout, valid_layout, valid_outlaws, MAX_TARGETS, OUTLAWS};
pub use crate::scoring::Score;
use crate::scoring::{Scorable, count_cards, law_untouched_stage, score_targets, tally_of, zero_tally, lemma_element_ns, lemma_update_ns};
use crate::sfx::Sfx;
pub use crate::target::{TKind, Target, Zone};
use crate::target::{satisfied_spec, is_fresh, same_face, hit_target, hit_sound, Pos};
use crate::aim::{RayCross, on_face, nearest, nearest_index, face_dists, outlaw_dists, on_face_check, paper_zone, zone_at};

verus! {

/// Rounds per magazine, and how long a reload takes (counted against stage time).
pub const MAG_SIZE: u32 = 10;
pub const RELOAD_TIME_US: u64 = 1_800_000;
/// The random delay between MAKE READY and the start buzzer: 1.5 s to 3.5 s.
pub const WAIT_MIN_US: u64 = 1_500_000;
pub const WAIT_MAX_US: u64 = 3_500_000;
/// A scored time is never shorter than 0.05 s.
pub const MIN_STAGE_TIME_US: u64 = 50_000;
/// How long the screen flashes red when the shooter is hit.
pub const DAMAGE_FLASH_US: u64 = 550_000;

/// Where a stage is in its course: set up, waiting for the buzzer, on the
/// clock, or scored.
#[derive(Clone, Copy, PartialEq, Eq, Structural, Debug)]
pub enum Phase {
    Idle,
    Waiting,
    Running,
    Scored,
}

/// The message shown to the shooter.
#[derive(Clone, Copy, PartialEq, Eq, Structural, Debug)]
pub enum Status {
    /// "MAKE READY, wait for the buzzer, then move and shoot."
    MakeReady,
    /// "New stage. MAKE READY."
    NewStage,
    /// "Stage 2 — outlaws downrange! MAKE READY."
    OutlawsDownrange,
    /// "Stand by…"
    StandBy,
    /// "GO! Move and shoot."
    Go,
    /// "DOWNED — the outlaws got you."
    Downed,
    /// "Stage N — hit factor H" for the stage number and the result's hit factor.
    Scored,
}

/// What a shot hit: nothing, the target or the outlaw with that index.
#[derive(Clone, Copy, PartialEq, Eq, Structural, Debug)]
pub enum ShotHit {
    Miss,
    Target(usize),
    Enemy(usize),
}

/// What a fired shot produced, for the front end to place a bullet hole:
/// whether it struck anything, whether that was a no-shoot, and what it struck.
#[derive(Clone, Copy, PartialEq, Eq, Structural, Debug)]
pub struct ShotResult {
    pub on_target: bool,
    pub bad: bool,
    pub hit: ShotHit,
}

/// What a shot strikes: the nearest target face or live outlaw that the ray
/// meets. On equal distance the outlaw takes the shot; among targets (and among
/// outlaws) the first of equally near ones does.
pub open spec fn shot_hit(targets: Seq<Target>, enemies: Seq<Enemy>, th: Seq<Option<RayCross>>, eh: Seq<Option<RayCross>>) -> ShotHit {
    let tc = face_dists(th, targets);
    let ec = outlaw_dists(eh, enemies);
    match (nearest(tc), nearest(ec)) {
        (Some(i), Some(k)) => if ec[k].unwrap() <= tc[i].unwrap() { ShotHit::Enemy(k as usize) } else { ShotHit::Target(i as usize) },
        (None, Some(k)) => ShotHit::Enemy(k as usize),
        (Some(i), None) => ShotHit::Target(i as usize),
        (None, None) => ShotHit::Miss,
    }
}

/// The sounds of the outlaws' shots in one tick: for each live outlaw whose
/// shot came due, in order, a shot and, when it hit the shooter (`hits`), a hurt.
pub open spec fn volley(es: Seq<Enemy>, dt: u64, hits: Seq<bool>) -> Seq<Sfx>
    decreases es.len(),
{
    if es.len() == 0 {
        Seq::empty()
    } else {
        let e = es.last();
        volley(es.drop_last(), dt, hits) + if e.alive && e.fires(dt) {
            if hits[es.len() - 1] { seq![Sfx::Shot, Sfx::Hurt] } else { seq![Sfx::Shot] }
        } else {
            Seq::empty()
        }
    }
}

/// Which outlaws' shots hit the shooter, given the rolls: those of live
/// outlaws whose shot came due and whose roll says it hits.
pub open spec fn volley_hits(es: Seq<Enemy>, dt: u64, rolls: Seq<bool>) -> Seq<bool> {
    Seq::new(es.len(), |i: int| es[i].alive && es[i].fires(dt) && rolls[i])
}

/// Number of shots that hit the shooter.
pub open spec fn hit_count(hits: Seq<bool>) -> nat
    decreases hits.len(),
{
    if hits.len() == 0 { 0 } else { hit_count(hits.drop_last()) + if hits.last() { 1nat } else { 0nat } }
}

/// Which outlaws' shots hit the shooter: only a live outlaw whose shot came due can hit.
pub open spec fn hits_possible(es: Seq<Enemy>, dt: u64, hits: Seq<bool>) -> bool {
    &&& hits.len() == es.len()
    &&& forall|i: int| 0 <= i < es.len() && #[trigger] hits[i] ==> es[i].alive && es[i].fires(dt)
}

/// Health left after `k` hits of `ENEMY_DAMAGE`, never below zero.
pub open spec fn hp_after(hp: int, k: nat) -> int {
    if hp - ENEMY_DAMAGE * k <= 0 { 0 } else { hp - ENEMY_DAMAGE * k }
}

proof fn lemma_volley_ext(es: Seq<Enemy>, dt: u64, h1: Seq<bool>, h2: Seq<bool>)
    requires
        h1.len() >= es.len(),
        h2.len() >= es.len(),
        forall|j: int| 0 <= j < es.len() ==> h1[j] == h2[j],
    ensures
        volley(es, dt, h1) == volley(es, dt, h2),
    decreases es.len(),
{
    if es.len() > 0 {
        lemma_volley_ext(es.drop_last(), dt, h1, h2);
    }
}

/// The stage time of an attempt that ran for `elapsed` microseconds.
pub open spec fn stage_time(elapsed: u64) -> u64 {
    if elapsed < MIN_STAGE_TIME_US { MIN_STAGE_TIME_US } else { elapsed }
}

/// A match: the current stage's targets and outlaws, the phase machine and its
/// clocks (microseconds), the gun, the shooter's health, the result, and the
/// sounds and redraws the front end still has to perform.
pub struct Match {
    pub phase: Phase,
    pub targets: Vec<Target>,
    /// Delay left before the buzzer; the tick that sounds it leaves it at zero or below.
    pub wait_left_us: i128,
    pub elapsed_us: u64,
    pub shots: u32,
    pub stage_num: u32,
    pub result: Option<Score>,
    pub status: Status,
    pub ammo: u32,
    pub reloading: bool,
    pub reload_left_us: u64,
    pub enemies: Vec<Enemy>,
    pub hp: i32,
    pub max_hp: i32,
    pub damage_flash_us: u64,
    pub failed: bool,
    /// Sounds to play, oldest first.
    pub pending: Vec<Sfx>,
    /// Set when a new layout needs its meshes (re)spawned.
    pub rebuild: bool,
    /// Set when bullet holes should be cleared (new attempt).
    pub clear_marks: bool,
}

impl Match {
    /// What every match keeps between calls.
    pub open spec fn wf(&self) -> bool {
        &&& self.targets@.len() <= MAX_TARGETS
        &&& tally_of(self.targets@).ns <= self.shots
        &&& self.enemies@.len() <= OUTLAWS
        &&& forall|i: int| 0 <= i < self.enemies@.len() ==> (#[trigger] self.enemies@[i]).wf()
        &&& self.ammo <= MAG_SIZE
        &&& self.reloading ==> self.ammo < MAG_SIZE
        &&& self.max_hp == PLAYER_HP
        &&& 0 <= self.hp <= self.max_hp
        &&& (self.result is Some <==> self.phase == Phase::Scored)
        &&& self.failed ==> self.phase == Phase::Scored && self.hp == 0
        &&& (self.phase == Phase::Running || self.phase == Phase::Waiting) ==> self.hp > 0
        &&& self.phase == Phase::Waiting ==> 0 < self.wait_left_us <= WAIT_MAX_US
        &&& self.stage_num >= 1
    }

    /// Every target engaged and every outlaw down: the stage is done.
    pub open spec fn all_engaged(&self) -> bool {
        &&& forall|i: int| 0 <= i < self.targets@.len() ==> satisfied_spec(#[trigger] self.targets@[i])
        &&& forall|i: int| 0 <= i < self.enemies@.len() ==> !(#[trigger] self.enemies@[i]).alive
    }

    /// The score that the current targets earn if the clock stops now.
    pub open spec fn scored_as(&self, s: Score) -> bool {
        &&& s.counts() == tally_of(self.targets@)
        &&& s.time_us == stage_time(self.elapsed_us)
    }

    /// A fresh match at stage 1.
    pub fn new() -> (m: Match)
        ensures
            m.wf(),
            m.phase == Phase::Idle,
            m.stage_num == 1,
            valid_layout(m.targets@, 1),
            drawn_layout(m.targets@, 1),
            valid_outlaws(m.enemies@, 1),
            m.wait_left_us == 0,
            m.elapsed_us == 0,
            m.shots == 0,
            m.result is None,
            m.status == Status::MakeReady,
            m.ammo == MAG_SIZE,
            !m.reloading,
            m.reload_left_us == 0,
            m.hp == PLAYER_HP,
            m.damage_flash_us == 0,
            !m.failed,
            m.pending@ == Seq::<Sfx>::empty(),
            m.rebuild,
            !m.clear_marks,
    {
        let (targets, enemies) = build_stage(1);
        proof {
            lemma_fresh_ns(targets@);
        }
        Match {
            phase: Phase::Idle,
            targets,
            wait_left_us: 0,
            elapsed_us: 0,
            shots: 0,
            stage_num: 1,
            result: None,
            status: Status::MakeReady,
            ammo: MAG_SIZE,
            reloading: false,
            reload_left_us: 0,
            enemies,
            hp: PLAYER_HP,
            max_hp: PLAYER_HP,
            damage_flash_us: 0,
            failed: false,
            pending: Vec::new(),
            rebuild: true,
            clear_marks: false,
        }
    }

    /// Start the current stage afresh, unless it is waiting or running: clear
    /// every hit, stand the outlaws back up, restore health and a full magazine,
    /// and wait 1.5 s to 3.5 s for the buzzer.
    pub fn make_ready(&mut self)
        requires
            old(self).wf(),
        ensures
            final(self).wf(),
            old(self).phase == Phase::Running || old(self).phase == Phase::Waiting ==> *final(self) == *old(self),
            !(old(self).phase == Phase::Running || old(self).phase == Phase::Waiting) ==> old(self).readies_into(*final(self)),
    {
        if self.phase == Phase::Running || self.phase == Phase::Waiting {
            return;
        }
        let ghost o = *old(self);
        let n = self.targets.len();
        let mut i: usize = 0;
        while i < n
            invariant
                n == self.targets@.len(),
                n == o.targets@.len(),
                i <= n,
                o.wf(),
                *self == (Match { targets: self.targets, ..o }),
                forall|j: int| 0 <= j < i ==> same_face(#[trigger] self.targets@[j], o.targets@[j]) && is_fresh(self.targets@[j]),
                forall|j: int| i <= j < n ==> #[trigger] self.targets@[j] == o.targets@[j],
            decreases n - i,
        {
            self.targets[i].reset();
            i = i + 1;
        }
        let ghost ta = self.targets@;
        let ne = self.enemies.len();
        let mut k: usize = 0;
        while k < ne
            invariant
                ne == self.enemies@.len(),
                ne == o.enemies@.len(),
                k <= ne,
                self.targets@ == ta,
                *self == (Match { targets: self.targets, enemies: self.enemies, ..o }),
                forall|j: int| 0 <= j < ne ==> (#[trigger] o.enemies@[j]).wf(),
                forall|j: int| 0 <= j < k ==> enemy_reset(o.enemies@[j], #[trigger] self.enemies@[j]),
                forall|j: int| k <= j < ne ==> #[trigger] self.enemies@[j] == o.enemies@[j],
            decreases ne - k,
        {
            self.enemies[k].reset();
            k = k + 1;
        }
        self.hp = self.max_hp;
        self.damage_flash_us = 0;
        self.failed = false;
        self.result = None;
        self.shots = 0;
        self.elapsed_us = 0;
        self.ammo = MAG_SIZE;
        self.reloading = false;
        self.reload_left_us = 0;
        self.wait_left_us = random_in(WAIT_MIN_US as i64, WAIT_MAX_US as i64) as i128;
        self.phase = Phase::Waiting;
        self.status = Status::StandBy;
        self.clear_marks = true;
        proof {
            lemma_fresh_ns(self.targets@);
        }
    }

    /// What MAKE READY does to a match that is idle or scored.
    pub open spec fn readies_into(self, m: Match) -> bool {
        &&& m.targets@.len() == self.targets@.len()
        &&& forall|j: int| 0 <= j < m.targets@.len() ==> same_face(#[trigger] m.targets@[j], self.targets@[j]) && is_fresh(m.targets@[j])
        &&& m.enemies@.len() == self.enemies@.len()
        &&& forall|j: int| 0 <= j < m.enemies@.len() ==> enemy_reset(self.enemies@[j], #[trigger] m.enemies@[j])
        &&& m.hp == self.max_hp
        &&& m.damage_flash_us == 0
        &&& !m.failed
        &&& m.result is None
        &&& m.shots == 0
        &&& m.elapsed_us == 0
        &&& m.ammo == MAG_SIZE
        &&& !m.reloading
        &&& m.reload_left_us == 0
        &&& WAIT_MIN_US <= m.wait_left_us < WAIT_MAX_US
        &&& m.phase == Phase::Waiting
        &&& m.status == Status::StandBy
        &&& m.clear_marks
        &&& m.stage_num == self.stage_num
        &&& m.max_hp == self.max_hp
        &&& m.pending == self.pending
        &&& m.rebuild == self.rebuild
    }

    /// Move on to a new random layout for the next stage, unless the clock is
    /// running. The new stage is idle; outlaws appear from stage 2 on.
    pub fn next_stage(&mut self)
        requires
            old(self).wf(),
            old(self).phase != Phase::Running ==> old(self).stage_num < u32::MAX,
        ensures
            final(self).wf(),
            old(self).phase == Phase::Running ==> *final(self) == *old(self),
            old(self).phase != Phase::Running ==> old(self).advances_into(*final(self)),
    {
        if self.phase == Phase::Running {
            return;
        }
        self.stage_num = self.stage_num + 1;
        let (targets, enemies) = build_stage(self.stage_num);
        proof {
            lemma_fresh_ns(targets@);
        }
        self.targets = targets;
        self.enemies = enemies;
        self.result = None;
        self.failed = false;
        self.hp = self.max_hp;
        self.damage_flash_us = 0;
        self.phase = Phase::Idle;
        self.elapsed_us = 0;
        self.shots = 0;
        self.status = if self.stage_num >= 2 { Status::OutlawsDownrange } else { Status::NewStage };
        self.rebuild = true;
    }

    /// What moving on to the next stage does to a match that is not running.
    pub open spec fn advances_into(self, m: Match) -> bool {
        &&& m.stage_num == self.stage_num + 1
        &&& valid_layout(m.targets@, m.stage_num)
        &&& drawn_layout(m.targets@, m.stage_num)
        &&& valid_outlaws(m.enemies@, m.stage_num)
        &&& m.result is None
        &&& !m.failed
        &&& m.hp == self.max_hp
        &&& m.damage_flash_us == 0
        &&& m.phase == Phase::Idle
        &&& m.elapsed_us == 0
        &&& m.shots == 0
        &&& m.status == (if m.stage_num >= 2 { Status::OutlawsDownrange } else { Status::NewStage })
        &&& m.rebuild
        &&& m.wait_left_us == self.wait_left_us
        &&& m.ammo == self.ammo
        &&& m.reloading == self.reloading
        &&& m.reload_left_us == self.reload_left_us
        &&& m.max_hp == self.max_hp
        &&& m.pending == self.pending
        &&& m.clear_marks == self.clear_marks
    }

    /// The match after `dt` more microseconds on the clock, before the outlaws
    /// act: the stage time runs, and a reload in progress runs down and, when
    /// done, fills the magazine.
    pub open spec fn clocked(self, dt: u64) -> Match {
        Match {
            elapsed_us: self.elapsed_us.saturating_add(dt),
            reloading: self.reloading && self.reload_left_us > dt,
            reload_left_us: if self.reloading { self.reload_left_us.saturating_sub(dt) } else { self.reload_left_us },
            ammo: if self.reloading && self.reload_left_us <= dt { MAG_SIZE } else { self.ammo },
            ..self
        }
    }

    /// What the outlaws do in `dt` when `hits` says which of their shots hit:
    /// each outlaw moves on (`Enemy::stepped`); each hit costs `ENEMY_DAMAGE`
    /// health (never below zero) and flashes the screen; the shots sound
    /// (`volley`). When a hit takes the last health, the attempt fails (`fails_into`).
    pub open spec fn volleys_into(self, dt: u64, hits: Seq<bool>, m: Match) -> bool {
        let k = hit_count(hits);
        let downed = k > 0 && self.hp - ENEMY_DAMAGE * k <= 0;
        &&& m.enemies@.len() == self.enemies@.len()
        &&& forall|i: int| 0 <= i < self.enemies@.len() ==> (#[trigger] self.enemies@[i]).stepped(m.enemies@[i], dt)
        &&& m.hp == hp_after(self.hp as int, k)
        &&& m.damage_flash_us == if k > 0 { DAMAGE_FLASH_US } else { self.damage_flash_us.saturating_sub(dt) }
        &&& m.pending@ == self.pending@ + volley(self.enemies@, dt, hits) + if downed { seq![Sfx::Penalty] } else { Seq::empty() }
        &&& if downed {
            &&& m.failed
            &&& m.result matches Some(s) && s.counts() == zero_tally() && s.time_us == stage_time(self.elapsed_us)
            &&& m.phase == Phase::Scored
            &&& m.status == Status::Downed
        } else {
            &&& m.failed == self.failed
            &&& m.result == self.result
            &&& m.phase == self.phase
            &&& m.status == self.status
        }
        &&& m == (Match {
            enemies: m.enemies,
            hp: m.hp,
            damage_flash_us: m.damage_flash_us,
            pending: m.pending,
            failed: m.failed,
            result: m.result,
            phase: m.phase,
            status: m.status,
            ..self
        })
    }

    /// What `dt` microseconds of play do. Idle or scored: nothing. Waiting:
    /// the delay runs down, and when it is over the buzzer sounds and the clock
    /// starts from zero. Running: the clock runs (`clocked`), the outlaws act
    /// (`volleys_into`, for some possible `hits`), and unless that downed the
    /// shooter, the stage is scored once every target is engaged and every
    /// outlaw is down (`all_engaged`, `scores_into`).
    pub open spec fn ticks_into(self, dt: u64, m: Match) -> bool {
        match self.phase {
            Phase::Waiting => if dt >= self.wait_left_us {
                &&& m.pending@ == self.pending@.push(Sfx::Buzzer)
                &&& m == (Match { wait_left_us: (self.wait_left_us - dt) as i128, phase: Phase::Running, elapsed_us: 0, status: Status::Go, pending: m.pending, ..self })
            } else {
                m == (Match { wait_left_us: (self.wait_left_us - dt) as i128, ..self })
            },
            Phase::Running => exists|hits: Seq<bool>, v: Match| {
                &&& #[trigger] self.clocked(dt).volleys_into(dt, hits, v)
                &&& hits_possible(self.enemies@, dt, hits)
                &&& if v.failed {
                    m == v
                } else if v.all_engaged() {
                    v.scores_into(m)
                } else {
                    m == v
                }
            },
            _ => m == self,
        }
    }

    /// Let `dt` microseconds of play pass (see `ticks_into`).
    pub fn tick(&mut self, dt: u64)
        requires
            old(self).wf(),
        ensures
            final(self).wf(),
            old(self).ticks_into(dt, *final(self)),
    {
        match self.phase {
            Phase::Waiting => {
                self.wait_left_us = self.wait_left_us - dt as i128;
                if self.wait_left_us <= 0 {
                    self.phase = Phase::Running;
                    self.elapsed_us = 0;
                    self.pending.push(Sfx::Buzzer);
                    self.status = Status::Go;
                }
            },
            Phase::Running => {
                self.elapsed_us = self.elapsed_us.saturating_add(dt);
                if self.reloading {
                    self.reload_left_us = self.reload_left_us.saturating_sub(dt);
                    if self.reload_left_us == 0 {
                        self.reloading = false;
                        self.ammo = MAG_SIZE;
                    }
                }
                let ghost c = *self;
                assert(c == old(self).clocked(dt));
                let hits = self.tick_enemies(dt);
                let ghost v = *self;
                assert(c.volleys_into(dt, hits@, v));
                if self.failed {
                    return;
                }
                if self.all_engaged_now() {
                    self.score();
                }
            },
            _ => {},
        }
    }

    /// Whether every target is engaged and every outlaw is down.
    fn all_engaged_now(&self) -> (b: bool)
        ensures
            b == self.all_engaged(),
    {
        let n = self.targets.len();
        let mut i: usize = 0;
        while i < n
            invariant
                n == self.targets@.len(),
                i <= n,
                forall|j: int| 0 <= j < i ==> satisfied_spec(#[trigger] self.targets@[j]),
            decreases n - i,
        {
            if !self.targets[i].satisfied() {
                return false;
            }
            i = i + 1;
        }
        let ne = self.enemies.len();
        let mut k: usize = 0;
        while k < ne
            invariant
                ne == self.enemies@.len(),
                k <= ne,
                forall|j: int| 0 <= j < k ==> !(#[trigger] self.enemies@[j]).alive,
            decreases ne - k,
        {
            if self.enemies[k].alive {
                return false;
            }
            k = k + 1;
        }
        true
    }

    /// The outlaws' part of a tick, given the draws: `rolls[k]` says whether
    /// outlaw `k`'s shot hits if it fires, and `delays[k]` is the time to its
    /// next shot if it fires. Each outlaw moves on (`Enemy::stepped`, its next
    /// shot `delays[k]` away); the shots that hit (`volley_hits`) cost health
    /// and may down the shooter (`volleys_into`).
    pub fn apply_volley(&mut self, dt: u64, rolls: &Vec<bool>, delays: &Vec<u64>)
        requires
            old(self).wf(),
            old(self).phase == Phase::Running,
            rolls@.len() == old(self).enemies@.len(),
            delays@.len() == old(self).enemies@.len(),
            forall|k: int| 0 <= k < delays@.len() ==> ENEMY_FIRE_MIN_US <= #[trigger] delays@[k] < ENEMY_FIRE_MAX_US,
        ensures
            final(self).wf(),
            old(self).volleys_into(dt, volley_hits(old(self).enemies@, dt, rolls@), *final(self)),
            forall|k: int| 0 <= k < old(self).enemies@.len() && (#[trigger] old(self).enemies@[k]).alive && old(self).enemies@[k].fires(dt)
                ==> final(self).enemies@[k].fire_in_us == delays@[k],
    {
        let ghost o = *old(self);
        self.damage_flash_us = self.damage_flash_us.saturating_sub(dt);
        let ghost mut hits: Seq<bool> = Seq::empty();
        let mut shot_player = false;
        let n = self.enemies.len();
        let mut i: usize = 0;
        while i < n
            invariant
                n == o.enemies@.len(),
                n == self.enemies@.len(),
                i <= n,
                o.wf(),
                o.phase == Phase::Running,
                rolls@.len() == n,
                delays@.len() == n,
                forall|j: int| 0 <= j < n ==> ENEMY_FIRE_MIN_US <= #[trigger] delays@[j] < ENEMY_FIRE_MAX_US,
                hits == volley_hits(o.enemies@, dt, rolls@).take(i as int),
                forall|j: int| 0 <= j < i && (#[trigger] o.enemies@[j]).alive && o.enemies@[j].fires(dt) ==> self.enemies@[j].fire_in_us == delays@[j],
                hits.len() == i,
                forall|j: int| 0 <= j < i && #[trigger] hits[j] ==> o.enemies@[j].alive && o.enemies@[j].fires(dt),
                forall|j: int| 0 <= j < i ==> (#[trigger] o.enemies@[j]).stepped(self.enemies@[j], dt),
                forall|j: int| i <= j < n ==> #[trigger] self.enemies@[j] == o.enemies@[j],
                hit_count(hits) <= i,
                self.hp == hp_after(o.hp as int, hit_count(hits)),
                shot_player == (hit_count(hits) > 0 && o.hp - ENEMY_DAMAGE * hit_count(hits) <= 0),
                self.damage_flash_us == if hit_count(hits) > 0 { DAMAGE_FLASH_US } else { o.damage_flash_us.saturating_sub(dt) },
                self.pending@ == o.pending@ + volley(o.enemies@.take(i as int), dt, hits),
                *self == (Match { enemies: self.enemies, hp: self.hp, damage_flash_us: self.damage_flash_us, pending: self.pending, ..o }),
            decreases n - i,
        {
            let ghost hits0 = hits;
            let ghost pend0 = self.pending@;
            assert(o.enemies@.take(i + 1).drop_last() =~= o.enemies@.take(i as int));
            assert(o.enemies@.take(i + 1).last() == o.enemies@[i as int]);
            assert((o.enemies@[i as int]).wf());
            if !self.enemies[i].alive {
                self.enemies[i].topple(dt);
                proof {
                    hits = hits.push(false);
                }
            } else {
                let fired = self.enemies[i].advance(dt, delays[i]);
                if fired {
                    self.pending.push(Sfx::Shot);
                    if rolls[i] {
                        self.hp = self.hp - ENEMY_DAMAGE;
                        self.damage_flash_us = DAMAGE_FLASH_US;
                        self.pending.push(Sfx::Hurt);
                        if self.hp <= 0 {
                            self.hp = 0;
                            shot_player = true;
                        }
                        proof {
                            hits = hits.push(true);
                        }
                    } else {
                        proof {
                            hits = hits.push(false);
                        }
                    }
                } else {
                    proof {
                        hits = hits.push(false);
                    }
                }
            }
            proof {
                assert(hits =~= volley_hits(o.enemies@, dt, rolls@).take(i + 1));
                assert(hits.drop_last() =~= hits0);
                lemma_volley_ext(o.enemies@.take(i as int), dt, hits0, hits);
                assert forall|j: int| 0 <= j < i + 1 && #[trigger] hits[j] implies o.enemies@[j].alive && o.enemies@[j].fires(dt) by {
                    if j < i {
                        assert(hits[j] == hits0[j]);
                    }
                }
            }
            i = i + 1;
        }
        assert(o.enemies@.take(n as int) =~= o.enemies@);
        assert(hits =~= volley_hits(o.enemies@, dt, rolls@));
        let ghost before = self.pending@;
        if shot_player {
            self.fail();
            assert(self.pending@ =~= before + seq![Sfx::Penalty]);
        } else {
            assert(self.pending@ =~= before + Seq::<Sfx>::empty());
        }
        assert forall|j: int| 0 <= j < n implies (#[trigger] self.enemies@[j]).wf() by {
            assert(o.enemies@[j].stepped(self.enemies@[j], dt));
        }
    }


    /// Move the outlaws and let them shoot back; may down the shooter. Draws,
    /// for each outlaw, whether its shot would hit (probability 1 / 2) and the
    /// time to its next shot (1.5 s to 2.8 s), then applies them (`apply_volley`).
    fn tick_enemies(&mut self, dt: u64) -> (hits: Ghost<Seq<bool>>)
        requires
            old(self).wf(),
            old(self).phase == Phase::Running,
        ensures
            final(self).wf(),
            hits_possible(old(self).enemies@, dt, hits@),
            old(self).volleys_into(dt, hits@, *final(self)),
    {
        let n = self.enemies.len();
        let mut rolls: Vec<bool> = Vec::new();
        let mut delays: Vec<u64> = Vec::new();
        let mut k: usize = 0;
        while k < n
            invariant
                k <= n,
                rolls@.len() == k,
                delays@.len() == k,
                forall|j: int| 0 <= j < k ==> ENEMY_FIRE_MIN_US <= #[trigger] delays@[j] < ENEMY_FIRE_MAX_US,
            decreases n - k,
        {
            rolls.push(chance(ENEMY_HIT_NUM, ENEMY_HIT_DEN));
            delays.push(random_in(ENEMY_FIRE_MIN_US as i64, ENEMY_FIRE_MAX_US as i64) as u64);
            k = k + 1;
        }
        let ghost hits = volley_hits(self.enemies@, dt, rolls@);
        self.apply_volley(dt, &rolls, &delays);
        Ghost(hits)
    }

    /// Whether a shot can be fired right now (running, loaded, not reloading).
    pub fn can_fire(&self) -> (b: bool)
        ensures
            b == (self.phase == Phase::Running && !self.reloading && self.ammo > 0),
    {
        self.phase == Phase::Running && !self.reloading && self.ammo > 0
    }

    /// Begin a reload, only while running, not already reloading and not full.
    pub fn reload(&mut self)
        requires
            old(self).wf(),
        ensures
            final(self).wf(),
            ({
                let o = old(self);
                if o.phase == Phase::Running && !o.reloading && o.ammo < MAG_SIZE {
                    &&& final(self).reloading
                    &&& final(self).reload_left_us == RELOAD_TIME_US
                    &&& final(self).pending@ == o.pending@.push(Sfx::Reload)
                    &&& *final(self) == (Match { reloading: true, reload_left_us: RELOAD_TIME_US, pending: final(self).pending, ..*o })
                } else {
                    *final(self) == *o
                }
            }),
    {
        if self.phase == Phase::Running && !self.reloading && self.ammo < MAG_SIZE {
            self.reloading = true;
            self.reload_left_us = RELOAD_TIME_US;
            self.pending.push(Sfx::Reload);
        }
    }

    /// Dry-fire click when the trigger is pulled on an empty chamber.
    pub fn dry_fire(&mut self)
        ensures
            final(self).pending@ == old(self).pending@.push(Sfx::Empty),
            *final(self) == (Match { pending: final(self).pending, ..*old(self) }),
    {
        self.pending.push(Sfx::Empty);
    }

    /// What the shot strikes (`shot_hit`).
    fn pick_shot(&self, target_hits: &Vec<Option<RayCross>>, enemy_hits: &Vec<Option<RayCross>>) -> (r: ShotHit)
        ensures
            r == shot_hit(self.targets@, self.enemies@, target_hits@, enemy_hits@),
            r matches ShotHit::Enemy(k) ==> k < self.enemies@.len() && k < enemy_hits@.len()
                && self.enemies@[k as int].alive && enemy_hits@[k as int] is Some,
            r matches ShotHit::Target(i) ==> i < self.targets@.len() && i < target_hits@.len()
                && target_hits@[i as int] is Some,
    {

        let nt = if self.targets.len() <= target_hits.len() { self.targets.len() } else { target_hits.len() };
        let mut tc: Vec<Option<u128>> = Vec::new();
        let mut i: usize = 0;
        while i < nt
            invariant
                nt == face_dists(target_hits@, self.targets@).len(),
                i <= nt,
                tc@ == face_dists(target_hits@, self.targets@).take(i as int),
            decreases nt - i,
        {
            let d = match target_hits[i] {
                Some(h) => {
                    let t = &self.targets[i];
                    if on_face_check(t.kind, t.hw, t.hh, h.off_x, h.off_y) { Some(h.dist as u128) } else { None }
                },
                None => None,
            };
            tc.push(d);
            i = i + 1;
        }
        assert(tc@ =~= face_dists(target_hits@, self.targets@));
        let ne = if self.enemies.len() <= enemy_hits.len() { self.enemies.len() } else { enemy_hits.len() };
        let mut ec: Vec<Option<u128>> = Vec::new();
        let mut k: usize = 0;
        while k < ne
            invariant
                ne == outlaw_dists(enemy_hits@, self.enemies@).len(),
                k <= ne,
                ec@ == outlaw_dists(enemy_hits@, self.enemies@).take(k as int),
            decreases ne - k,
        {
            let d = match enemy_hits[k] {
                Some(h) => {
                    let ax: i64 = if h.off_x < 0 { if h.off_x < -ENEMY_HW { ENEMY_HW + 1 } else { -h.off_x } } else { h.off_x };
                    let ay: i64 = if h.off_y < 0 { if h.off_y < -ENEMY_HH { ENEMY_HH + 1 } else { -h.off_y } } else { h.off_y };
                    if self.enemies[k].alive && ax <= ENEMY_HW && ay <= ENEMY_HH { Some(h.dist as u128) } else { None }
                },
                None => None,
            };
            ec.push(d);
            k = k + 1;
        }
        assert(ec@ =~= outlaw_dists(enemy_hits@, self.enemies@));
        let tb = nearest_index(&tc);
        let eb = nearest_index(&ec);
        proof {
            crate::aim::lemma_nearest_is_nearest(tc@);
            crate::aim::lemma_nearest_is_nearest(ec@);
        }
        match (tb, eb) {
            (Some(ti), Some(ek)) => {
                let td: u128 = match tc[ti] { Some(d) => d, None => 0 };
                let ed: u128 = match ec[ek] { Some(d) => d, None => 0 };
                if ed <= td { ShotHit::Enemy(ek) } else { ShotHit::Target(ti) }
            },
            (None, Some(ek)) => ShotHit::Enemy(ek),
            (Some(ti), None) => ShotHit::Target(ti),
            (None, None) => ShotHit::Miss,
        }
    }

    /// Fire a shot. `target_hits[i]` says where the ray crosses the plane of
    /// target `i` (if it does, in front) and `enemy_hits[k]` where it crosses
    /// the plane of outlaw `k`'s torso. The shot counts, takes a round (if any is left) and sounds; the
    /// nearest thing it meets (`shot_hit`) takes the hit.
    pub fn shoot(&mut self, target_hits: &Vec<Option<RayCross>>, enemy_hits: &Vec<Option<RayCross>>) -> (r: ShotResult)
        requires
            old(self).wf(),
            old(self).shots < u32::MAX,
        ensures
            final(self).wf(),
            old(self).shoots_into(target_hits@, enemy_hits@, *final(self), r),
    {
        self.shots = self.shots + 1;
        self.ammo = self.ammo.saturating_sub(1);
        self.pending.push(Sfx::Shot);
        let ghost m1 = *self;
        let pick = self.pick_shot(target_hits, enemy_hits);
        match pick {
            ShotHit::Enemy(ek) => {
                let died = self.enemies[ek].take_hit();
                self.pending.push(Sfx::Paper);
                if died {
                    self.pending.push(Sfx::Down);
                }
                ShotResult { on_target: true, bad: false, hit: ShotHit::Enemy(ek) }
            },
            ShotHit::Target(ti) => {
                proof {
                    lemma_element_ns(self.targets@, ti as int);
                }
                let zone = match target_hits[ti] {
                    Some(h) => paper_zone(h.off_x, h.off_y, self.targets[ti].hw, self.targets[ti].hh),
                    None => crate::target::Zone::D,
                };
                let (bad, sound) = self.targets[ti].take_hit(zone);
                match sound {
                    Some(sfx) => self.pending.push(sfx),
                    None => {},
                }
                proof {
                    lemma_update_ns(m1.targets@, ti as int, self.targets@[ti as int]);
                }
                ShotResult { on_target: true, bad, hit: ShotHit::Target(ti) }
            },
            ShotHit::Miss => ShotResult { on_target: false, bad: false, hit: ShotHit::Miss },
        }
    }

    /// What firing does: the shot counts, takes a round if any is left and
    /// sounds; then what `shot_hit` picks takes the hit. An outlaw loses a
    /// hit point (going down at none) with a thwack, and a "down" sound when
    /// it falls; a target takes the hit as `hit_target` says in the zone the
    /// ray met, with its `hit_sound`; a miss changes nothing more.
    pub open spec fn shoots_into(self, th: Seq<Option<RayCross>>, eh: Seq<Option<RayCross>>, m: Match, r: ShotResult) -> bool {
        let base = Match {
            shots: (self.shots + 1) as u32,
            ammo: self.ammo.saturating_sub(1),
            pending: m.pending,
            targets: m.targets,
            enemies: m.enemies,
            ..self
        };
        let sounds = self.pending@.push(Sfx::Shot);
        &&& m == base
        &&& match shot_hit(self.targets@, self.enemies@, th, eh) {
            ShotHit::Enemy(k) => {
                let e = self.enemies@[k as int];
                let died = e.hp - 1 <= 0;
                &&& m.targets@ == self.targets@
                &&& m.enemies@ == self.enemies@.update(k as int, Enemy {
                    hp: (e.hp - 1) as i32,
                    hit_flash_us: HIT_FLASH_US,
                    alive: !died,
                    fall_us: if died { 0 } else { e.fall_us },
                    ..e
                })
                &&& m.pending@ == if died { sounds.push(Sfx::Paper).push(Sfx::Down) } else { sounds.push(Sfx::Paper) }
                &&& r == (ShotResult { on_target: true, bad: false, hit: ShotHit::Enemy(k) })
            },
            ShotHit::Target(i) => {
                let t = self.targets@[i as int];
                &&& m.enemies@ == self.enemies@
                &&& m.targets@.len() == self.targets@.len()
                &&& forall|j: int| 0 <= j < m.targets@.len() && j != i ==> #[trigger] m.targets@[j] == self.targets@[j]
                &&& hit_target(t, m.targets@[i as int], zone_at(th[i as int].unwrap().off_x, th[i as int].unwrap().off_y, t.hw, t.hh))
                &&& m.pending@ == match hit_sound(t) { Some(s) => sounds.push(s), None => sounds }
                &&& r == (ShotResult { on_target: true, bad: t.kind == TKind::NoShoot, hit: ShotHit::Target(i) })
            },
            ShotHit::Miss => {
                &&& m.targets@ == self.targets@
                &&& m.enemies@ == self.enemies@
                &&& m.pending@ == sounds
                &&& r == (ShotResult { on_target: false, bad: false, hit: ShotHit::Miss })
            },
        }
    }

    /// Stop the clock and score, when running; otherwise nothing happens.
    pub fn stop(&mut self)
        requires
            old(self).wf(),
        ensures
            final(self).wf(),
            old(self).phase == Phase::Running ==> old(self).scores_into(*final(self)),
            old(self).phase != Phase::Running ==> *final(self) == *old(self),
    {
        if self.phase == Phase::Running {
            self.score();
        }
    }

    /// What scoring the current attempt does: the result is the score of the
    /// targets over the stage time, the phase becomes Scored, and the clear
    /// sound plays when the points are positive, else the penalty honk.
    pub open spec fn scores_into(self, m: Match) -> bool {
        &&& m.result is Some
        &&& self.scored_as(m.result.unwrap())
        &&& m.phase == Phase::Scored
        &&& m.status == Status::Scored
        &&& m.pending@ == self.pending@.push(if m.result.unwrap().points > 0 { Sfx::Clear } else { Sfx::Penalty })
        &&& m == (Match { result: m.result, phase: Phase::Scored, status: Status::Scored, pending: m.pending, ..self })
    }

    fn score(&mut self)
        requires
            old(self).wf(),
            old(self).phase == Phase::Running || old(self).phase == Phase::Scored,
            !old(self).failed,
        ensures
            final(self).wf(),
            old(self).scores_into(*final(self)),
    {
        let time = if self.elapsed_us < MIN_STAGE_TIME_US { MIN_STAGE_TIME_US } else { self.elapsed_us };
        let s = score_targets(&self.targets, time);
        self.result = Some(s);
        self.phase = Phase::Scored;
        self.status = Status::Scored;
        if s.points > 0 {
            self.pending.push(Sfx::Clear);
        } else {
            self.pending.push(Sfx::Penalty);
        }
    }

    /// What being downed does: the attempt fails with an empty score over the
    /// stage time, the phase becomes Scored, and the penalty honk plays.
    pub open spec fn fails_into(self, m: Match) -> bool {
        &&& m.failed
        &&& m.result == Some(Score { time_us: stage_time(self.elapsed_us), ..m.result.unwrap() })
        &&& m.result.unwrap().counts() == zero_tally()
        &&& m.phase == Phase::Scored
        &&& m.status == Status::Downed
        &&& m.pending@ == self.pending@.push(Sfx::Penalty)
        &&& m == (Match { failed: true, result: m.result, phase: Phase::Scored, status: Status::Downed, pending: m.pending, ..self })
    }

    fn fail(&mut self)
        requires
            old(self).hp == 0,
        ensures
            old(self).fails_into(*final(self)),
    {
        self.failed = true;
        let time = if self.elapsed_us < MIN_STAGE_TIME_US { MIN_STAGE_TIME_US } else { self.elapsed_us };
        self.result = Some(Score::zero(time));
        self.phase = Phase::Scored;
        self.status = Status::Downed;
        self.pending.push(Sfx::Penalty);
    }
}

/// A shot goes to the nearest thing the ray strikes. When it goes to an
/// outlaw, that outlaw is alive, the ray meets its torso, and no struck target
/// face is nearer; when it goes to a target, the ray meets that face, no struck
/// face is nearer and every struck live outlaw is farther. The shot misses
/// exactly when the ray strikes nothing.
pub proof fn law_shot_takes_the_nearest(targets: Seq<Target>, enemies: Seq<Enemy>, th: Seq<Option<RayCross>>, eh: Seq<Option<RayCross>>)
    requires
        th.len() <= usize::MAX,
        eh.len() <= usize::MAX,
    ensures
        shot_hit(targets, enemies, th, eh) matches ShotHit::Enemy(k) ==> {
            &&& k < enemies.len() && k < eh.len()
            &&& enemies[k as int].alive
            &&& eh[k as int] is Some
            &&& crate::aim::abs_i(eh[k as int].unwrap().off_x as int) <= ENEMY_HW
            &&& crate::aim::abs_i(eh[k as int].unwrap().off_y as int) <= ENEMY_HH
            &&& forall|i: int| 0 <= i < targets.len() && i < th.len() && (#[trigger] th[i]) is Some
                && on_face(targets[i].kind, targets[i].hw, targets[i].hh, th[i].unwrap().off_x as int, th[i].unwrap().off_y as int)
                ==> eh[k as int].unwrap().dist <= th[i].unwrap().dist
        },
        shot_hit(targets, enemies, th, eh) matches ShotHit::Target(i) ==> {
            &&& i < targets.len() && i < th.len()
            &&& th[i as int] is Some
            &&& on_face(targets[i as int].kind, targets[i as int].hw, targets[i as int].hh, th[i as int].unwrap().off_x as int, th[i as int].unwrap().off_y as int)
            &&& forall|j: int| 0 <= j < targets.len() && j < th.len() && (#[trigger] th[j]) is Some
                && on_face(targets[j].kind, targets[j].hw, targets[j].hh, th[j].unwrap().off_x as int, th[j].unwrap().off_y as int)
                ==> th[i as int].unwrap().dist <= th[j].unwrap().dist
            &&& forall|k: int| 0 <= k < enemies.len() && k < eh.len() && (#[trigger] eh[k]) is Some && enemies[k].alive
                && crate::aim::abs_i(eh[k].unwrap().off_x as int) <= ENEMY_HW && crate::aim::abs_i(eh[k].unwrap().off_y as int) <= ENEMY_HH
                ==> th[i as int].unwrap().dist < eh[k].unwrap().dist
        },
        shot_hit(targets, enemies, th, eh) is Miss <==> {
            &&& forall|i: int| 0 <= i < targets.len() && i < th.len() && (#[trigger] th[i]) is Some
                ==> !on_face(targets[i].kind, targets[i].hw, targets[i].hh, th[i].unwrap().off_x as int, th[i].unwrap().off_y as int)
            &&& forall|k: int| 0 <= k < enemies.len() && k < eh.len() && (#[trigger] eh[k]) is Some && enemies[k].alive
                ==> !(crate::aim::abs_i(eh[k].unwrap().off_x as int) <= ENEMY_HW && crate::aim::abs_i(eh[k].unwrap().off_y as int) <= ENEMY_HH)
        },
{
    let tc = face_dists(th, targets);
    let ec = outlaw_dists(eh, enemies);
    crate::aim::lemma_nearest_is_nearest(tc);
    crate::aim::lemma_nearest_is_nearest(ec);
    assert forall|i: int| 0 <= i < targets.len() && i < th.len() && (#[trigger] th[i]) is Some
        && on_face(targets[i].kind, targets[i].hw, targets[i].hh, th[i].unwrap().off_x as int, th[i].unwrap().off_y as int)
        implies tc[i] == Some(th[i].unwrap().dist as u128) by {}
    assert forall|k: int| 0 <= k < enemies.len() && k < eh.len() && (#[trigger] eh[k]) is Some && enemies[k].alive
        && crate::aim::abs_i(eh[k].unwrap().off_x as int) <= ENEMY_HW && crate::aim::abs_i(eh[k].unwrap().off_y as int) <= ENEMY_HH
        implies ec[k] == Some(eh[k].unwrap().dist as u128) by {}
    match (nearest(tc), nearest(ec)) {
        (Some(i), Some(k)) => {
            assert(tc[i] is Some && ec[k] is Some);
            assert((i as usize) as int == i && (k as usize) as int == k);
            if ec[k].unwrap() <= tc[i].unwrap() {
                assert(shot_hit(targets, enemies, th, eh) == ShotHit::Enemy(k as usize));
            } else {
                assert(shot_hit(targets, enemies, th, eh) == ShotHit::Target(i as usize));
            }
        },
        (None, Some(k)) => {
            assert(ec[k] is Some);
            assert((k as usize) as int == k);
            assert(shot_hit(targets, enemies, th, eh) == ShotHit::Enemy(k as usize));
        },
        (Some(i), None) => {
            assert(tc[i] is Some);
            assert((i as usize) as int == i);
            assert(shot_hit(targets, enemies, th, eh) == ShotHit::Target(i as usize));
        },
        (None, None) => {},
    }
}

/// Once every paper holds two hits, every steel is down and every outlaw is
/// down, the next tick of a running match scores it, whatever the no-shoots hold.
pub proof fn law_cleared_match_scores_on_tick(m: Match, dt: u64, m2: Match)
    requires
        m.wf(),
        m.phase == Phase::Running,
        forall|i: int| 0 <= i < m.targets@.len() && (#[trigger] m.targets@[i]).kind == TKind::Paper ==> m.targets@[i].hits@.len() >= 2,
        forall|i: int| 0 <= i < m.targets@.len() && (#[trigger] m.targets@[i]).kind == TKind::Steel ==> m.targets@[i].down,
        forall|k: int| 0 <= k < m.enemies@.len() ==> !(#[trigger] m.enemies@[k]).alive,
        m.ticks_into(dt, m2),
    ensures
        m2.phase == Phase::Scored,
        m2.result is Some,
{
    let c = m.clocked(dt);
    let (hits, v) = choose|hits: Seq<bool>, v: Match| {
        &&& #[trigger] c.volleys_into(dt, hits, v)
        &&& hits_possible(m.enemies@, dt, hits)
        &&& if v.failed {
            m2 == v
        } else if v.all_engaged() {
            v.scores_into(m2)
        } else {
            m2 == v
        }
    };
    assert(c.enemies@ == m.enemies@);
    lemma_no_hits(hits);
    assert(!v.failed);
    assert(v.targets@ == m.targets@);
    assert forall|i: int| 0 <= i < v.targets@.len() implies satisfied_spec(#[trigger] v.targets@[i]) by {
        assert(v.targets@[i] == m.targets@[i]);
    }
    assert forall|k: int| 0 <= k < v.enemies@.len() implies !(#[trigger] v.enemies@[k]).alive by {
        assert(m.enemies@[k].stepped(v.enemies@[k], dt));
    }
    assert(v.all_engaged());
}

/// No shot hits when none of the flags is set.
proof fn lemma_no_hits(hits: Seq<bool>)
    requires
        forall|i: int| 0 <= i < hits.len() ==> !#[trigger] hits[i],
    ensures
        hit_count(hits) == 0,
    decreases hits.len(),
{
    if hits.len() > 0 {
        lemma_no_hits(hits.drop_last());
    }
}

/// Making ready, waiting out the buzzer and stopping without firing a shot
/// scores every required hit as a mike: two per paper and one per steel, minus
/// ten points each.
pub proof fn law_stop_without_shooting(m0: Match, m1: Match, dt: u64, m2: Match, m3: Match)
    requires
        m0.wf(),
        m0.phase == Phase::Idle || m0.phase == Phase::Scored,
        m0.readies_into(m1),
        dt >= m1.wait_left_us,
        m1.ticks_into(dt, m2),
        m2.scores_into(m3),
    ensures
        m3.phase == Phase::Scored,
        m3.result matches Some(s) && {
            &&& s.mikes == 2 * count_cards(m0.targets@, TKind::Paper) + count_cards(m0.targets@, TKind::Steel)
            &&& s.points == -20 * count_cards(m0.targets@, TKind::Paper) - 10 * count_cards(m0.targets@, TKind::Steel)
            &&& s.time_us == MIN_STAGE_TIME_US
        },
{
    assert(m2.targets@ == m1.targets@);
    assert forall|i: int| 0 <= i < m1.targets@.len() implies {
        &&& (#[trigger] m1.targets@[i].card()).hits.len() == 0
        &&& m1.targets@[i].card().ns_hits == 0
        &&& !m1.targets@[i].card().down
    } by {
        assert(is_fresh(m1.targets@[i]));
    }
    law_untouched_stage(m1.targets@);
    lemma_same_kinds(m0.targets@, m1.targets@);
}

/// Targets with the same kinds, place by place, have the same counts of each kind.
proof fn lemma_same_kinds(a: Seq<Target>, b: Seq<Target>)
    requires
        a.len() == b.len(),
        forall|j: int| 0 <= j < a.len() ==> same_face(#[trigger] b[j], a[j]),
    ensures
        forall|k: TKind| count_cards(a, k) == #[trigger] count_cards(b, k),
    decreases a.len(),
{
    if a.len() > 0 {
        let (pa, pb) = (a.drop_last(), b.drop_last());
        assert forall|j: int| 0 <= j < pa.len() implies same_face(#[trigger] pb[j], pa[j]) by {
            assert(pb[j] == b[j] && pa[j] == a[j]);
        }
        lemma_same_kinds(pa, pb);
        assert(same_face(b[a.len() - 1], a[a.len() - 1]));
        assert forall|k: TKind| count_cards(a, k) == #[trigger] count_cards(b, k) by {
            assert(count_cards(pa, k) == count_cards(pb, k));
        }
    }
}

/// An outlaw stood back up at home, as `Enemy::reset` leaves it.
pub open spec fn enemy_reset(e: Enemy, r: Enemy) -> bool {
    &&& r.wf()
    &&& r.center == (Pos { x: e.home_x, ..e.center })
    &&& r.home_x == e.home_x
    &&& r.patrol == e.patrol
    &&& r.dir == e.dir
    &&& r.hp == ENEMY_HP
    &&& r.alive
    &&& ENEMY_FIRST_FIRE_MIN_US <= r.fire_in_us < ENEMY_FIRST_FIRE_MAX_US
    &&& r.flash_us == 0
    &&& r.hit_flash_us == 0
    &&& r.fall_us == 0
}

/// A layout that nobody has shot at holds no no-shoot hits.
pub proof fn lemma_fresh_ns(ts: Seq<Target>)
    requires
        forall|i: int| 0 <= i < ts.len() ==> (#[trigger] ts[i]).ns_hits == 0,
    ensures
        tally_of(ts).ns == 0,
    decreases ts.len(),
{
    if ts.len() > 0 {
        lemma_fresh_ns(ts.drop_last());
    }
}

} // verus!
