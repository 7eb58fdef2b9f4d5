use vstd::prelude::*;
use crate::random::{chance, random_in};
use crate::target::Pos;

verus! {

/// Half width and half height of an outlaw's torso, the zone that takes hits,
/// and the height of its centre (micrometres).
pub const ENEMY_HW: i64 = 340_000;
pub const ENEMY_HH: i64 = 520_000;
pub const ENEMY_Y: i64 = 1_050_000;
/// Hits an outlaw takes before it goes down.
pub const ENEMY_HP: i32 = 5;
/// Hit points an outlaw's hit takes from the shooter, and the shooter's health.
pub const ENEMY_DAMAGE: i32 = 14;
pub const PLAYER_HP: i32 = 100;
/// An outlaw's shot hits the shooter with probability 1 / 2.
pub const ENEMY_HIT_NUM: u32 = 1;
pub const ENEMY_HIT_DEN: u32 = 2;
/// Time to the first shot of a fresh outlaw, and between its later shots (microseconds).
pub const ENEMY_FIRST_FIRE_MIN_US: u64 = 1_400_000;
pub const ENEMY_FIRST_FIRE_MAX_US: u64 = 2_600_000;
pub const ENEMY_FIRE_MIN_US: u64 = 1_500_000;
pub const ENEMY_FIRE_MAX_US: u64 = 2_800_000;
/// How long the muzzle flash and the got-hit tint show, and how long a
/// downed outlaw takes to topple (microseconds).
pub const MUZZLE_FLASH_US: u64 = 60_000;
pub const HIT_FLASH_US: u64 = 120_000;
pub const FALL_US: u64 = 400_000;

/// Distance (micrometres) an outlaw strafes in `dt` microseconds: 2.6 m/s.
pub open spec fn strafe_step(dt: u64) -> int {
    (dt * 26) / 10
}

pub open spec fn abs_int(v: int) -> int {
    if v < 0 { -v } else { v }
}

/// Topple progress after `dt` more microseconds.
pub open spec fn fall_after(fall: u64, dt: u64) -> u64 {
    if fall + dt >= FALL_US { FALL_US } else { (fall + dt) as u64 }
}

/// A wild-west outlaw: strafes across the bay (a moving target) and fires back.
#[derive(Clone, Copy, Debug)]
pub struct Enemy {
    /// Torso centre; x strafes, z stays.
    pub center: Pos,
    pub home_x: i64,
    /// Half width of the strafe, around `home_x`.
    pub patrol: i64,
    /// Strafe direction along x: 1 or -1.
    pub dir: i64,
    pub hp: i32,
    pub alive: bool,
    /// Time to the next shot.
    pub fire_in_us: u64,
    /// Muzzle-flash render timer.
    pub flash_us: u64,
    /// Got-hit tint timer.
    pub hit_flash_us: u64,
    /// Death topple progress, from 0 to `FALL_US`.
    pub fall_us: u64,
}

/// An outlaw never leaves its patrol: whatever its position, after a strafe
/// of any length it stands within `patrol` of home, still facing one way or
/// the other.
pub proof fn law_outlaw_stays_in_patrol(e: Enemy, dt: u64)
    requires
        e.dir == 1 || e.dir == -1,
        0 <= e.patrol,
    ensures
        e.home_x - e.patrol <= e.strafed_x(dt) <= e.home_x + e.patrol,
        e.strafed_dir(dt) == 1 || e.strafed_dir(dt) == -1,
{
}

impl Enemy {
    /// What every outlaw keeps: a unit direction, a strafe within its patrol,
    /// alive exactly while it has hit points left.
    pub open spec fn wf(self) -> bool {
        &&& self.dir == 1 || self.dir == -1
        &&& 0 <= self.patrol
        &&& i64::MIN <= self.home_x - self.patrol
        &&& self.home_x + self.patrol <= i64::MAX
        &&& self.home_x - self.patrol <= self.center.x <= self.home_x + self.patrol
        &&& 0 <= self.hp <= ENEMY_HP
        &&& self.alive <==> self.hp > 0
        &&& self.fall_us <= FALL_US
    }

    /// Where the strafe of `dt` would take the outlaw, before turning at the ends.
    pub open spec fn stepped_x(self, dt: u64) -> int {
        if self.dir == 1 {
            self.center.x + strafe_step(dt)
        } else {
            self.center.x - strafe_step(dt)
        }
    }

    /// Whether the strafe of `dt` reaches an end of the patrol.
    pub open spec fn turns(self, dt: u64) -> bool {
        abs_int(self.stepped_x(dt) - self.home_x) >= self.patrol
    }

    /// Position across the bay after strafing for `dt`: at an end of the patrol
    /// it stops at that end (and turns round).
    pub open spec fn strafed_x(self, dt: u64) -> int {
        if self.turns(dt) {
            if self.dir == 1 { self.home_x + self.patrol } else { self.home_x - self.patrol }
        } else {
            self.stepped_x(dt)
        }
    }

    pub open spec fn strafed_dir(self, dt: u64) -> int {
        if self.turns(dt) { -self.dir } else { self.dir as int }
    }

    /// Whether a live outlaw's shot comes due within `dt`.
    pub open spec fn fires(self, dt: u64) -> bool {
        self.fire_in_us <= dt
    }

    /// How an outlaw can stand after `dt` microseconds of play: a downed one
    /// only topples further; a live one strafes and runs down its timers as
    /// `advance` says, its next shot set anew when one came due.
    pub open spec fn stepped(self, e2: Enemy, dt: u64) -> bool {
        &&& e2.wf()
        &&& if !self.alive {
            e2 == (Enemy { fall_us: fall_after(self.fall_us, dt), ..self })
        } else {
            &&& e2.center == (Pos { x: self.strafed_x(dt) as i64, ..self.center })
            &&& e2.dir == self.strafed_dir(dt)
            &&& e2.home_x == self.home_x
            &&& e2.patrol == self.patrol
            &&& e2.hp == self.hp
            &&& e2.alive == self.alive
            &&& e2.fall_us == self.fall_us
            &&& e2.hit_flash_us == self.hit_flash_us.saturating_sub(dt)
            &&& if self.fires(dt) {
                &&& ENEMY_FIRE_MIN_US <= e2.fire_in_us < ENEMY_FIRE_MAX_US
                &&& e2.flash_us == MUZZLE_FLASH_US
            } else {
                &&& e2.fire_in_us == self.fire_in_us - dt
                &&& e2.flash_us == self.flash_us.saturating_sub(dt)
            }
        }
    }

    /// A fresh outlaw at (`x`, torso height, `z`), patrolling `patrol` either side of `x`,
    /// facing a random way, with its first shot due in 1.4 s to 2.6 s.
    pub fn new(x: i64, z: i64, patrol: i64) -> (e: Enemy)
        requires
            0 <= patrol,
            i64::MIN <= x - patrol,
            x + patrol <= i64::MAX,
        ensures
            e.wf(),
            e.center == (Pos { x, y: ENEMY_Y, z }),
            e.home_x == x,
            e.patrol == patrol,
            e.hp == ENEMY_HP,
            e.alive,
            ENEMY_FIRST_FIRE_MIN_US <= e.fire_in_us < ENEMY_FIRST_FIRE_MAX_US,
            e.flash_us == 0,
            e.hit_flash_us == 0,
            e.fall_us == 0,
    {
        let dir: i64 = if chance(1, 2) { 1 } else { -1 };
        let fire_in = random_in(ENEMY_FIRST_FIRE_MIN_US as i64, ENEMY_FIRST_FIRE_MAX_US as i64) as u64;
        Enemy {
            center: Pos { x, y: ENEMY_Y, z },
            home_x: x,
            patrol,
            dir,
            hp: ENEMY_HP,
            alive: true,
            fire_in_us: fire_in,
            flash_us: 0,
            hit_flash_us: 0,
            fall_us: 0,
        }
    }

    /// Stand the outlaw back up at home for a new attempt, its first shot due
    /// in 1.4 s to 2.6 s. Its direction is kept.
    pub fn reset(&mut self)
        requires
            old(self).wf(),
        ensures
            final(self).wf(),
            final(self).center == (Pos { x: old(self).home_x, ..old(self).center }),
            final(self).home_x == old(self).home_x,
            final(self).patrol == old(self).patrol,
            final(self).dir == old(self).dir,
            final(self).hp == ENEMY_HP,
            final(self).alive,
            ENEMY_FIRST_FIRE_MIN_US <= final(self).fire_in_us < ENEMY_FIRST_FIRE_MAX_US,
            final(self).flash_us == 0,
            final(self).hit_flash_us == 0,
            final(self).fall_us == 0,
    {
        self.center.x = self.home_x;
        self.hp = ENEMY_HP;
        self.alive = true;
        self.fire_in_us = random_in(ENEMY_FIRST_FIRE_MIN_US as i64, ENEMY_FIRST_FIRE_MAX_US as i64) as u64;
        self.flash_us = 0;
        self.hit_flash_us = 0;
        self.fall_us = 0;
    }

    /// Strafe for `dt`, turning round at the ends of the patrol. Wherever the
    /// outlaw stood, it ends within its patrol.
    pub fn strafe(&mut self, dt: u64)
        requires
            old(self).dir == 1 || old(self).dir == -1,
            0 <= old(self).patrol,
            i64::MIN <= old(self).home_x - old(self).patrol,
            old(self).home_x + old(self).patrol <= i64::MAX,
        ensures
            old(self).wf() ==> final(self).wf(),
            final(self).dir == 1 || final(self).dir == -1,
            final(self).home_x - final(self).patrol <= final(self).center.x <= final(self).home_x + final(self).patrol,
            final(self).center.x == old(self).strafed_x(dt),
            final(self).dir == old(self).strafed_dir(dt),
            *final(self) == (Enemy { center: Pos { x: final(self).center.x, ..old(self).center }, dir: final(self).dir, ..*old(self) }),
    {
        let step: i128 = (dt as i128) * 26 / 10;
        let x: i128 = self.center.x as i128;
        let nx: i128 = if self.dir == 1 { x + step } else { x - step };
        let off: i128 = nx - self.home_x as i128;
        if off >= self.patrol as i128 || off <= -(self.patrol as i128) {
            self.center.x = if self.dir == 1 { self.home_x + self.patrol } else { self.home_x - self.patrol };
            self.dir = -self.dir;
        } else {
            self.center.x = nx as i64;
        }
    }

    /// Let a live outlaw's time pass: strafe, run down its render timers and
    /// the time to its next shot. When the shot comes due (`fires`), the next
    /// one is set `next_fire_us` away and the muzzle flashes. Returns whether it fired.
    pub fn advance(&mut self, dt: u64, next_fire_us: u64) -> (fired: bool)
        requires
            old(self).wf(),
        ensures
            final(self).wf(),
            fired == old(self).fires(dt),
            final(self).center == (Pos { x: old(self).strafed_x(dt) as i64, ..old(self).center }),
            final(self).dir == old(self).strafed_dir(dt),
            final(self).home_x == old(self).home_x,
            final(self).patrol == old(self).patrol,
            final(self).hp == old(self).hp,
            final(self).alive == old(self).alive,
            final(self).fall_us == old(self).fall_us,
            final(self).hit_flash_us == old(self).hit_flash_us.saturating_sub(dt),
            fired ==> final(self).fire_in_us == next_fire_us,
            fired ==> final(self).flash_us == MUZZLE_FLASH_US,
            !fired ==> final(self).fire_in_us == old(self).fire_in_us - dt,
            !fired ==> final(self).flash_us == old(self).flash_us.saturating_sub(dt),
    {
        self.strafe(dt);
        self.flash_us = self.flash_us.saturating_sub(dt);
        self.hit_flash_us = self.hit_flash_us.saturating_sub(dt);
        self.fire_in_us = self.fire_in_us.saturating_sub(dt);
        let fired = self.fire_in_us == 0;
        if fired {
            self.fire_in_us = next_fire_us;
            self.flash_us = MUZZLE_FLASH_US;
        }
        fired
    }

    /// Take a hit on the torso: one hit point less and the got-hit tint; with
    /// none left the outlaw goes down and starts to topple. Returns whether it went down.
    pub fn take_hit(&mut self) -> (died: bool)
        requires
            old(self).wf(),
            old(self).alive,
        ensures
            final(self).wf(),
            died == (old(self).hp - 1 <= 0),
            *final(self) == (Enemy {
                hp: (old(self).hp - 1) as i32,
                hit_flash_us: HIT_FLASH_US,
                alive: !died,
                fall_us: if died { 0 } else { old(self).fall_us },
                ..*old(self)
            }),
    {
        self.hp = self.hp - 1;
        self.hit_flash_us = HIT_FLASH_US;
        let died = self.hp <= 0;
        if died {
            self.alive = false;
            self.fall_us = 0;
        }
        died
    }

    /// A downed outlaw topples over `FALL_US`.
    pub fn topple(&mut self, dt: u64)
        requires
            old(self).wf(),
        ensures
            final(self).wf(),
            final(self).fall_us == fall_after(old(self).fall_us, dt),
            *final(self) == (Enemy { fall_us: final(self).fall_us, ..*old(self) }),
    {
        if self.fall_us < FALL_US {
            if dt >= FALL_US - self.fall_us {
                self.fall_us = FALL_US;
            } else {
                self.fall_us = self.fall_us + dt;
            }
        }
    }
}

} // verus!
