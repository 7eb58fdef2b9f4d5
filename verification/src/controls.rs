use vstd::prelude::*;
use crate::game::{Match, Phase, MAG_SIZE};
use crate::sfx::Sfx;
use crate::target::{satisfied_spec, Target};

verus! {

/// The on-screen buttons.
#[derive(Clone, Copy, PartialEq, Eq, Structural, Debug)]
pub enum Btn {
    Ready,
    Stop,
    Next,
    Fire,
    Reload,
}

/// What a pull of the trigger does.
#[derive(Clone, Copy, PartialEq, Eq, Structural, Debug)]
pub enum FireAction {
    /// Nothing: not on the clock, no pull, or reloading.
    Ignore,
    /// A click on an empty chamber.
    DryFire,
    /// A shot.
    Fire,
}

/// The ammunition readout.
#[derive(Clone, Copy, PartialEq, Eq, Structural, Debug)]
pub enum AmmoDisplay {
    /// Not shown off the clock.
    Hidden,
    /// "RELOADING…"
    Reloading,
    /// "RELOAD! (R)"
    Empty,
    /// "Ammo n / MAG_SIZE"
    Rounds(u32),
}

/// Targets that still hold a stage open.
pub open spec fn count_unsatisfied(ts: Seq<Target>) -> nat
    decreases ts.len(),
{
    if ts.len() == 0 {
        0
    } else {
        count_unsatisfied(ts.drop_last()) + if satisfied_spec(ts.last()) { 0nat } else { 1nat }
    }
}

/// Whether a button is live in a phase of the match.
pub open spec fn button_live(m: Match, kind: Btn) -> bool {
    match kind {
        Btn::Ready => m.phase == Phase::Idle || m.phase == Phase::Scored,
        Btn::Stop => m.phase == Phase::Running,
        Btn::Fire => m.phase == Phase::Running && !m.reloading && m.ammo > 0,
        Btn::Reload => m.phase == Phase::Running && !m.reloading && m.ammo < MAG_SIZE,
        Btn::Next => m.phase != Phase::Running,
    }
}

impl Match {
    /// Whether a button is live (drawn lit).
    pub fn button_active(&self, kind: Btn) -> (b: bool)
        ensures
            b == button_live(*self, kind),
    {
        match kind {
            Btn::Ready => self.phase == Phase::Idle || self.phase == Phase::Scored,
            Btn::Stop => self.phase == Phase::Running,
            Btn::Fire => self.can_fire(),
            Btn::Reload => self.phase == Phase::Running && !self.reloading && self.ammo < MAG_SIZE,
            Btn::Next => self.phase != Phase::Running,
        }
    }

    /// A tap on a button: FIRE asks for a shot while running (the result);
    /// RELOAD reloads; MAKE READY readies an idle or scored stage; STOP stops
    /// a running one; NEXT STAGE moves on unless running. A tap on a button that
    /// is not live does nothing.
    pub fn press(&mut self, btn: Btn) -> (fire: bool)
        requires
            old(self).wf(),
            btn == Btn::Next && old(self).phase != Phase::Running ==> old(self).stage_num < u32::MAX,
        ensures
            final(self).wf(),
            fire == (btn == Btn::Fire && old(self).phase == Phase::Running),
            match btn {
                Btn::Reload => {
                    if old(self).phase == Phase::Running && !old(self).reloading && old(self).ammo < MAG_SIZE {
                        &&& final(self).reloading
                        &&& final(self).pending@ == old(self).pending@.push(Sfx::Reload)
                        &&& *final(self) == (Match { reloading: true, reload_left_us: crate::game::RELOAD_TIME_US, pending: final(self).pending, ..*old(self) })
                    } else {
                        *final(self) == *old(self)
                    }
                },
                Btn::Ready => if old(self).phase == Phase::Idle || old(self).phase == Phase::Scored {
                    old(self).readies_into(*final(self))
                } else {
                    *final(self) == *old(self)
                },
                Btn::Stop => if old(self).phase == Phase::Running {
                    old(self).scores_into(*final(self))
                } else {
                    *final(self) == *old(self)
                },
                Btn::Next => if old(self).phase != Phase::Running {
                    old(self).advances_into(*final(self))
                } else {
                    *final(self) == *old(self)
                },
                Btn::Fire => *final(self) == *old(self),
            },
    {
        match btn {
            Btn::Fire => self.phase == Phase::Running,
            Btn::Reload => {
                self.reload();
                false
            },
            Btn::Ready => {
                if self.phase == Phase::Idle || self.phase == Phase::Scored {
                    self.make_ready();
                }
                false
            },
            Btn::Stop => {
                if self.phase == Phase::Running {
                    self.stop();
                }
                false
            },
            Btn::Next => {
                if self.phase != Phase::Running {
                    self.next_stage();
                }
                false
            },
        }
    }

    /// The start/stop key: stop the clock when running, make ready when idle
    /// or scored; nothing while waiting for the buzzer.
    pub fn start_stop(&mut self)
        requires
            old(self).wf(),
        ensures
            final(self).wf(),
            old(self).phase == Phase::Running ==> old(self).scores_into(*final(self)),
            old(self).phase == Phase::Idle || old(self).phase == Phase::Scored ==> old(self).readies_into(*final(self)),
            old(self).phase == Phase::Waiting ==> *final(self) == *old(self),
    {
        match self.phase {
            Phase::Running => self.stop(),
            Phase::Idle | Phase::Scored => self.make_ready(),
            _ => {},
        }
    }

    /// What a pull of the trigger (`pulled`) does now: nothing off the clock or
    /// while reloading, a dry-fire click on an empty magazine, else a shot.
    pub fn fire_action(&self, pulled: bool) -> (a: FireAction)
        ensures
            a == if !pulled || self.phase != Phase::Running || self.reloading {
                FireAction::Ignore
            } else if self.ammo == 0 {
                FireAction::DryFire
            } else {
                FireAction::Fire
            },
            a == FireAction::Fire ==> self.phase == Phase::Running && !self.reloading && self.ammo > 0,
    {
        if !pulled || self.phase != Phase::Running {
            return FireAction::Ignore;
        }
        if self.reloading {
            return FireAction::Ignore;
        }
        if self.ammo == 0 {
            return FireAction::DryFire;
        }
        FireAction::Fire
    }

    /// Targets still to engage.
    pub fn remaining(&self) -> (n: usize)
        ensures
            n == count_unsatisfied(self.targets@),
    {
        let len = self.targets.len();
        let mut n: usize = 0;
        let mut i: usize = 0;
        while i < len
            invariant
                len == self.targets@.len(),
                i <= len,
                n == count_unsatisfied(self.targets@.take(i as int)),
                n <= i,
            decreases len - i,
        {
            assert(self.targets@.take(i + 1).drop_last() =~= self.targets@.take(i as int));
            if !self.targets[i].satisfied() {
                n = n + 1;
            }
            i = i + 1;
        }
        assert(self.targets@.take(len as int) =~= self.targets@);
        n
    }

    /// The ammunition readout: hidden off the clock; while running it reads
    /// reloading, empty, or the rounds left.
    pub fn ammo_display(&self) -> (d: AmmoDisplay)
        ensures
            d == if self.phase != Phase::Running {
                AmmoDisplay::Hidden
            } else if self.reloading {
                AmmoDisplay::Reloading
            } else if self.ammo == 0 {
                AmmoDisplay::Empty
            } else {
                AmmoDisplay::Rounds(self.ammo)
            },
    {
        if self.phase != Phase::Running {
            AmmoDisplay::Hidden
        } else if self.reloading {
            AmmoDisplay::Reloading
        } else if self.ammo == 0 {
            AmmoDisplay::Empty
        } else {
            AmmoDisplay::Rounds(self.ammo)
        }
    }

    /// The sounds to play now, oldest first; the queue is left empty.
    pub fn take_pending(&mut self) -> (sounds: Vec<Sfx>)
        ensures
            sounds@ == old(self).pending@,
            final(self).pending@ == Seq::<Sfx>::empty(),
            *final(self) == (Match { pending: final(self).pending, ..*old(self) }),
    {
        let mut out: Vec<Sfx> = Vec::new();
        std::mem::swap(&mut out, &mut self.pending);
        out
    }
}

} // verus!
