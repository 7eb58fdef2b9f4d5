use vstd::prelude::*;
use crate::sfx::Sfx;
use crate::scoring::{Card, Scorable};

verus! {

/// What a downrange target is.
#[derive(Clone, Copy, PartialEq, Eq, Structural, Debug)]
pub enum TKind {
    Paper,
    Steel,
    NoShoot,
}

/// Scoring zone of a hit on paper.
#[derive(Clone, Copy, PartialEq, Eq, Structural, Debug)]
pub enum Zone {
    A,
    C,
    D,
}

/// Points of one hit in a zone (Minor power factor).
pub open spec fn zone_points(z: Zone) -> int {
    match z {
        Zone::A => 5,
        Zone::C => 3,
        Zone::D => 1,
    }
}

impl Zone {
    /// Points of one hit in this zone: A = 5, C = 3, D = 1.
    pub fn points(self) -> (p: i32)
        ensures
            p == zone_points(self),
    {
        match self {
            Zone::A => 5,
            Zone::C => 3,
            Zone::D => 1,
        }
    }
}

/// A point on the range, in micrometres. `x` is across the bay, `y` up,
/// and `z` downrange is negative (the shooter looks along -z).
#[derive(Clone, Copy, PartialEq, Eq, Structural, Debug)]
pub struct Pos {
    pub x: i64,
    pub y: i64,
    pub z: i64,
}

/// Half width and half height of a paper or no-shoot face (micrometres).
pub const PAPER_HW: i64 = 230_000;
pub const PAPER_HH: i64 = 300_000;
/// Height of a paper or no-shoot face centre, near eye height.
pub const PAPER_Y: i64 = 1_420_000;
/// Radius of a steel popper plate and the height of its centre.
pub const STEEL_R: i64 = 160_000;
pub const STEEL_Y: i64 = 1_300_000;

/// A downrange target and what has happened to it in the current attempt.
#[derive(Clone, Debug)]
pub struct Target {
    pub kind: TKind,
    /// Centre of the target face (its plane is z = center.z, facing +z).
    pub center: Pos,
    pub hw: i64,
    pub hh: i64,
    /// Zones of the hits on a paper target, in the order they were shot.
    pub hits: Vec<Zone>,
    /// Hits on a no-shoot.
    pub ns_hits: u32,
    /// A steel popper that has been knocked down.
    pub down: bool,
}

impl Scorable for Target {
    open spec fn card(&self) -> Card {
        Card { kind: self.kind, hits: self.hits@, ns_hits: self.ns_hits, down: self.down }
    }

    fn kind_of(&self) -> (k: TKind) {
        self.kind
    }

    fn hits_of(&self) -> (h: &Vec<Zone>) {
        &self.hits
    }

    fn ns_hits_of(&self) -> (n: u32) {
        self.ns_hits
    }

    fn is_down(&self) -> (b: bool) {
        self.down
    }
}

/// Half extents of the face of a target of a kind.
pub open spec fn face_hw(kind: TKind) -> i64 {
    match kind {
        TKind::Steel => STEEL_R,
        _ => PAPER_HW,
    }
}

pub open spec fn face_hh(kind: TKind) -> i64 {
    match kind {
        TKind::Steel => STEEL_R,
        _ => PAPER_HH,
    }
}

/// A target that has not been engaged since it was set up or reset.
pub open spec fn is_fresh(t: Target) -> bool {
    &&& t.hits@.len() == 0
    &&& t.ns_hits == 0
    &&& !t.down
}

/// Whether a target no longer holds the stage open: a paper with two hits,
/// a steel that is down; a no-shoot never needs engaging.
pub open spec fn satisfied_spec(t: Target) -> bool {
    match t.kind {
        TKind::Paper => t.hits@.len() >= 2,
        TKind::Steel => t.down,
        TKind::NoShoot => true,
    }
}

/// A no-shoot never holds the stage open, however often it was hit.
pub proof fn law_no_shoot_never_holds_the_stage(t: Target)
    requires
        t.kind == TKind::NoShoot,
    ensures
        satisfied_spec(t),
{
}

/// Two targets of the same kind, place and size.
pub open spec fn same_face(a: Target, b: Target) -> bool {
    &&& a.kind == b.kind
    &&& a.center == b.center
    &&& a.hw == b.hw
    &&& a.hh == b.hh
}

/// What a hit does to a target: a paper records the zone, a steel goes (or
/// stays) down, a no-shoot counts one more hit.
pub open spec fn hit_target(t: Target, t2: Target, zone: Zone) -> bool {
    &&& same_face(t2, t)
    &&& match t.kind {
        TKind::Paper => t2.hits@ == t.hits@.push(zone) && t2.ns_hits == t.ns_hits && t2.down == t.down,
        TKind::Steel => t2.hits@ == t.hits@ && t2.ns_hits == t.ns_hits && t2.down,
        TKind::NoShoot => t2.hits@ == t.hits@ && t2.ns_hits == t.ns_hits + 1 && t2.down == t.down,
    }
}

/// The sound of a hit on a target: the paper thwack, the steel ping (only for
/// a steel that was still standing), or the penalty honk for a no-shoot.
pub open spec fn hit_sound(t: Target) -> Option<Sfx> {
    match t.kind {
        TKind::Paper => Some(Sfx::Paper),
        TKind::Steel => if t.down { None } else { Some(Sfx::Steel) },
        TKind::NoShoot => Some(Sfx::Penalty),
    }
}

impl Target {
    /// A fresh target of `kind` with its face centred at `center`.
    pub fn new(kind: TKind, center: Pos) -> (t: Target)
        ensures
            t.kind == kind,
            t.center == center,
            t.hw == face_hw(kind),
            t.hh == face_hh(kind),
            is_fresh(t),
    {
        let (hw, hh) = match kind {
            TKind::Steel => (STEEL_R, STEEL_R),
            _ => (PAPER_HW, PAPER_HH),
        };
        Target { kind, center, hw, hh, hits: Vec::new(), ns_hits: 0, down: false }
    }

    /// Whether this target is engaged enough for the stage to end.
    pub fn satisfied(&self) -> (b: bool)
        ensures
            b == satisfied_spec(*self),
    {
        match self.kind {
            TKind::Paper => self.hits.len() >= 2,
            TKind::Steel => self.down,
            TKind::NoShoot => true,
        }
    }

    /// Take a hit in `zone` (the zone only matters on paper). Returns whether
    /// the hit was bad (a no-shoot) and the sound it makes.
    pub fn take_hit(&mut self, zone: Zone) -> (r: (bool, Option<Sfx>))
        requires
            old(self).kind == TKind::NoShoot ==> old(self).ns_hits < u32::MAX,
        ensures
            hit_target(*old(self), *final(self), zone),
            r.0 == (old(self).kind == TKind::NoShoot),
            r.1 == hit_sound(*old(self)),
    {
        match self.kind {
            TKind::Paper => {
                self.hits.push(zone);
                (false, Some(Sfx::Paper))
            },
            TKind::Steel => {
                if !self.down {
                    self.down = true;
                    (false, Some(Sfx::Steel))
                } else {
                    (false, None)
                }
            },
            TKind::NoShoot => {
                self.ns_hits = self.ns_hits + 1;
                (true, Some(Sfx::Penalty))
            },
        }
    }

    /// Clear every hit, as for a new attempt at the same layout.
    pub fn reset(&mut self)
        ensures
            is_fresh(*final(self)),
            final(self).kind == old(self).kind,
            final(self).center == old(self).center,
            final(self).hw == old(self).hw,
            final(self).hh == old(self).hh,
    {
        self.hits.clear();
        self.ns_hits = 0;
        self.down = false;
    }
}

} // verus!
