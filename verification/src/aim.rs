use vstd::prelude::*;
use crate::enemy::{Enemy, ENEMY_HW, ENEMY_HH};
use crate::target::{TKind, Target, Zone};

verus! {

/// Where a fired ray crosses the plane of a target's face (or an outlaw's
/// torso), in front of the shooter. `dist` orders the crossings of one shot by
/// their distance along the ray: a smaller key is nearer, equal keys are
/// equally near. `off_x`, `off_y` are the offsets of the crossing from the
/// centre of the face, in the units of the face's half extents.
#[derive(Clone, Copy, PartialEq, Eq, Structural, Debug)]
pub struct RayCross {
    pub dist: u64,
    pub off_x: i64,
    pub off_y: i64,
}

pub open spec fn abs_i(v: int) -> int {
    if v < 0 { -v } else { v }
}

/// Whether an offset lies on a face: inside the disc of radius `hw` for a
/// steel plate, inside the `hw` by `hh` half-extent rectangle otherwise.
pub open spec fn on_face(kind: TKind, hw: i64, hh: i64, ox: int, oy: int) -> bool {
    match kind {
        TKind::Steel => hw >= 0 && ox * ox + oy * oy <= hw * hw,
        _ => abs_i(ox) <= hw && abs_i(oy) <= hh,
    }
}

/// The zone of paper an offset falls in. The zones are nested rectangles: A
/// within 34% of the half extents (in both directions), C within 70%, D beyond.
pub open spec fn zone_at(ox: i64, oy: i64, hw: i64, hh: i64) -> Zone {
    if 100 * abs_i(ox as int) < 34 * hw && 100 * abs_i(oy as int) < 34 * hh {
        Zone::A
    } else if 10 * abs_i(ox as int) < 7 * hw && 10 * abs_i(oy as int) < 7 * hh {
        Zone::C
    } else {
        Zone::D
    }
}

/// The zone of a hit depends on each offset only as a fraction of its own
/// half extent: swapping the two directions, offsets and half extents
/// together, gives the same zone.
pub proof fn law_zone_is_symmetric(ox: i64, oy: i64, hw: i64, hh: i64)
    ensures
        zone_at(ox, oy, hw, hh) == zone_at(oy, ox, hh, hw),
{
}

/// The zone bands: a hit is A when both offsets are under 34% of their half
/// extents, C when it is not A but both are under 70%, and D otherwise.
pub proof fn law_zone_bands(ox: i64, oy: i64, hw: i64, hh: i64)
    ensures
        zone_at(ox, oy, hw, hh) == Zone::A <==> (100 * abs_i(ox as int) < 34 * hw && 100 * abs_i(oy as int) < 34 * hh),
        zone_at(ox, oy, hw, hh) == Zone::C <==> (!(100 * abs_i(ox as int) < 34 * hw && 100 * abs_i(oy as int) < 34 * hh)
            && 10 * abs_i(ox as int) < 7 * hw && 10 * abs_i(oy as int) < 7 * hh),
        zone_at(ox, oy, hw, hh) == Zone::D <==> !(10 * abs_i(ox as int) < 7 * hw && 10 * abs_i(oy as int) < 7 * hh),
{
}

/// A hit nearer the centre in both directions never lands in a worse zone.
pub proof fn law_zone_nearer_is_no_worse(ox: i64, oy: i64, px: i64, py: i64, hw: i64, hh: i64)
    requires
        abs_i(px as int) <= abs_i(ox as int),
        abs_i(py as int) <= abs_i(oy as int),
    ensures
        zone_at(ox, oy, hw, hh) == Zone::A ==> zone_at(px, py, hw, hh) == Zone::A,
        zone_at(ox, oy, hw, hh) == Zone::C ==> zone_at(px, py, hw, hh) != Zone::D,
{
}

/// An offset on a face lies within the face's half extents.
pub proof fn lemma_on_face_bounds(kind: TKind, hw: i64, hh: i64, ox: int, oy: int)
    requires
        on_face(kind, hw, hh, ox, oy),
        0 <= hw,
        0 <= hh,
    ensures
        abs_i(ox) <= hw,
        abs_i(oy) <= (if kind == TKind::Steel { hw } else { hh }),
{
    if kind == TKind::Steel {
        assert(abs_i(ox) <= hw) by (nonlinear_arith)
            requires ox * ox + oy * oy <= hw * hw, 0 <= hw;
        assert(abs_i(oy) <= hw) by (nonlinear_arith)
            requires ox * ox + oy * oy <= hw * hw, 0 <= hw;
    }
}

fn mag(v: i64) -> (r: u128)
    ensures
        r == abs_i(v as int),
{
    if v < 0 { (0 - (v as i128)) as u128 } else { v as u128 }
}

/// Whether an offset lies on a face of `kind` with half extents `hw`, `hh`.
pub fn on_face_check(kind: TKind, hw: i64, hh: i64, ox: i64, oy: i64) -> (b: bool)
    ensures
        b == on_face(kind, hw, hh, ox as int, oy as int),
{
    let a = mag(ox);
    let c = mag(oy);
    match kind {
        TKind::Steel => {
            if hw < 0 {
                return false;
            }
            let h = hw as u128;
            if a > h || c > h {
                proof {
                    if a > h {
                        assert(a * a > h * h) by (nonlinear_arith) requires a > h, h >= 0;
                        assert(c * c >= 0) by (nonlinear_arith);
                    } else {
                        assert(c * c > h * h) by (nonlinear_arith) requires c > h, h >= 0;
                        assert(a * a >= 0) by (nonlinear_arith);
                    }
                    assert(ox * ox == a * a) by (nonlinear_arith) requires a == abs_i(ox as int);
                    assert(oy * oy == c * c) by (nonlinear_arith) requires c == abs_i(oy as int);
                }
                return false;
            }
            proof {
                assert(a * a <= h * h) by (nonlinear_arith) requires a <= h, a >= 0;
                assert(c * c <= h * h) by (nonlinear_arith) requires c <= h, c >= 0;
                assert(h * h <= 0x4000_0000_0000_0000_0000_0000_0000_0000) by (nonlinear_arith) requires h <= 0x8000_0000_0000_0000;
                assert(ox * ox == a * a) by (nonlinear_arith) requires a == abs_i(ox as int);
                assert(oy * oy == c * c) by (nonlinear_arith) requires c == abs_i(oy as int);
            }
            a * a + c * c <= h * h
        },
        _ => {
            let w_ok = hw >= 0 && a <= hw as u128;
            let h_ok = hh >= 0 && c <= hh as u128;
            w_ok && h_ok
        },
    }
}

/// The zone of paper an offset falls in (`zone_at`).
pub fn paper_zone(ox: i64, oy: i64, hw: i64, hh: i64) -> (z: Zone)
    ensures
        z == zone_at(ox, oy, hw, hh),
{
    let a = mag(ox) as i128;
    let c = mag(oy) as i128;
    let w = hw as i128;
    let h = hh as i128;
    if 100 * a < 34 * w && 100 * c < 34 * h {
        Zone::A
    } else if 10 * a < 7 * w && 10 * c < 7 * h {
        Zone::C
    } else {
        Zone::D
    }
}

/// The nearest of the candidates (`Some` distance key), the first one among
/// equally near ones; `None` when there is no candidate.
pub open spec fn nearest(c: Seq<Option<u128>>) -> Option<int>
    decreases c.len(),
{
    if c.len() == 0 {
        None
    } else {
        let r = nearest(c.drop_last());
        match c.last() {
            Some(d) => match r {
                Some(i) => if d < c[i].unwrap() { Some(c.len() - 1) } else { Some(i) },
                None => Some(c.len() - 1),
            },
            None => r,
        }
    }
}

/// The distance keys of the targets that a shot strikes: a target whose
/// plane the ray crosses on its face.
pub open spec fn face_dists(hits: Seq<Option<RayCross>>, ts: Seq<Target>) -> Seq<Option<u128>> {
    Seq::new(
        if ts.len() <= hits.len() { ts.len() } else { hits.len() },
        |i: int| match hits[i] {
            Some(h) => if on_face(ts[i].kind, ts[i].hw, ts[i].hh, h.off_x as int, h.off_y as int) { Some(h.dist as u128) } else { None },
            None => None,
        },
    )
}

/// The distance keys of the outlaws that a shot strikes: a live outlaw whose
/// plane the ray crosses on its torso.
pub open spec fn outlaw_dists(hits: Seq<Option<RayCross>>, es: Seq<Enemy>) -> Seq<Option<u128>> {
    Seq::new(
        if es.len() <= hits.len() { es.len() } else { hits.len() },
        |i: int| match hits[i] {
            Some(h) => if es[i].alive && abs_i(h.off_x as int) <= ENEMY_HW && abs_i(h.off_y as int) <= ENEMY_HH { Some(h.dist as u128) } else { None },
            None => None,
        },
    )
}

/// The nearest candidate is one the ray meets, no candidate is nearer, and
/// every earlier candidate is farther.
pub proof fn lemma_nearest_is_nearest(c: Seq<Option<u128>>)
    ensures
        nearest(c) is None <==> forall|j: int| 0 <= j < c.len() ==> c[j] is None,
        nearest(c) matches Some(i) ==> {
            &&& 0 <= i < c.len()
            &&& c[i] is Some
            &&& forall|j: int| 0 <= j < c.len() && c[j] is Some ==> c[i].unwrap() <= c[j].unwrap()
            &&& forall|j: int| 0 <= j < i && c[j] is Some ==> c[i].unwrap() < c[j].unwrap()
        },
    decreases c.len(),
{
    if c.len() > 0 {
        let p = c.drop_last();
        lemma_nearest_is_nearest(p);
        assert forall|j: int| 0 <= j < p.len() implies p[j] == c[j] by {}
        if nearest(c) is None {
            assert forall|j: int| 0 <= j < c.len() implies c[j] is None by {
                if j < p.len() {
                    assert(p[j] == c[j]);
                }
            }
        }
    }
}

/// Index of the nearest candidate, as `nearest` says.
pub fn nearest_index(c: &Vec<Option<u128>>) -> (r: Option<usize>)
    ensures
        match r {
            Some(i) => nearest(c@) == Some(i as int),
            None => nearest(c@) is None,
        },
{
    let n = c.len();
    let mut best: Option<usize> = None;
    let mut best_d: u128 = 0;
    let mut i: usize = 0;
    while i < n
        invariant
            n == c@.len(),
            i <= n,
            match best {
                Some(b) => nearest(c@.take(i as int)) == Some(b as int) && b < i && c@[b as int] == Some(best_d),
                None => nearest(c@.take(i as int)) is None,
            },
        decreases n - i,
    {
        let ghost p = c@.take(i as int);
        assert(c@.take(i + 1).drop_last() =~= p);
        assert(c@.take(i + 1).last() == c@[i as int]);
        proof {
            if best is Some {
                assert(p[best.unwrap() as int] == c@[best.unwrap() as int]);
                assert(c@.take(i + 1)[best.unwrap() as int] == c@[best.unwrap() as int]);
            }
        }
        match c[i] {
            Some(d) => {
                match best {
                    Some(_) => {
                        if d < best_d {
                            best = Some(i);
                            best_d = d;
                        }
                    },
                    None => {
                        best = Some(i);
                        best_d = d;
                    },
                }
            },
            None => {},
        }
        i = i + 1;
    }
    assert(c@.take(n as int) =~= c@);
    best
}

} // verus!
