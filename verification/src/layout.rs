use vstd::prelude::*;
use crate::enemy::{Enemy, abs_int, ENEMY_Y, ENEMY_HP, ENEMY_FIRST_FIRE_MIN_US, ENEMY_FIRST_FIRE_MAX_US};
use crate::random::random_in;
use crate::target::{TKind, Target, Pos, is_fresh, face_hw, face_hh, PAPER_Y, STEEL_Y};

verus! {

/// Targets of each kind on the first stage, and on the outlaw stages.
pub const PAPERS: usize = 5;
pub const STEEL: usize = 3;
pub const NOSHOOTS: usize = 2;
pub const OUTLAW_PAPERS: usize = 3;
pub const OUTLAW_STEEL: usize = 2;
pub const OUTLAW_NOSHOOTS: usize = 1;
/// No stage holds more targets than this.
pub const MAX_TARGETS: usize = 10;
/// Outlaws on a stage that has them.
pub const OUTLAWS: usize = 2;
/// The bay (micrometres): targets stand with |x| < 5.5 m and between the far
/// line and 3 m downrange; outlaw stages keep them shallower.
pub const BAY_HALF_W: i64 = 5_500_000;
pub const NEAR_Z: i64 = -3_000_000;
pub const FAR_Z: i64 = -11_000_000;
pub const OUTLAW_FAR_Z: i64 = -6_500_000;
/// Two targets crowd each other unless they are this far apart across or downrange.
pub const SPACING: i64 = 1_100_000;
/// Outlaw homes, depths and patrol half width.
pub const OUTLAW_X: i64 = 3_000_000;
pub const OUTLAW_Z: i64 = -8_500_000;
pub const OUTLAW_Z_STEP: i64 = 1_400_000;
pub const OUTLAW_PATROL: i64 = 4_000_000;
/// Random positions tried for each target before it is left out.
pub const PLACEMENT_TRIES: usize = 300;

/// Stage 2 and later add outlaws.
pub open spec fn has_outlaws(stage: u32) -> bool {
    stage >= 2
}

/// How many targets of a kind a stage plans for.
pub open spec fn plan_count(stage: u32, kind: TKind) -> nat {
    if has_outlaws(stage) {
        match kind {
            TKind::Paper => OUTLAW_PAPERS as nat,
            TKind::Steel => OUTLAW_STEEL as nat,
            TKind::NoShoot => OUTLAW_NOSHOOTS as nat,
        }
    } else {
        match kind {
            TKind::Paper => PAPERS as nat,
            TKind::Steel => STEEL as nat,
            TKind::NoShoot => NOSHOOTS as nat,
        }
    }
}

/// The far line of a stage's targets.
pub open spec fn far_z(stage: u32) -> i64 {
    if has_outlaws(stage) { OUTLAW_FAR_Z } else { FAR_Z }
}

/// Papers are set first, then steel, then no-shoots.
pub open spec fn kind_rank(kind: TKind) -> int {
    match kind {
        TKind::Paper => 0,
        TKind::Steel => 1,
        TKind::NoShoot => 2,
    }
}

/// Height of the face centre of a target of a kind.
pub open spec fn face_y(kind: TKind) -> i64 {
    match kind {
        TKind::Steel => STEEL_Y,
        _ => PAPER_Y,
    }
}

/// Two positions do not crowd each other.
pub open spec fn apart(a: Pos, b: Pos) -> bool {
    abs_int(a.x - b.x) > SPACING || abs_int(a.z - b.z) > SPACING
}

/// No two targets crowd each other.
pub open spec fn well_spread(ts: Seq<Target>) -> bool {
    forall|i: int, j: int| 0 <= i < j < ts.len() ==> apart(#[trigger] ts[i].center, #[trigger] ts[j].center)
}

/// A fresh target of the right size and height, standing in the bay of `stage`.
pub open spec fn placed_in_bay(t: Target, stage: u32) -> bool {
    &&& is_fresh(t)
    &&& t.hw == face_hw(t.kind)
    &&& t.hh == face_hh(t.kind)
    &&& t.center.y == face_y(t.kind)
    &&& -BAY_HALF_W <= t.center.x < BAY_HALF_W
    &&& far_z(stage) <= t.center.z < NEAR_Z
}

/// Number of targets of a kind.
pub open spec fn count_kind(ts: Seq<Target>, kind: TKind) -> nat
    decreases ts.len(),
{
    if ts.len() == 0 {
        0
    } else {
        count_kind(ts.drop_last(), kind) + (if ts.last().kind == kind { 1nat } else { 0nat })
    }
}

/// A layout that `build_stage` can produce for `stage`: every target fresh and
/// in the bay, papers before steel before no-shoots, at most the planned
/// number of each kind (a target that found no clear spot is left out), and no
/// two targets crowding each other. The first paper always finds a spot, so
/// the layout is never empty and starts with a paper.
pub open spec fn valid_layout(ts: Seq<Target>, stage: u32) -> bool {
    &&& ts.len() >= 1
    &&& ts[0].kind == TKind::Paper
    &&& forall|i: int| 0 <= i < ts.len() ==> placed_in_bay(#[trigger] ts[i], stage)
    &&& forall|i: int, j: int| 0 <= i < j < ts.len() ==> kind_rank(#[trigger] ts[i].kind) <= kind_rank(#[trigger] ts[j].kind)
    &&& forall|k: TKind| count_kind(ts, k) <= plan_count(stage, k)
    &&& well_spread(ts)
}

/// An outlaw as it stands before the start signal.
pub open spec fn fresh_enemy(e: Enemy) -> bool {
    &&& e.wf()
    &&& e.center.x == e.home_x
    &&& e.center.y == ENEMY_Y
    &&& e.hp == ENEMY_HP
    &&& e.alive
    &&& ENEMY_FIRST_FIRE_MIN_US <= e.fire_in_us < ENEMY_FIRST_FIRE_MAX_US
    &&& e.flash_us == 0
    &&& e.hit_flash_us == 0
    &&& e.fall_us == 0
}

/// The outlaws of a stage: none before stage 2; from stage 2 on, one at
/// x = -3 m, z = -8.5 m and one at x = 3 m, z = -9.9 m, each patrolling 4 m
/// either side of home.
pub open spec fn valid_outlaws(es: Seq<Enemy>, stage: u32) -> bool {
    if has_outlaws(stage) {
        &&& es.len() == OUTLAWS
        &&& forall|k: int| 0 <= k < es.len() ==> fresh_enemy(#[trigger] es[k])
        &&& es[0].home_x == -OUTLAW_X && es[0].center.z == OUTLAW_Z
        &&& es[1].home_x == OUTLAW_X && es[1].center.z == OUTLAW_Z - OUTLAW_Z_STEP
        &&& es[0].patrol == OUTLAW_PATROL && es[1].patrol == OUTLAW_PATROL
    } else {
        es.len() == 0
    }
}

/// What a layout decides of a target: its kind and where it stands.
pub open spec fn spot_of(t: Target) -> (TKind, Pos) {
    (t.kind, t.center)
}

/// The kinds and positions of a row of targets.
pub open spec fn spots(ts: Seq<Target>) -> Seq<(TKind, Pos)> {
    ts.map_values(|t: Target| spot_of(t))
}

/// A drawn spot `(x, z)` stands clear of every target placed so far.
pub open spec fn draw_clear(placed: Seq<(TKind, Pos)>, d: (i64, i64)) -> bool {
    forall|i: int| 0 <= i < placed.len() ==> apart((#[trigger] placed[i]).1, Pos { x: d.0, y: 0, z: d.1 })
}

/// One target of `kind` tries the drawn spots in turn and stands at the first
/// that is clear; when none is clear it is left out.
pub open spec fn first_fit(placed: Seq<(TKind, Pos)>, kind: TKind, draws: Seq<(i64, i64)>) -> Seq<(TKind, Pos)>
    decreases draws.len(),
{
    if draws.len() == 0 {
        placed
    } else if draw_clear(placed, draws[0]) {
        placed.push((kind, Pos { x: draws[0].0, y: face_y(kind), z: draws[0].1 }))
    } else {
        first_fit(placed, kind, draws.drop_first())
    }
}

/// `count` targets of `kind`, one after the other, each with the next
/// `PLACEMENT_TRIES` drawn spots (`first_fit`).
pub open spec fn fill_kind(placed: Seq<(TKind, Pos)>, kind: TKind, count: nat, draws: Seq<(i64, i64)>) -> Seq<(TKind, Pos)>
    decreases count,
{
    if count == 0 {
        placed
    } else {
        fill_kind(
            first_fit(placed, kind, draws.take(PLACEMENT_TRIES as int)),
            kind,
            (count - 1) as nat,
            draws.skip(PLACEMENT_TRIES as int),
        )
    }
}

/// Spots drawn for a whole stage: `PLACEMENT_TRIES` for each planned target.
pub open spec fn layout_draws(stage: u32) -> nat {
    (plan_count(stage, TKind::Paper) + plan_count(stage, TKind::Steel) + plan_count(stage, TKind::NoShoot)) * PLACEMENT_TRIES as nat
}

/// Every drawn spot lies in the bay of `stage`.
pub open spec fn draws_in_bay(stage: u32, draws: Seq<(i64, i64)>) -> bool {
    forall|k: int| 0 <= k < draws.len() ==> {
        &&& -BAY_HALF_W <= (#[trigger] draws[k]).0 < BAY_HALF_W
        &&& far_z(stage) <= draws[k].1 < NEAR_Z
    }
}

/// The layout that the drawn spots give a stage: its papers, then its steel,
/// then its no-shoots, each target first-fit over its own share of the draws.
pub open spec fn stage_spots(stage: u32, draws: Seq<(i64, i64)>) -> Seq<(TKind, Pos)> {
    let np = plan_count(stage, TKind::Paper);
    let ns = plan_count(stage, TKind::Steel);
    let a = fill_kind(Seq::empty(), TKind::Paper, np, draws);
    let b = fill_kind(a, TKind::Steel, ns, draws.skip(np * PLACEMENT_TRIES));
    fill_kind(b, TKind::NoShoot, plan_count(stage, TKind::NoShoot), draws.skip((np + ns) * PLACEMENT_TRIES))
}

/// A layout that some spots drawn in the bay give `stage` (`stage_spots`).
pub open spec fn drawn_layout(ts: Seq<Target>, stage: u32) -> bool {
    exists|draws: Seq<(i64, i64)>| {
        &&& draws.len() == layout_draws(stage)
        &&& draws_in_bay(stage, draws)
        &&& spots(ts) == #[trigger] stage_spots(stage, draws)
    }
}

proof fn lemma_count_push(ts: Seq<Target>, t: Target, k: TKind)
    ensures
        count_kind(ts.push(t), k) == count_kind(ts, k) + (if t.kind == k { 1nat } else { 0nat }),
{
    assert(ts.push(t).drop_last() =~= ts);
}

/// Whether a target at `x`, `z` would stand clear of every target placed so far.
fn clear_of(targets: &Vec<Target>, x: i64, z: i64) -> (b: bool)
    ensures
        b == draw_clear(spots(targets@), (x, z)),
{
    let ghost sp = spots(targets@);
    let n = targets.len();
    let mut i: usize = 0;
    while i < n
        invariant
            n == targets@.len(),
            sp == spots(targets@),
            i <= n,
            forall|j: int| 0 <= j < i ==> apart((#[trigger] sp[j]).1, Pos { x, y: 0, z }),
        decreases n - i,
    {
        let c = targets[i].center;
        assert(sp[i as int] == spot_of(targets@[i as int]));
        let ddx: i128 = c.x as i128 - x as i128;
        let ddz: i128 = c.z as i128 - z as i128;
        let dx: i128 = if ddx >= 0 { ddx } else { -ddx };
        let dz: i128 = if ddz >= 0 { ddz } else { -ddz };
        if !(dx > SPACING as i128 || dz > SPACING as i128) {
            return false;
        }
        i = i + 1;
    }
    true
}

proof fn lemma_spots_push(ts: Seq<Target>, t: Target)
    ensures
        spots(ts.push(t)) == spots(ts).push(spot_of(t)),
{
    assert(spots(ts.push(t)) =~= spots(ts).push(spot_of(t)));
}

/// Place up to `count` targets of `kind` in the bay of `stage`, first-fit over
/// the drawn spots from `off` on: each target takes the first clear spot of its
/// `PLACEMENT_TRIES` draws and is left out when none is clear (`fill_kind`).
/// When any target is asked for, the bay ends up non-empty: on an empty bay
/// the first spot always stands clear.
fn place_kind(targets: &mut Vec<Target>, stage: u32, kind: TKind, count: usize, draws: &Vec<(i64, i64)>, off: usize)
    requires
        forall|i: int| 0 <= i < old(targets)@.len() ==> placed_in_bay(#[trigger] old(targets)@[i], stage),
        forall|i: int| 0 <= i < old(targets)@.len() ==> kind_rank(#[trigger] old(targets)@[i].kind) <= kind_rank(kind),
        well_spread(old(targets)@),
        old(targets)@.len() + count <= MAX_TARGETS,
        off + count * PLACEMENT_TRIES <= draws@.len(),
        draws_in_bay(stage, draws@),
    ensures
        spots(final(targets)@) == fill_kind(spots(old(targets)@), kind, count as nat, draws@.skip(off as int)),
        final(targets)@.subrange(0, old(targets)@.len() as int) == old(targets)@,
        old(targets)@.len() <= final(targets)@.len() <= old(targets)@.len() + count,
        forall|i: int| old(targets)@.len() <= i < final(targets)@.len() ==> (#[trigger] final(targets)@[i]).kind == kind,
        forall|i: int| 0 <= i < final(targets)@.len() ==> placed_in_bay(#[trigger] final(targets)@[i], stage),
        well_spread(final(targets)@),
        count_kind(final(targets)@, kind) == count_kind(old(targets)@, kind) + (final(targets)@.len() - old(targets)@.len()),
        forall|k: TKind| k != kind ==> count_kind(final(targets)@, k) == count_kind(old(targets)@, k),
        count > 0 ==> final(targets)@.len() > 0,
{
    let ghost start = old(targets)@;
    let ghost goal = fill_kind(spots(start), kind, count as nat, draws@.skip(off as int));
    let y: i64 = match kind {
        TKind::Steel => STEEL_Y,
        _ => PAPER_Y,
    };
    let dl = draws.len();
    let mut placed: usize = 0;
    while placed < count
        invariant
            dl == draws@.len(),
            placed <= count,
            y == face_y(kind),
            start.len() + count <= MAX_TARGETS,
            off + count * PLACEMENT_TRIES <= draws@.len(),
            draws_in_bay(stage, draws@),
            fill_kind(spots(targets@), kind, (count - placed) as nat, draws@.skip(off + placed * PLACEMENT_TRIES)) == goal,
            start.len() <= targets@.len() <= start.len() + placed,
            targets@.subrange(0, start.len() as int) == start,
            forall|i: int| start.len() <= i < targets@.len() ==> (#[trigger] targets@[i]).kind == kind,
            forall|i: int| 0 <= i < targets@.len() ==> placed_in_bay(#[trigger] targets@[i], stage),
            well_spread(targets@),
            count_kind(targets@, kind) == count_kind(start, kind) + (targets@.len() - start.len()),
            forall|k: TKind| k != kind ==> count_kind(targets@, k) == count_kind(start, k),
            placed > 0 ==> targets@.len() > 0,
        decreases count - placed,
    {
        assert(placed * PLACEMENT_TRIES + PLACEMENT_TRIES <= count * PLACEMENT_TRIES) by (nonlinear_arith)
            requires placed < count;
        let base: usize = off + placed * PLACEMENT_TRIES;
        let ghost cur0 = spots(targets@);
        let ghost slot = draws@.subrange(base as int, base + PLACEMENT_TRIES);
        assert(slot.skip(0) =~= slot);
        let mut tries: usize = 0;
        let mut done = false;
        while tries < PLACEMENT_TRIES && !done
            invariant
                dl == draws@.len(),
                placed < count,
                y == face_y(kind),
                start.len() + count <= MAX_TARGETS,
                base + PLACEMENT_TRIES <= draws@.len(),
                slot == draws@.subrange(base as int, base + PLACEMENT_TRIES),
                draws_in_bay(stage, draws@),
                tries <= PLACEMENT_TRIES,
                !done ==> spots(targets@) == cur0 && first_fit(cur0, kind, slot.skip(tries as int)) == first_fit(cur0, kind, slot),
                done ==> spots(targets@) == first_fit(cur0, kind, slot),
                start.len() <= targets@.len() <= start.len() + placed + (if done { 1int } else { 0int }),
                targets@.subrange(0, start.len() as int) == start,
                forall|i: int| start.len() <= i < targets@.len() ==> (#[trigger] targets@[i]).kind == kind,
                forall|i: int| 0 <= i < targets@.len() ==> placed_in_bay(#[trigger] targets@[i], stage),
                well_spread(targets@),
                count_kind(targets@, kind) == count_kind(start, kind) + (targets@.len() - start.len()),
                forall|k: TKind| k != kind ==> count_kind(targets@, k) == count_kind(start, k),
                placed > 0 || tries > 0 || done ==> targets@.len() > 0,
            decreases PLACEMENT_TRIES - tries,
        {
            let (x, z) = draws[base + tries];
            proof {
                assert(draws@[base + tries] == (x, z));
                assert(slot.skip(tries as int)[0] == (x, z));
                assert(slot.skip(tries as int).drop_first() =~= slot.skip(tries + 1));
            }
            if clear_of(targets, x, z) {
                let t = Target::new(kind, Pos { x, y, z });
                let ghost before = targets@;
                targets.push(t);
                proof {
                    lemma_spots_push(before, t);
                    assert forall|k: TKind| #[trigger] count_kind(targets@, k) == count_kind(before, k) + (if t.kind == k { 1nat } else { 0nat }) by {
                        lemma_count_push(before, t, k);
                    }
                    assert(targets@.subrange(0, start.len() as int) =~= start) by {
                        assert(before.subrange(0, start.len() as int) == start);
                    }
                    assert forall|i: int, j: int| 0 <= i < j < targets@.len() implies apart(#[trigger] targets@[i].center, #[trigger] targets@[j].center) by {
                        if j < before.len() {
                            assert(targets@[i] == before[i]);
                            assert(targets@[j] == before[j]);
                        } else {
                            assert(targets@[i] == before[i]);
                            assert(spots(before)[i] == spot_of(before[i]));
                            assert(apart(spots(before)[i].1, Pos { x, y: 0, z }));
                        }
                    }
                }
                done = true;
            }
            tries = tries + 1;
        }
        proof {
            if !done {
                assert(slot.skip(PLACEMENT_TRIES as int) =~= Seq::<(i64, i64)>::empty());
            }
            let d = draws@.skip(off + placed * PLACEMENT_TRIES);
            assert(d.take(PLACEMENT_TRIES as int) =~= slot);
            assert(d.skip(PLACEMENT_TRIES as int) =~= draws@.skip(off + (placed + 1) * PLACEMENT_TRIES));
        }
        placed = placed + 1;
    }
}

/// Lay out a stage's targets from the drawn spots: its papers, then its steel,
/// then its no-shoots, each target first-fit over its own `PLACEMENT_TRIES`
/// draws (`stage_spots`). Stage 1 plans five papers, three steel and two
/// no-shoots; stage 2 and later three, two and one in a shallower bay.
pub fn lay_out_targets(stage: u32, draws: &Vec<(i64, i64)>) -> (ts: Vec<Target>)
    requires
        draws@.len() == layout_draws(stage),
        draws_in_bay(stage, draws@),
    ensures
        spots(ts@) == stage_spots(stage, draws@),
        valid_layout(ts@, stage),
        ts@.len() <= MAX_TARGETS,
{
    let (npaper, nsteel, nnoshoot) = if stage >= 2 {
        (OUTLAW_PAPERS, OUTLAW_STEEL, OUTLAW_NOSHOOTS)
    } else {
        (PAPERS, STEEL, NOSHOOTS)
    };
    let mut targets: Vec<Target> = Vec::new();
    proof {
        assert(draws@.skip(0) =~= draws@);
        assert(spots(targets@) =~= Seq::<(TKind, Pos)>::empty());
    }
    place_kind(&mut targets, stage, TKind::Paper, npaper, draws, 0);
    let ghost t1 = targets@;
    place_kind(&mut targets, stage, TKind::Steel, nsteel, draws, npaper * PLACEMENT_TRIES);
    let ghost t2 = targets@;
    place_kind(&mut targets, stage, TKind::NoShoot, nnoshoot, draws, (npaper + nsteel) * PLACEMENT_TRIES);
    proof {
        let ts = targets@;
        assert(ts.subrange(0, t2.len() as int) == t2);
        assert(t2.subrange(0, t1.len() as int) == t1);
        assert(ts[0] == t2[0]);
        assert(t2[0] == t1[0]);
        assert forall|i: int, j: int| 0 <= i < j < ts.len() implies kind_rank(#[trigger] ts[i].kind) <= kind_rank(#[trigger] ts[j].kind) by {
            assert(ts.subrange(0, t2.len() as int) == t2);
            assert(t2.subrange(0, t1.len() as int) == t1);
            if i < t1.len() {
                assert(ts[i] == t2[i]);
                assert(t2[i] == t1[i]);
                assert(ts[i].kind == TKind::Paper);
            } else if i < t2.len() {
                assert(ts[i] == t2[i]);
                assert(ts[i].kind == TKind::Steel);
                if j < t2.len() {
                    assert(ts[j] == t2[j]);
                }
            }
        }
        assert forall|k: TKind| count_kind(ts, k) <= plan_count(stage, k) by {
            match k {
                TKind::Paper => {},
                TKind::Steel => {},
                TKind::NoShoot => {},
            }
        }
    }
    targets
}

/// Lay out a random stage. Stage 1 is paper, steel and no-shoots only; stage 2
/// and later set fewer, shallower targets and add two outlaws further back.
/// The spots are drawn at random in the bay, `PLACEMENT_TRIES` for each
/// planned target, and laid out by `lay_out_targets`.
pub fn build_stage(stage: u32) -> (r: (Vec<Target>, Vec<Enemy>))
    ensures
        drawn_layout(r.0@, stage),
        valid_layout(r.0@, stage),
        r.0@.len() <= MAX_TARGETS,
        valid_outlaws(r.1@, stage),
{
    let has_enemies = stage >= 2;
    let n: usize = if has_enemies {
        (OUTLAW_PAPERS + OUTLAW_STEEL + OUTLAW_NOSHOOTS) * PLACEMENT_TRIES
    } else {
        (PAPERS + STEEL + NOSHOOTS) * PLACEMENT_TRIES
    };
    let far: i64 = if has_enemies { OUTLAW_FAR_Z } else { FAR_Z };
    let mut draws: Vec<(i64, i64)> = Vec::new();
    while draws.len() < n
        invariant
            n == layout_draws(stage),
            far == far_z(stage),
            draws@.len() <= n,
            draws_in_bay(stage, draws@),
        decreases n - draws@.len(),
    {
        let x = random_in(-BAY_HALF_W, BAY_HALF_W);
        let z = random_in(far, NEAR_Z);
        draws.push((x, z));
    }
    let targets = lay_out_targets(stage, &draws);
    assert(spots(targets@) == stage_spots(stage, draws@));
    let mut enemies: Vec<Enemy> = Vec::new();
    if has_enemies {
        enemies.push(Enemy::new(-OUTLAW_X, OUTLAW_Z, OUTLAW_PATROL));
        enemies.push(Enemy::new(OUTLAW_X, OUTLAW_Z - OUTLAW_Z_STEP, OUTLAW_PATROL));
    }
    (targets, enemies)
}

} // verus!
