use vstd::prelude::*;
use crate::target::{TKind, Zone, zone_points};

verus! {

/// Number of hits in `z` among `hits`.
pub open spec fn count_zone(hits: Seq<Zone>, z: Zone) -> nat
    decreases hits.len(),
{
    if hits.len() == 0 {
        0
    } else {
        count_zone(hits.drop_last(), z) + (if hits.last() == z { 1nat } else { 0nat })
    }
}

pub open spec fn min_nat(a: nat, b: nat) -> nat {
    if a <= b { a } else { b }
}

/// The best two hits on a paper: as many A's as there are (up to two),
/// then C's, then D's. These are the hits that score.
pub open spec fn best_a(hits: Seq<Zone>) -> nat {
    min_nat(count_zone(hits, Zone::A), 2)
}

pub open spec fn best_c(hits: Seq<Zone>) -> nat {
    min_nat(count_zone(hits, Zone::C), (2 - best_a(hits)) as nat)
}

pub open spec fn best_d(hits: Seq<Zone>) -> nat {
    min_nat(count_zone(hits, Zone::D), (2 - best_a(hits) - best_c(hits)) as nat)
}

/// Required hits a paper did not get (a "mike" each).
pub open spec fn missing_hits(hits: Seq<Zone>) -> nat {
    if hits.len() >= 2 { 0 } else { (2 - hits.len()) as nat }
}

/// Points a paper scores: its best two hits, minus ten per missing hit.
pub open spec fn paper_points(hits: Seq<Zone>) -> int {
    5 * best_a(hits) + 3 * best_c(hits) + best_d(hits) - 10 * missing_hits(hits)
}

/// The counts that a stage's targets add up to, as mathematical integers.
pub struct Tally {
    pub a: int,
    pub c: int,
    pub d: int,
    pub mikes: int,
    pub ns: int,
    pub steel_down: int,
    pub steel_total: int,
    pub points: int,
}

pub open spec fn zero_tally() -> Tally {
    Tally { a: 0, c: 0, d: 0, mikes: 0, ns: 0, steel_down: 0, steel_total: 0, points: 0 }
}

pub open spec fn add_tally(x: Tally, y: Tally) -> Tally {
    Tally {
        a: x.a + y.a,
        c: x.c + y.c,
        d: x.d + y.d,
        mikes: x.mikes + y.mikes,
        ns: x.ns + y.ns,
        steel_down: x.steel_down + y.steel_down,
        steel_total: x.steel_total + y.steel_total,
        points: x.points + y.points,
    }
}

/// What scoring reads of a target: its kind, the zones of its paper hits, its
/// no-shoot hits, and whether it (a steel) is down.
pub struct Card {
    pub kind: TKind,
    pub hits: Seq<Zone>,
    pub ns_hits: u32,
    pub down: bool,
}

/// A target that can be scored.
pub trait Scorable {
    spec fn card(&self) -> Card;

    fn kind_of(&self) -> (k: TKind)
        ensures
            k == self.card().kind,
    ;

    fn hits_of(&self) -> (h: &Vec<Zone>)
        ensures
            h@ == self.card().hits,
    ;

    fn ns_hits_of(&self) -> (n: u32)
        ensures
            n == self.card().ns_hits,
    ;

    fn is_down(&self) -> (b: bool)
        ensures
            b == self.card().down,
    ;
}

/// What one target adds to the score.
/// Paper: its best two hits, and a mike (-10) for each of the two it lacks.
/// Steel: +5 when down, else a mike (-10). No-shoot: -10 per hit.
pub open spec fn target_tally(t: Card) -> Tally {
    match t.kind {
        TKind::Paper => Tally {
            a: best_a(t.hits) as int,
            c: best_c(t.hits) as int,
            d: best_d(t.hits) as int,
            mikes: missing_hits(t.hits) as int,
            ns: 0,
            steel_down: 0,
            steel_total: 0,
            points: paper_points(t.hits),
        },
        TKind::Steel => Tally {
            a: 0,
            c: 0,
            d: 0,
            mikes: if t.down { 0 } else { 1 },
            ns: 0,
            steel_down: if t.down { 1 } else { 0 },
            steel_total: 1,
            points: if t.down { 5 } else { -10 },
        },
        TKind::NoShoot => Tally {
            a: 0,
            c: 0,
            d: 0,
            mikes: 0,
            ns: t.ns_hits as int,
            steel_down: 0,
            steel_total: 0,
            points: -10 * t.ns_hits,
        },
    }
}

/// The score of a whole stage: the sum over its targets.
pub open spec fn tally_of<T: Scorable>(ts: Seq<T>) -> Tally
    decreases ts.len(),
{
    if ts.len() == 0 {
        zero_tally()
    } else {
        add_tally(tally_of(ts.drop_last()), target_tally(ts.last().card()))
    }
}

/// A scored attempt. `time_us` is the stage time in microseconds.
#[derive(Clone, Copy, Debug)]
pub struct Score {
    pub a: u32,
    pub c: u32,
    pub d: u32,
    pub mikes: u32,
    pub ns: u32,
    pub steel_down: u32,
    pub steel_total: u32,
    pub points: i64,
    pub time_us: u64,
}

impl Score {
    /// The counts of this score, as a tally.
    pub open spec fn counts(self) -> Tally {
        Tally {
            a: self.a as int,
            c: self.c as int,
            d: self.d as int,
            mikes: self.mikes as int,
            ns: self.ns as int,
            steel_down: self.steel_down as int,
            steel_total: self.steel_total as int,
            points: self.points as int,
        }
    }

    /// A score with no hits and no penalties over `time_us`.
    pub fn zero(time_us: u64) -> (s: Score)
        ensures
            s.counts() == zero_tally(),
            s.time_us == time_us,
    {
        Score { a: 0, c: 0, d: 0, mikes: 0, ns: 0, steel_down: 0, steel_total: 0, points: 0, time_us }
    }

    /// The points that count toward the hit factor: negative totals count as zero.
    /// The hit factor is these points divided by the time in seconds.
    pub fn factor_points(&self) -> (p: u64)
        ensures
            p as int == if self.points >= 0 { self.points as int } else { 0 },
    {
        if self.points >= 0 { self.points as u64 } else { 0 }
    }
}

impl Default for Score {
    fn default() -> (s: Score)
        ensures
            s.counts() == zero_tally(),
            s.time_us == 0,
    {
        Score::zero(0)
    }
}

/// The counts of a tally stay within what its targets can produce.
pub proof fn lemma_tally_bounds<T: Scorable>(ts: Seq<T>)
    ensures
        0 <= tally_of(ts).a <= 2 * ts.len(),
        0 <= tally_of(ts).c <= 2 * ts.len(),
        0 <= tally_of(ts).d <= 2 * ts.len(),
        0 <= tally_of(ts).mikes <= 2 * ts.len(),
        0 <= tally_of(ts).steel_down <= tally_of(ts).steel_total <= ts.len(),
        0 <= tally_of(ts).ns,
        -20 * ts.len() - 10 * tally_of(ts).ns <= tally_of(ts).points <= 10 * ts.len(),
    decreases ts.len(),
{
    if ts.len() > 0 {
        lemma_tally_bounds(ts.drop_last());
    }
}

/// Summing over a prefix never gives more no-shoot hits than the whole.
pub proof fn lemma_prefix_ns<T: Scorable>(ts: Seq<T>, i: int)
    requires
        0 <= i <= ts.len(),
    ensures
        tally_of(ts.take(i)).ns <= tally_of(ts).ns,
    decreases ts.len(),
{
    if i < ts.len() {
        lemma_tally_bounds(ts.drop_last());
        lemma_prefix_ns(ts.drop_last(), i);
        assert(ts.drop_last().take(i) =~= ts.take(i));
    } else {
        assert(ts.take(i) =~= ts);
    }
}

/// One target's no-shoot hits are part of the stage total.
pub proof fn lemma_element_ns<T: Scorable>(ts: Seq<T>, i: int)
    requires
        0 <= i < ts.len(),
    ensures
        target_tally(ts[i].card()).ns <= tally_of(ts).ns,
    decreases ts.len(),
{
    lemma_tally_bounds(ts.drop_last());
    if i < ts.len() - 1 {
        lemma_element_ns(ts.drop_last(), i);
        assert(ts.drop_last()[i] == ts[i]);
    }
}

/// Replacing one target changes the no-shoot total by the difference it makes.
pub proof fn lemma_update_ns<T: Scorable>(ts: Seq<T>, i: int, t: T)
    requires
        0 <= i < ts.len(),
    ensures
        tally_of(ts.update(i, t)).ns == tally_of(ts).ns - target_tally(ts[i].card()).ns + target_tally(t.card()).ns,
    decreases ts.len(),
{
    let u = ts.update(i, t);
    if i == ts.len() - 1 {
        assert(u.drop_last() =~= ts.drop_last());
    } else {
        assert(u.drop_last() =~= ts.drop_last().update(i, t));
        lemma_update_ns(ts.drop_last(), i, t);
    }
}

/// Number of targets of a kind.
pub open spec fn count_cards<T: Scorable>(ts: Seq<T>, kind: TKind) -> nat
    decreases ts.len(),
{
    if ts.len() == 0 {
        0
    } else {
        count_cards(ts.drop_last(), kind) + (if ts.last().card().kind == kind { 1nat } else { 0nat })
    }
}

proof fn lemma_count_zone_pos(h: Seq<Zone>, i: int)
    requires
        0 <= i < h.len(),
    ensures
        count_zone(h, h[i]) >= 1,
    decreases h.len(),
{
    if i < h.len() - 1 {
        lemma_count_zone_pos(h.drop_last(), i);
        assert(h.drop_last()[i] == h[i]);
    }
}

proof fn lemma_count_zone_two(h: Seq<Zone>, i: int, j: int)
    requires
        0 <= i < j < h.len(),
        h[i] == h[j],
    ensures
        count_zone(h, h[i]) >= 2,
    decreases h.len(),
{
    if j < h.len() - 1 {
        lemma_count_zone_two(h.drop_last(), i, j);
        assert(h.drop_last()[i] == h[i]);
    } else {
        lemma_count_zone_pos(h.drop_last(), i);
        assert(h.drop_last()[i] == h[i]);
    }
}

proof fn lemma_count_zone_sum(h: Seq<Zone>)
    ensures
        count_zone(h, Zone::A) + count_zone(h, Zone::C) + count_zone(h, Zone::D) == h.len(),
    decreases h.len(),
{
    if h.len() > 0 {
        lemma_count_zone_sum(h.drop_last());
    }
}

/// Scoring reads only the cards of the targets: two lists of targets with the
/// same cards, place by place, score the same.
pub proof fn lemma_same_cards<T: Scorable, U: Scorable>(a: Seq<T>, b: Seq<U>)
    requires
        a.len() == b.len(),
        forall|i: int| 0 <= i < a.len() ==> (#[trigger] a[i].card()) == b[i].card(),
    ensures
        tally_of(a) == tally_of(b),
    decreases a.len(),
{
    if a.len() > 0 {
        let (pa, pb) = (a.drop_last(), b.drop_last());
        assert forall|i: int| 0 <= i < pa.len() implies (#[trigger] pa[i].card()) == pb[i].card() by {
            assert(pa[i] == a[i] && pb[i] == b[i]);
        }
        lemma_same_cards(pa, pb);
        assert(a.last().card() == b.last().card());
    }
}

/// Best two count: the scoring hits of a paper are two of its hits when it
/// has two or more (all of them otherwise), and no two of its hits would
/// score more than they do.
pub proof fn law_best_two_count(hits: Seq<Zone>, i: int, j: int)
    requires
        0 <= i < hits.len(),
        0 <= j < hits.len(),
        i != j,
    ensures
        best_a(hits) + best_c(hits) + best_d(hits) == (if hits.len() >= 2 { 2 } else { hits.len() }),
        zone_points(hits[i]) + zone_points(hits[j]) <= 5 * best_a(hits) + 3 * best_c(hits) + best_d(hits),
{
    lemma_count_zone_sum(hits);
    lemma_count_zone_pos(hits, i);
    lemma_count_zone_pos(hits, j);
    if hits[i] == hits[j] {
        if i < j {
            lemma_count_zone_two(hits, i, j);
        } else {
            lemma_count_zone_two(hits, j, i);
        }
    }
}

/// An extra hit never lowers what a paper scores.
pub proof fn law_extra_hit_never_hurts(hits: Seq<Zone>, z: Zone)
    ensures
        paper_points(hits.push(z)) >= paper_points(hits),
{
    assert(hits.push(z).drop_last() =~= hits);
    lemma_count_zone_sum(hits);
}

/// Every required hit is accounted for: each paper's two required hits are
/// either scoring hits (A, C or D) or mikes, and each steel is either down or a
/// mike.
pub proof fn law_hit_accounting<T: Scorable>(ts: Seq<T>)
    ensures
        tally_of(ts).a + tally_of(ts).c + tally_of(ts).d + tally_of(ts).mikes
            == 2 * count_cards(ts, TKind::Paper) + tally_of(ts).steel_total - tally_of(ts).steel_down,
        tally_of(ts).steel_total == count_cards(ts, TKind::Steel),
    decreases ts.len(),
{
    if ts.len() > 0 {
        law_hit_accounting(ts.drop_last());
        lemma_count_zone_sum(ts.last().card().hits);
    }
}

/// The most a stage can score: ten points per paper (two A hits) and five
/// per steel.
pub proof fn law_points_at_most<T: Scorable>(ts: Seq<T>)
    ensures
        tally_of(ts).points <= 10 * count_cards(ts, TKind::Paper) + 5 * count_cards(ts, TKind::Steel),
    decreases ts.len(),
{
    if ts.len() > 0 {
        law_points_at_most(ts.drop_last());
        lemma_count_zone_sum(ts.last().card().hits);
    }
}

/// A clean stage, with two A hits on every paper, every steel down and no
/// no-shoot hit, scores the most there is and has no penalties.
pub proof fn law_clean_stage<T: Scorable>(ts: Seq<T>)
    requires
        forall|i: int| 0 <= i < ts.len() && (#[trigger] ts[i].card()).kind == TKind::Paper ==> count_zone(ts[i].card().hits, Zone::A) >= 2,
        forall|i: int| 0 <= i < ts.len() && (#[trigger] ts[i].card()).kind == TKind::Steel ==> ts[i].card().down,
        forall|i: int| 0 <= i < ts.len() && (#[trigger] ts[i].card()).kind == TKind::NoShoot ==> ts[i].card().ns_hits == 0,
    ensures
        tally_of(ts).points == 10 * count_cards(ts, TKind::Paper) + 5 * count_cards(ts, TKind::Steel),
        tally_of(ts).mikes == 0,
        tally_of(ts).ns == 0,
        tally_of(ts).a == 2 * count_cards(ts, TKind::Paper),
    decreases ts.len(),
{
    if ts.len() > 0 {
        let p = ts.drop_last();
        assert forall|i: int| 0 <= i < p.len() implies p[i] == ts[i] by {}
        law_clean_stage(p);
        lemma_count_zone_sum(ts.last().card().hits);
    }
}

/// A stage stopped with nothing hit: two mikes per paper and one per steel,
/// and minus ten points for each of them.
pub proof fn law_untouched_stage<T: Scorable>(ts: Seq<T>)
    requires
        forall|i: int| 0 <= i < ts.len() ==> {
            &&& (#[trigger] ts[i].card()).hits.len() == 0
            &&& ts[i].card().ns_hits == 0
            &&& !ts[i].card().down
        },
    ensures
        tally_of(ts).mikes == 2 * count_cards(ts, TKind::Paper) + count_cards(ts, TKind::Steel),
        tally_of(ts).points == -20 * count_cards(ts, TKind::Paper) - 10 * count_cards(ts, TKind::Steel),
        tally_of(ts).a == 0 && tally_of(ts).c == 0 && tally_of(ts).d == 0,
        tally_of(ts).steel_down == 0 && tally_of(ts).ns == 0,
    decreases ts.len(),
{
    if ts.len() > 0 {
        let p = ts.drop_last();
        assert forall|i: int| 0 <= i < p.len() implies p[i] == ts[i] by {}
        law_untouched_stage(p);
        let h = ts.last().card().hits;
        assert(h.len() == 0);
    }
}

/// Count the zones of a paper's hits and pick the best two.
/// Returns (A's, C's, D's, missing) of the scoring hits.
fn paper_counts(hits: &Vec<Zone>) -> (r: (u32, u32, u32, u32))
    ensures
        r.0 == best_a(hits@),
        r.1 == best_c(hits@),
        r.2 == best_d(hits@),
        r.3 == missing_hits(hits@),
{
    let mut na: usize = 0;
    let mut nc: usize = 0;
    let mut nd: usize = 0;
    let n = hits.len();
    let mut i: usize = 0;
    while i < n
        invariant
            n == hits@.len(),
            i <= n,
            na == count_zone(hits@.take(i as int), Zone::A),
            nc == count_zone(hits@.take(i as int), Zone::C),
            nd == count_zone(hits@.take(i as int), Zone::D),
            na + nc + nd == i,
        decreases n - i,
    {
        assert(hits@.take(i + 1).drop_last() =~= hits@.take(i as int));
        match hits[i] {
            Zone::A => na = na + 1,
            Zone::C => nc = nc + 1,
            Zone::D => nd = nd + 1,
        }
        i = i + 1;
    }
    assert(hits@.take(n as int) =~= hits@);
    let a: u32 = if na >= 2 { 2 } else { na as u32 };
    let c: u32 = if nc >= (2 - a) as usize { 2 - a } else { nc as u32 };
    let d: u32 = if nd >= (2 - a - c) as usize { 2 - a - c } else { nd as u32 };
    let m: u32 = if n >= 2 { 0 } else { 2 - n as u32 };
    (a, c, d, m)
}

/// Score a stage's targets over `time_us`: the sum of what each target adds
/// (see `target_tally`).
pub fn score_targets<T: Scorable>(targets: &Vec<T>, time_us: u64) -> (s: Score)
    requires
        targets@.len() <= 0x7fff_ffff,
        tally_of(targets@).ns <= u32::MAX,
    ensures
        s.counts() == tally_of(targets@),
        s.time_us == time_us,
{
    let mut s = Score::zero(time_us);
    let n = targets.len();
    let mut i: usize = 0;
    while i < n
        invariant
            n == targets@.len(),
            n <= 0x7fff_ffff,
            i <= n,
            tally_of(targets@).ns <= u32::MAX,
            s.counts() == tally_of(targets@.take(i as int)),
            s.time_us == time_us,
        decreases n - i,
    {
        let ghost pre = targets@.take(i as int);
        assert(targets@.take(i + 1).drop_last() =~= pre);
        proof {
            lemma_tally_bounds(pre);
            lemma_prefix_ns(targets@, i as int + 1);
            lemma_tally_bounds(targets@.take(i + 1));
        }
        let t = &targets[i];
        match t.kind_of() {
            TKind::Paper => {
                let (a, c, d, m) = paper_counts(t.hits_of());
                s.a = s.a + a;
                s.c = s.c + c;
                s.d = s.d + d;
                s.mikes = s.mikes + m;
                s.points = s.points + 5 * (a as i64) + 3 * (c as i64) + (d as i64) - 10 * (m as i64);
            },
            TKind::Steel => {
                s.steel_total = s.steel_total + 1;
                if t.is_down() {
                    s.steel_down = s.steel_down + 1;
                    s.points = s.points + 5;
                } else {
                    s.mikes = s.mikes + 1;
                    s.points = s.points - 10;
                }
            },
            TKind::NoShoot => {
                let ns = t.ns_hits_of();
                s.ns = s.ns + ns;
                s.points = s.points - 10 * (ns as i64);
            },
        }
        i = i + 1;
    }
    assert(targets@.take(n as int) =~= targets@);
    s
}

} // verus!
