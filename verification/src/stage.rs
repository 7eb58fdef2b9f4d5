//! A flat, tap-to-shoot version of a stage: paper targets with A/C/D zones,
//! steel poppers and no-shoots laid out on a board, a start buzzer and timer,
//! and hit-factor scoring.
use vstd::prelude::*;
use crate::aim::{nearest, nearest_index, on_face, on_face_check, paper_zone, zone_at};
pub use crate::game::Phase;
use crate::game::{stage_time, MIN_STAGE_TIME_US, WAIT_MIN_US, WAIT_MAX_US};
use crate::layout::{kind_rank, plan_count, PAPERS, STEEL, NOSHOOTS, MAX_TARGETS, PLACEMENT_TRIES};
use crate::random::random_in;
pub use crate::scoring::Score;
use crate::scoring::{score_targets, tally_of, Card, Scorable, lemma_element_ns, lemma_update_ns};
use crate::sfx::Sfx;
pub use crate::target::{TKind, Zone};

verus! {

/// Face half extents on the board, in thousandths of a board unit (pixel).
pub const PAPER_HW: i64 = 38_000;
pub const PAPER_HH: i64 = 58_000;
pub const STEEL_R: i64 = 34_000;
/// Where targets stand: |x| < 450 and -40 <= y < 300.
pub const BOARD_HALF_W: i64 = 450_000;
pub const BOARD_LOW_Y: i64 = -40_000;
pub const BOARD_HIGH_Y: i64 = 300_000;
/// Two targets keep their extents plus this gap between centres, and never less than `MIN_SPREAD`.
pub const SPREAD_GAP: i64 = 24_000;
pub const MIN_SPREAD: i64 = 118_000;
/// Background bullet holes kept; older ones are dropped.
pub const MAX_BG_HOLES: usize = 30;

/// A point on the board (thousandths of a board unit; y up).
#[derive(Clone, Copy, PartialEq, Eq, Structural, Debug)]
pub struct Point {
    pub x: i64,
    pub y: i64,
}

/// A bullet hole, stored relative to the target centre. `bad` = a no-shoot hit.
#[derive(Clone, Copy, PartialEq, Eq, Structural, Debug)]
pub struct Hole {
    pub off: Point,
    pub bad: bool,
}

/// A target on the board and what has happened to it in the current attempt.
#[derive(Clone, Debug)]
pub struct Target {
    pub kind: TKind,
    pub pos: Point,
    pub hw: i64,
    pub hh: i64,
    pub hits: Vec<Zone>,
    pub ns_hits: u32,
    pub down: bool,
    pub holes: Vec<Hole>,
}

impl Scorable for Target {
    open spec fn card(&self) -> Card {
        Card { kind: self.kind, hits: self.hits@, ns_hits: self.ns_hits, down: self.down }
    }

    fn kind_of(&self) -> (k: TKind) {
        self.kind
    }

    fn hits_of(&self) -> (h: &Vec<Zone>) {
        &self.hits
    }

    fn ns_hits_of(&self) -> (n: u32) {
        self.ns_hits
    }

    fn is_down(&self) -> (b: bool) {
        self.down
    }
}

pub open spec fn board_hw(kind: TKind) -> i64 {
    match kind {
        TKind::Steel => STEEL_R,
        _ => PAPER_HW,
    }
}

pub open spec fn board_hh(kind: TKind) -> i64 {
    match kind {
        TKind::Steel => STEEL_R,
        _ => PAPER_HH,
    }
}

/// The larger half extent of a target.
pub open spec fn ext_of(t: Target) -> int {
    if t.hh >= t.hw { t.hh as int } else { t.hw as int }
}

/// How far apart the centres of two targets must be.
pub open spec fn spread(a: Target, b: Target) -> int {
    let need = ext_of(a) + ext_of(b) + SPREAD_GAP;
    if need >= MIN_SPREAD { need } else { MIN_SPREAD as int }
}

/// Two targets that do not crowd each other.
pub open spec fn clear_pair(a: Target, b: Target) -> bool {
    let dx = a.pos.x - b.pos.x;
    let dy = a.pos.y - b.pos.y;
    dx * dx + dy * dy > spread(a, b) * spread(a, b)
}

/// A fresh target of the right size standing on the board.
pub open spec fn on_board(t: Target) -> bool {
    &&& t.hits@.len() == 0
    &&& t.ns_hits == 0
    &&& !t.down
    &&& t.holes@.len() == 0
    &&& t.hw == board_hw(t.kind)
    &&& t.hh == board_hh(t.kind)
    &&& -BOARD_HALF_W <= t.pos.x < BOARD_HALF_W
    &&& BOARD_LOW_Y <= t.pos.y < BOARD_HIGH_Y
}

/// A board that `layout` can produce: fresh targets on the board, papers
/// before steel before no-shoots, at most five papers, three steel and two
/// no-shoots, and no two targets crowding each other. The first paper always
/// finds a spot, so the board is never empty and starts with a paper.
pub open spec fn valid_board(ts: Seq<Target>) -> bool {
    &&& ts.len() >= 1
    &&& ts[0].kind == TKind::Paper
    &&& forall|i: int| 0 <= i < ts.len() ==> on_board(#[trigger] ts[i])
    &&& forall|i: int, j: int| 0 <= i < j < ts.len() ==> kind_rank(#[trigger] ts[i].kind) <= kind_rank(#[trigger] ts[j].kind)
    &&& forall|k: TKind| count_board(ts, k) <= plan_count(1, k)
    &&& forall|i: int, j: int| 0 <= i < j < ts.len() ==> clear_pair(#[trigger] ts[i], #[trigger] ts[j])
}

/// What a board layout decides of a target: its kind and where it stands.
pub open spec fn board_spot(t: Target) -> (TKind, Point) {
    (t.kind, t.pos)
}

/// The kinds and positions of a row of board targets.
pub open spec fn board_spots(ts: Seq<Target>) -> Seq<(TKind, Point)> {
    ts.map_values(|t: Target| board_spot(t))
}

/// The larger half extent of a board target of a kind.
pub open spec fn kind_ext(kind: TKind) -> int {
    if board_hh(kind) >= board_hw(kind) { board_hh(kind) as int } else { board_hw(kind) as int }
}

/// Two board spots far enough apart for targets of their kinds (`clear_pair`).
pub open spec fn spots_clear(a: (TKind, Point), b: (TKind, Point)) -> bool {
    let need0 = kind_ext(a.0) + kind_ext(b.0) + SPREAD_GAP;
    let need = if need0 >= MIN_SPREAD { need0 } else { MIN_SPREAD as int };
    let dx = a.1.x - b.1.x;
    let dy = a.1.y - b.1.y;
    dx * dx + dy * dy > need * need
}

/// A drawn spot stands clear, for a target of `kind`, of every target placed so far.
pub open spec fn board_draw_clear(placed: Seq<(TKind, Point)>, kind: TKind, d: Point) -> bool {
    forall|i: int| 0 <= i < placed.len() ==> spots_clear(#[trigger] placed[i], (kind, d))
}

/// One target of `kind` tries the drawn spots in turn and stands at the first
/// that is clear; when none is clear it is left out.
pub open spec fn board_first_fit(placed: Seq<(TKind, Point)>, kind: TKind, draws: Seq<Point>) -> Seq<(TKind, Point)>
    decreases draws.len(),
{
    if draws.len() == 0 {
        placed
    } else if board_draw_clear(placed, kind, draws[0]) {
        placed.push((kind, draws[0]))
    } else {
        board_first_fit(placed, kind, draws.drop_first())
    }
}

/// `count` targets of `kind`, one after the other, each with the next
/// `PLACEMENT_TRIES` drawn spots (`board_first_fit`).
pub open spec fn board_fill(placed: Seq<(TKind, Point)>, kind: TKind, count: nat, draws: Seq<Point>) -> Seq<(TKind, Point)>
    decreases count,
{
    if count == 0 {
        placed
    } else {
        board_fill(
            board_first_fit(placed, kind, draws.take(PLACEMENT_TRIES as int)),
            kind,
            (count - 1) as nat,
            draws.skip(PLACEMENT_TRIES as int),
        )
    }
}

/// Spots drawn for a board: `PLACEMENT_TRIES` for each planned target.
pub open spec fn board_draws() -> nat {
    ((PAPERS + STEEL + NOSHOOTS) * PLACEMENT_TRIES) as nat
}

/// Every drawn spot lies on the board.
pub open spec fn draws_on_board(draws: Seq<Point>) -> bool {
    forall|k: int| 0 <= k < draws.len() ==> {
        &&& -BOARD_HALF_W <= (#[trigger] draws[k]).x < BOARD_HALF_W
        &&& BOARD_LOW_Y <= draws[k].y < BOARD_HIGH_Y
    }
}

/// The board that the drawn spots give: five papers, then three steel, then
/// two no-shoots, each first-fit over its own share of the draws.
pub open spec fn board_layout_spots(draws: Seq<Point>) -> Seq<(TKind, Point)> {
    let a = board_fill(Seq::empty(), TKind::Paper, PAPERS as nat, draws);
    let b = board_fill(a, TKind::Steel, STEEL as nat, draws.skip((PAPERS * PLACEMENT_TRIES) as int));
    board_fill(b, TKind::NoShoot, NOSHOOTS as nat, draws.skip(((PAPERS + STEEL) * PLACEMENT_TRIES) as int))
}

/// A board that some spots drawn on the board give (`board_layout_spots`).
pub open spec fn drawn_board(ts: Seq<Target>) -> bool {
    exists|draws: Seq<Point>| {
        &&& draws.len() == board_draws()
        &&& draws_on_board(draws)
        &&& board_spots(ts) == #[trigger] board_layout_spots(draws)
    }
}

/// Number of targets of a kind on the board.
pub open spec fn count_board(ts: Seq<Target>, kind: TKind) -> nat
    decreases ts.len(),
{
    if ts.len() == 0 {
        0
    } else {
        count_board(ts.drop_last(), kind) + (if ts.last().kind == kind { 1nat } else { 0nat })
    }
}

/// A target with the same kind, place and size.
pub open spec fn same_spot(a: Target, b: Target) -> bool {
    &&& a.kind == b.kind
    &&& a.pos == b.pos
    &&& a.hw == b.hw
    &&& a.hh == b.hh
}

/// Whether a target is engaged enough for the stage to end.
pub open spec fn engaged(t: Target) -> bool {
    match t.kind {
        TKind::Paper => t.hits@.len() >= 2,
        TKind::Steel => t.down,
        TKind::NoShoot => true,
    }
}

/// The offset of `p` from a target's centre, when `p` lies on its face.
pub open spec fn contains_spec(t: Target, p: Point) -> Option<Point> {
    let ox = p.x - t.pos.x;
    let oy = p.y - t.pos.y;
    if on_face(t.kind, t.hw, t.hh, ox, oy) { Some(Point { x: ox as i64, y: oy as i64 }) } else { None }
}

impl Target {
    /// A fresh target of `kind` centred at `pos`.
    pub fn new(kind: TKind, pos: Point) -> (t: Target)
        ensures
            t.kind == kind,
            t.pos == pos,
            t.hw == board_hw(kind),
            t.hh == board_hh(kind),
            t.hits@.len() == 0,
            t.ns_hits == 0,
            !t.down,
            t.holes@.len() == 0,
    {
        let (hw, hh) = match kind {
            TKind::Steel => (STEEL_R, STEEL_R),
            _ => (PAPER_HW, PAPER_HH),
        };
        Target { kind, pos, hw, hh, hits: Vec::new(), ns_hits: 0, down: false, holes: Vec::new() }
    }

    /// The larger half extent.
    pub fn ext(&self) -> (e: i64)
        ensures
            e == ext_of(*self),
    {
        if self.hh >= self.hw { self.hh } else { self.hw }
    }

    /// Clear every hit and hole, as for a new attempt at the same layout.
    pub fn reset(&mut self)
        ensures
            same_spot(*final(self), *old(self)),
            final(self).hits@.len() == 0,
            final(self).ns_hits == 0,
            !final(self).down,
            final(self).holes@.len() == 0,
    {
        self.hits.clear();
        self.holes.clear();
        self.ns_hits = 0;
        self.down = false;
    }

    /// If `p` lands on this target, the offset from its centre, else None.
    pub fn contains(&self, p: Point) -> (r: Option<Point>)
        ensures
            r == contains_spec(*self, p),
    {
        let ox = p.x as i128 - self.pos.x as i128;
        let oy = p.y as i128 - self.pos.y as i128;
        if ox > i64::MAX as i128 || ox < i64::MIN as i128 || oy > i64::MAX as i128 || oy < i64::MIN as i128 {
            proof {
                let a = if ox < 0 { -ox } else { ox as int };
                let b = if oy < 0 { -oy } else { oy as int };
                if self.kind == TKind::Steel && self.hw >= 0 {
                    if a > self.hw {
                        assert(ox * ox > self.hw * self.hw) by (nonlinear_arith)
                            requires a > self.hw, self.hw >= 0, a == (if ox < 0 { -ox } else { ox as int });
                        assert(oy * oy >= 0) by (nonlinear_arith);
                    } else {
                        assert(oy * oy > self.hw * self.hw) by (nonlinear_arith)
                            requires b > self.hw, self.hw >= 0, b == (if oy < 0 { -oy } else { oy as int });
                        assert(ox * ox >= 0) by (nonlinear_arith);
                    }
                }
            }
            return None;
        }
        let ox = ox as i64;
        let oy = oy as i64;
        if on_face_check(self.kind, self.hw, self.hh, ox, oy) { Some(Point { x: ox, y: oy }) } else { None }
    }
}

/// The message shown on the board.
#[derive(Clone, Copy, PartialEq, Eq, Structural, Debug)]
pub enum StageStatus {
    /// "Press MAKE READY, wait for the buzzer, then tap the targets."
    MakeReady,
    /// "New stage. Press MAKE READY."
    NewStage,
    /// "Stand by…"
    StandBy,
    /// "GO! Tap the targets."
    Go,
    /// "Stage N complete — hit factor H"
    Complete,
}

/// A board stage: its targets, background holes, phase machine and clocks
/// (microseconds), result, and the sounds and redraws still to perform.
pub struct Stage {
    pub phase: Phase,
    pub targets: Vec<Target>,
    pub bg_holes: Vec<Point>,
    /// Delay left before the buzzer; the tick that sounds it leaves it at zero or below.
    pub wait_left_us: i128,
    pub elapsed_us: u64,
    pub shots: u32,
    pub stage_num: u32,
    pub result: Option<Score>,
    pub status: StageStatus,
    pub pending: Vec<Sfx>,
    pub dirty: bool,
}

/// The squared length of a target-relative offset, which orders taps by how
/// near they land to a target's centre.
pub open spec fn sq_len(p: Point) -> int {
    p.x * p.x + p.y * p.y
}

/// The distance keys of the targets that a tap at `p` lands on.
pub open spec fn tap_keys(ts: Seq<Target>, p: Point) -> Seq<Option<u128>> {
    Seq::new(ts.len(), |i: int| match contains_spec(ts[i], p) {
        Some(off) => Some(sq_len(off) as u128),
        None => None,
    })
}

impl Stage {
    /// What every board stage keeps between calls.
    pub open spec fn wf(&self) -> bool {
        &&& self.targets@.len() <= MAX_TARGETS
        &&& forall|i: int| 0 <= i < self.targets@.len() ==> {
            &&& (#[trigger] self.targets@[i]).hw == board_hw(self.targets@[i].kind)
            &&& self.targets@[i].hh == board_hh(self.targets@[i].kind)
        }
        &&& tally_of(self.targets@).ns <= self.shots
        &&& self.bg_holes@.len() <= MAX_BG_HOLES
        &&& (self.result is Some <==> self.phase == Phase::Scored)
        &&& self.phase == Phase::Waiting ==> 0 < self.wait_left_us <= WAIT_MAX_US
        &&& self.stage_num >= 1
    }

    /// Every target engaged.
    pub open spec fn all_engaged_spec(&self) -> bool {
        forall|i: int| 0 <= i < self.targets@.len() ==> engaged(#[trigger] self.targets@[i])
    }

    /// A fresh board stage 1.
    pub fn new() -> (s: Stage)
        ensures
            s.wf(),
            s.phase == Phase::Idle,
            valid_board(s.targets@),
            drawn_board(s.targets@),
            s.bg_holes@.len() == 0,
            s.wait_left_us == 0,
            s.elapsed_us == 0,
            s.shots == 0,
            s.stage_num == 1,
            s.result is None,
            s.status == StageStatus::MakeReady,
            s.pending@.len() == 0,
            s.dirty,
    {
        let targets = layout();
        proof {
            lemma_board_fresh_ns(targets@);
        }
        Stage {
            phase: Phase::Idle,
            targets,
            bg_holes: Vec::new(),
            wait_left_us: 0,
            elapsed_us: 0,
            shots: 0,
            stage_num: 1,
            result: None,
            status: StageStatus::MakeReady,
            pending: Vec::new(),
            dirty: true,
        }
    }

    /// A new board layout for the next stage, idle.
    pub fn next_stage(&mut self)
        requires
            old(self).wf(),
            old(self).stage_num < u32::MAX,
        ensures
            final(self).wf(),
            final(self).stage_num == old(self).stage_num + 1,
            valid_board(final(self).targets@),
            drawn_board(final(self).targets@),
            final(self).bg_holes@.len() == 0,
            final(self).result is None,
            final(self).phase == Phase::Idle,
            final(self).elapsed_us == 0,
            final(self).shots == 0,
            final(self).status == StageStatus::NewStage,
            final(self).dirty,
            final(self).wait_left_us == old(self).wait_left_us,
            final(self).pending == old(self).pending,
    {
        self.stage_num = self.stage_num + 1;
        let targets = layout();
        proof {
            lemma_board_fresh_ns(targets@);
        }
        self.targets = targets;
        self.bg_holes.clear();
        self.result = None;
        self.phase = Phase::Idle;
        self.elapsed_us = 0;
        self.shots = 0;
        self.status = StageStatus::NewStage;
        self.dirty = true;
    }

    /// Start the current stage fresh: clear hits and begin the random delay
    /// of 1.5 s to 3.5 s. Nothing happens while waiting or running.
    pub fn make_ready(&mut self)
        requires
            old(self).wf(),
        ensures
            final(self).wf(),
            old(self).phase == Phase::Running || old(self).phase == Phase::Waiting ==> *final(self) == *old(self),
            !(old(self).phase == Phase::Running || old(self).phase == Phase::Waiting) ==> {
                &&& final(self).targets@.len() == old(self).targets@.len()
                &&& forall|j: int| 0 <= j < final(self).targets@.len() ==> {
                    &&& same_spot(#[trigger] final(self).targets@[j], old(self).targets@[j])
                    &&& final(self).targets@[j].hits@.len() == 0
                    &&& final(self).targets@[j].ns_hits == 0
                    &&& !final(self).targets@[j].down
                    &&& final(self).targets@[j].holes@.len() == 0
                }
                &&& final(self).bg_holes@.len() == 0
                &&& final(self).result is None
                &&& final(self).shots == 0
                &&& final(self).elapsed_us == 0
                &&& WAIT_MIN_US <= final(self).wait_left_us < WAIT_MAX_US
                &&& final(self).phase == Phase::Waiting
                &&& final(self).status == StageStatus::StandBy
                &&& final(self).dirty
                &&& final(self).stage_num == old(self).stage_num
                &&& final(self).pending == old(self).pending
            },
    {
        if self.phase == Phase::Running || self.phase == Phase::Waiting {
            return;
        }
        let ghost o = *old(self);
        let n = self.targets.len();
        let mut i: usize = 0;
        while i < n
            invariant
                n == self.targets@.len(),
                n == o.targets@.len(),
                i <= n,
                o.wf(),
                *self == (Stage { targets: self.targets, ..o }),
                forall|j: int| 0 <= j < i ==> {
                    &&& same_spot(#[trigger] self.targets@[j], o.targets@[j])
                    &&& self.targets@[j].hits@.len() == 0
                    &&& self.targets@[j].ns_hits == 0
                    &&& !self.targets@[j].down
                    &&& self.targets@[j].holes@.len() == 0
                },
                forall|j: int| i <= j < n ==> #[trigger] self.targets@[j] == o.targets@[j],
            decreases n - i,
        {
            self.targets[i].reset();
            i = i + 1;
        }
        self.bg_holes.clear();
        self.result = None;
        self.shots = 0;
        self.elapsed_us = 0;
        self.wait_left_us = random_in(WAIT_MIN_US as i64, WAIT_MAX_US as i64) as i128;
        self.phase = Phase::Waiting;
        self.status = StageStatus::StandBy;
        self.dirty = true;
        proof {
            lemma_board_fresh_ns(self.targets@);
        }
    }

    /// Let `dt` microseconds pass. Waiting: the delay runs down; when it is over
    /// the buzzer sounds and the clock starts from zero. Running: the clock runs,
    /// and once every target is engaged the stage is scored. Otherwise nothing.
    pub fn tick(&mut self, dt: u64)
        requires
            old(self).wf(),
        ensures
            final(self).wf(),
            old(self).ticks_into(dt, *final(self)),
    {
        match self.phase {
            Phase::Waiting => {
                self.wait_left_us = self.wait_left_us - dt as i128;
                if self.wait_left_us <= 0 {
                    self.phase = Phase::Running;
                    self.elapsed_us = 0;
                    self.pending.push(Sfx::Buzzer);
                    self.status = StageStatus::Go;
                    self.dirty = true;
                }
            },
            Phase::Running => {
                self.elapsed_us = self.elapsed_us.saturating_add(dt);
                if self.all_engaged() {
                    self.score();
                }
            },
            _ => {},
        }
    }

    /// What `dt` microseconds do to a board stage. Waiting: the delay runs
    /// down, and when it is over the buzzer sounds and the clock starts from
    /// zero. Running: the clock runs, and once every target is engaged the
    /// stage is scored. Otherwise nothing changes.
    pub open spec fn ticks_into(self, dt: u64, m: Stage) -> bool {
        match self.phase {
            Phase::Waiting => if dt >= self.wait_left_us {
                &&& m.pending@ == self.pending@.push(Sfx::Buzzer)
                &&& m == (Stage { wait_left_us: (self.wait_left_us - dt) as i128, phase: Phase::Running, elapsed_us: 0, status: StageStatus::Go, dirty: true, pending: m.pending, ..self })
            } else {
                m == (Stage { wait_left_us: (self.wait_left_us - dt) as i128, ..self })
            },
            Phase::Running => {
                let c = Stage { elapsed_us: self.elapsed_us.saturating_add(dt), ..self };
                if c.all_engaged_spec() { c.scores_into(m) } else { m == c }
            },
            _ => m == self,
        }
    }

    /// Whether every target is engaged.
    pub fn all_engaged(&self) -> (b: bool)
        ensures
            b == self.all_engaged_spec(),
    {
        let n = self.targets.len();
        let mut i: usize = 0;
        while i < n
            invariant
                n == self.targets@.len(),
                i <= n,
                forall|j: int| 0 <= j < i ==> engaged(#[trigger] self.targets@[j]),
            decreases n - i,
        {
            let t = &self.targets[i];
            let ok = match t.kind {
                TKind::Paper => t.hits.len() >= 2,
                TKind::Steel => t.down,
                TKind::NoShoot => true,
            };
            if !ok {
                return false;
            }
            i = i + 1;
        }
        true
    }

    /// Register a tap at `p`. Only while running: the tap counts and sounds,
    /// and the target it lands on whose centre is nearest to it (the first of
    /// equally near ones) takes the hit; a tap on no target leaves a background
    /// hole, keeping the last `MAX_BG_HOLES`.
    pub fn shoot(&mut self, p: Point)
        requires
            old(self).wf(),
            old(self).phase == Phase::Running ==> old(self).shots < u32::MAX,
        ensures
            final(self).wf(),
            old(self).phase != Phase::Running ==> *final(self) == *old(self),
            old(self).phase == Phase::Running ==> old(self).taps_into(p, *final(self)),
    {
        if self.phase != Phase::Running {
            return;
        }
        self.shots = self.shots + 1;
        self.pending.push(Sfx::Shot);
        self.dirty = true;
        let ghost m1 = *self;

        let n = self.targets.len();
        let mut keys: Vec<Option<u128>> = Vec::new();
        let mut offs: Vec<Point> = Vec::new();
        let mut i: usize = 0;
        while i < n
            invariant
                n == self.targets@.len(),
                i <= n,
                self.wf(),
                keys@ == tap_keys(self.targets@, p).take(i as int),
                offs@.len() == i,
                forall|j: int| 0 <= j < i && (#[trigger] contains_spec(self.targets@[j], p)) is Some ==> offs@[j] == contains_spec(self.targets@[j], p).unwrap(),
            decreases n - i,
        {
            let t = &self.targets[i];
            match t.contains(p) {
                Some(off) => {
                    proof {
                        crate::aim::lemma_on_face_bounds(t.kind, t.hw, t.hh, p.x - t.pos.x, p.y - t.pos.y);
                        assert(-0x20_0000 <= off.x <= 0x20_0000 && -0x20_0000 <= off.y <= 0x20_0000);
                        assert(off.x * off.x <= 0x4000_0000_0000) by (nonlinear_arith)
                            requires -0x20_0000 <= off.x <= 0x20_0000;
                        assert(off.y * off.y <= 0x4000_0000_0000) by (nonlinear_arith)
                            requires -0x20_0000 <= off.y <= 0x20_0000;
                    }
                    let ax: i128 = off.x as i128;
                    let ay: i128 = off.y as i128;
                    assert(ax * ax <= 0x4000_0000_0000 && ax * ax >= 0) by (nonlinear_arith)
                        requires -0x20_0000 <= ax <= 0x20_0000;
                    assert(ay * ay <= 0x4000_0000_0000 && ay * ay >= 0) by (nonlinear_arith)
                        requires -0x20_0000 <= ay <= 0x20_0000;
                    let sq: i128 = ax * ax + ay * ay;
                    keys.push(Some(sq as u128));
                    offs.push(off);
                },
                None => {
                    keys.push(None);
                    offs.push(Point { x: 0, y: 0 });
                },
            }
            i = i + 1;
            assert(keys@ =~= tap_keys(self.targets@, p).take(i as int));
        }
        assert(keys@ =~= tap_keys(self.targets@, p));
        let best = nearest_index(&keys);
        proof {
            crate::aim::lemma_nearest_is_nearest(keys@);
        }
        match best {
            None => {
                self.bg_holes.push(p);
                if self.bg_holes.len() > MAX_BG_HOLES {
                    self.bg_holes.remove(0);
                }
            },
            Some(bi) => {
                let off = offs[bi];
                proof {
                    lemma_element_ns(self.targets@, bi as int);
                }
                let kind = self.targets[bi].kind;
                match kind {
                    TKind::Paper => {
                        let zone = paper_zone(off.x, off.y, self.targets[bi].hw, self.targets[bi].hh);
                        self.targets[bi].hits.push(zone);
                        self.targets[bi].holes.push(Hole { off, bad: false });
                        self.pending.push(Sfx::Paper);
                    },
                    TKind::Steel => {
                        if !self.targets[bi].down {
                            self.targets[bi].down = true;
                            self.pending.push(Sfx::Steel);
                        }
                    },
                    TKind::NoShoot => {
                        self.targets[bi].ns_hits = self.targets[bi].ns_hits + 1;
                        self.targets[bi].holes.push(Hole { off, bad: true });
                        self.pending.push(Sfx::Penalty);
                    },
                }
                proof {
                    lemma_update_ns(m1.targets@, bi as int, self.targets@[bi as int]);
                    assert(self.targets@ =~= m1.targets@.update(bi as int, self.targets@[bi as int]));
                }
            },
        }
    }

    /// What a tap at `p` does to a running stage (see `shoot`).
    pub open spec fn taps_into(self, p: Point, m: Stage) -> bool {
        let sounds = self.pending@.push(Sfx::Shot);
        &&& m.shots == self.shots + 1
        &&& m.dirty
        &&& m.phase == self.phase
        &&& m.stage_num == self.stage_num
        &&& m.result == self.result
        &&& m.status == self.status
        &&& m.elapsed_us == self.elapsed_us
        &&& m.wait_left_us == self.wait_left_us
        &&& match nearest(tap_keys(self.targets@, p)) {
            None => {
                &&& m.targets@ == self.targets@
                &&& m.bg_holes@ == if self.bg_holes@.len() + 1 > MAX_BG_HOLES {
                    self.bg_holes@.push(p).subrange(1, self.bg_holes@.len() as int + 1)
                } else {
                    self.bg_holes@.push(p)
                }
                &&& m.pending@ == sounds
            },
            Some(i) => {
                let t = self.targets@[i];
                let t2 = m.targets@[i];
                let off = contains_spec(t, p).unwrap();
                &&& m.bg_holes@ == self.bg_holes@
                &&& m.targets@.len() == self.targets@.len()
                &&& forall|j: int| 0 <= j < m.targets@.len() && j != i ==> #[trigger] m.targets@[j] == self.targets@[j]
                &&& same_spot(t2, t)
                &&& match t.kind {
                    TKind::Paper => {
                        &&& t2.hits@ == t.hits@.push(zone_at(off.x, off.y, t.hw, t.hh))
                        &&& t2.holes@ == t.holes@.push(Hole { off, bad: false })
                        &&& t2.ns_hits == t.ns_hits && t2.down == t.down
                        &&& m.pending@ == sounds.push(Sfx::Paper)
                    },
                    TKind::Steel => {
                        &&& t2.hits@ == t.hits@ && t2.holes@ == t.holes@ && t2.ns_hits == t.ns_hits
                        &&& t2.down
                        &&& m.pending@ == if t.down { sounds } else { sounds.push(Sfx::Steel) }
                    },
                    TKind::NoShoot => {
                        &&& t2.hits@ == t.hits@ && t2.down == t.down
                        &&& t2.ns_hits == t.ns_hits + 1
                        &&& t2.holes@ == t.holes@.push(Hole { off, bad: true })
                        &&& m.pending@ == sounds.push(Sfx::Penalty)
                    },
                }
            },
        }
    }

    /// Stop the clock and score, when running; otherwise nothing happens.
    pub fn stop(&mut self)
        requires
            old(self).wf(),
        ensures
            final(self).wf(),
            old(self).phase == Phase::Running ==> old(self).scores_into(*final(self)),
            old(self).phase != Phase::Running ==> *final(self) == *old(self),
    {
        if self.phase == Phase::Running {
            self.score();
        }
    }

    /// What scoring does: the result is the score of the targets over the
    /// stage time, the phase becomes Scored, the board is redrawn, and the
    /// clear sound plays when the points are positive, else the penalty honk.
    pub open spec fn scores_into(self, m: Stage) -> bool {
        &&& m.result matches Some(s) && s.counts() == tally_of(self.targets@) && s.time_us == stage_time(self.elapsed_us)
        &&& m.pending@ == self.pending@.push(if m.result.unwrap().points > 0 { Sfx::Clear } else { Sfx::Penalty })
        &&& m == (Stage { result: m.result, phase: Phase::Scored, status: StageStatus::Complete, dirty: true, pending: m.pending, ..self })
    }

    fn score(&mut self)
        requires
            old(self).wf(),
        ensures
            final(self).wf(),
            old(self).scores_into(*final(self)),
    {
        let time = if self.elapsed_us < MIN_STAGE_TIME_US { MIN_STAGE_TIME_US } else { self.elapsed_us };
        let s = score_targets(&self.targets, time);
        self.result = Some(s);
        self.phase = Phase::Scored;
        self.status = StageStatus::Complete;
        if s.points > 0 {
            self.pending.push(Sfx::Clear);
        } else {
            self.pending.push(Sfx::Penalty);
        }
        self.dirty = true;
    }
}

/// Board scoring and match scoring agree: a board stage and a match with the
/// same stage time and targets with the same kinds, hits, no-shoot hits and
/// fallen steel, place by place, score to the same result, both end Scored,
/// and both sound the same (clear for positive points, else the penalty).
pub proof fn law_board_and_match_scores_agree(st: Stage, m: crate::game::Match, st2: Stage, m2: crate::game::Match)
    requires
        st.elapsed_us == m.elapsed_us,
        st.targets@.len() == m.targets@.len(),
        forall|i: int| 0 <= i < st.targets@.len() ==> (#[trigger] st.targets@[i].card()) == m.targets@[i].card(),
        st.scores_into(st2),
        m.scores_into(m2),
    ensures
        st2.result == m2.result,
        st2.phase == Phase::Scored && m2.phase == Phase::Scored,
        st2.pending@.last() == m2.pending@.last(),
{
    crate::scoring::lemma_same_cards(st.targets@, m.targets@);
    let (s1, s2) = (st2.result.unwrap(), m2.result.unwrap());
    assert(s1.counts() == s2.counts());
    assert(s1 == s2);
}

/// A no-shoot on the board is engaged from the start, however often it was hit.
pub proof fn law_no_shoot_is_always_engaged(t: Target)
    requires
        t.kind == TKind::NoShoot,
    ensures
        engaged(t),
{
}

/// Once every paper on a running board holds two hits and every steel is
/// down, the next tick scores the board, whatever the no-shoots hold.
pub proof fn law_cleared_board_scores_on_tick(s: Stage, dt: u64, s2: Stage)
    requires
        s.phase == Phase::Running,
        forall|i: int| 0 <= i < s.targets@.len() && (#[trigger] s.targets@[i]).kind == TKind::Paper ==> s.targets@[i].hits@.len() >= 2,
        forall|i: int| 0 <= i < s.targets@.len() && (#[trigger] s.targets@[i]).kind == TKind::Steel ==> s.targets@[i].down,
        s.ticks_into(dt, s2),
    ensures
        s2.phase == Phase::Scored,
        s2.status == StageStatus::Complete,
        s2.result is Some,
{
    let c = Stage { elapsed_us: s.elapsed_us.saturating_add(dt), ..s };
    assert forall|i: int| 0 <= i < c.targets@.len() implies engaged(#[trigger] c.targets@[i]) by {
        assert(c.targets@[i] == s.targets@[i]);
    }
    assert(c.all_engaged_spec());
}

/// A tap whose nearest target under the finger is a paper adds exactly one
/// hit to that paper, in the zone of the tap's offset from its centre, after
/// the hits it already holds (a make-up hit too); no other target changes.
pub proof fn law_paper_tap_adds_one_hit(s: Stage, p: Point, s2: Stage, i: int)
    requires
        s.taps_into(p, s2),
        0 <= i < s.targets@.len(),
        s.targets@[i].kind == TKind::Paper,
        contains_spec(s.targets@[i], p) is Some,
        forall|j: int| 0 <= j < s.targets@.len() && j != i && (#[trigger] contains_spec(s.targets@[j], p)) is Some
            ==> sq_len(contains_spec(s.targets@[i], p).unwrap()) < sq_len(contains_spec(s.targets@[j], p).unwrap()),
    ensures
        s2.targets@[i].hits@.len() == s.targets@[i].hits@.len() + 1,
        s2.targets@[i].hits@.take(s.targets@[i].hits@.len() as int) == s.targets@[i].hits@,
        s2.targets@[i].hits@.last() == zone_at((p.x - s.targets@[i].pos.x) as i64, (p.y - s.targets@[i].pos.y) as i64, s.targets@[i].hw, s.targets@[i].hh),
        s2.targets@.len() == s.targets@.len(),
        forall|j: int| 0 <= j < s.targets@.len() && j != i ==> #[trigger] s2.targets@[j] == s.targets@[j],
{
    let keys = tap_keys(s.targets@, p);
    crate::aim::lemma_nearest_is_nearest(keys);
    assert(keys[i] is Some);
    lemma_tap_key(contains_spec(s.targets@[i], p).unwrap());
    match nearest(keys) {
        Some(n) => {
            if n != i {
                lemma_tap_key(contains_spec(s.targets@[n], p).unwrap());
                assert(keys[n].unwrap() <= keys[i].unwrap());
                assert(false);
            }
        },
        None => {
            assert(false);
        },
    }
    let h = s.targets@[i].hits@;
    assert(s2.targets@[i].hits@ == h.push(zone_at(contains_spec(s.targets@[i], p).unwrap().x, contains_spec(s.targets@[i], p).unwrap().y, s.targets@[i].hw, s.targets@[i].hh)));
    assert(h.push(zone_at(contains_spec(s.targets@[i], p).unwrap().x, contains_spec(s.targets@[i], p).unwrap().y, s.targets@[i].hw, s.targets@[i].hh)).take(h.len() as int) =~= h);
}

/// A tap's distance key is the squared length of its offset.
proof fn lemma_tap_key(off: Point)
    ensures
        0 <= sq_len(off) <= u128::MAX,
        (sq_len(off) as u128) as int == sq_len(off),
{
    assert(off.x * off.x <= 0x4000_0000_0000_0000_0000_0000_0000_0000) by (nonlinear_arith)
        requires i64::MIN <= off.x <= i64::MAX;
    assert(off.y * off.y <= 0x4000_0000_0000_0000_0000_0000_0000_0000) by (nonlinear_arith)
        requires i64::MIN <= off.y <= i64::MAX;
    assert(off.x * off.x >= 0 && off.y * off.y >= 0) by (nonlinear_arith);
}

/// A board that nobody has tapped holds no no-shoot hits.
pub proof fn lemma_board_fresh_ns(ts: Seq<Target>)
    requires
        forall|i: int| 0 <= i < ts.len() ==> (#[trigger] ts[i]).ns_hits == 0,
    ensures
        tally_of(ts).ns == 0,
    decreases ts.len(),
{
    if ts.len() > 0 {
        lemma_board_fresh_ns(ts.drop_last());
    }
}

proof fn lemma_count_board_push(ts: Seq<Target>, t: Target, k: TKind)
    ensures
        count_board(ts.push(t), k) == count_board(ts, k) + (if t.kind == k { 1nat } else { 0nat }),
{
    assert(ts.push(t).drop_last() =~= ts);
}

/// Whether a candidate stands clear of every target placed so far.
fn clear_of_board(targets: &Vec<Target>, cand: &Target) -> (b: bool)
    requires
        forall|i: int| 0 <= i < targets@.len() ==> on_board(#[trigger] targets@[i]),
        on_board(*cand),
    ensures
        b == forall|i: int| 0 <= i < targets@.len() ==> clear_pair(#[trigger] targets@[i], *cand),
{
    let n = targets.len();
    let mut i: usize = 0;
    while i < n
        invariant
            n == targets@.len(),
            i <= n,
            forall|i: int| 0 <= i < targets@.len() ==> on_board(#[trigger] targets@[i]),
            on_board(*cand),
            forall|j: int| 0 <= j < i ==> clear_pair(#[trigger] targets@[j], *cand),
        decreases n - i,
    {
        let t = &targets[i];
        let dx = t.pos.x - cand.pos.x;
        let dy = t.pos.y - cand.pos.y;
        let need0 = t.ext() + cand.ext() + SPREAD_GAP;
        let need = if need0 >= MIN_SPREAD { need0 } else { MIN_SPREAD };
        proof {
            assert(-1_000_000 <= dx <= 1_000_000 && -1_000_000 <= dy <= 1_000_000 && 0 <= need <= 1_000_000);
            assert(dx * dx <= 0x10_0000_0000_0000) by (nonlinear_arith)
                requires -1_000_000 <= dx <= 1_000_000;
            assert(dy * dy <= 0x10_0000_0000_0000) by (nonlinear_arith)
                requires -1_000_000 <= dy <= 1_000_000;
            assert(need * need <= 0x10_0000_0000_0000) by (nonlinear_arith)
                requires 0 <= need <= 1_000_000;
            assert(dx * dx >= 0 && dy * dy >= 0) by (nonlinear_arith);
        }
        if !(dx * dx + dy * dy > need * need) {
            return false;
        }
        i = i + 1;
    }
    true
}

proof fn lemma_clear_pair_spots(a: Target, b: Target)
    requires
        on_board(a),
        on_board(b),
    ensures
        clear_pair(a, b) == spots_clear(board_spot(a), board_spot(b)),
{
}

proof fn lemma_board_spots_push(ts: Seq<Target>, t: Target)
    ensures
        board_spots(ts.push(t)) == board_spots(ts).push(board_spot(t)),
{
    assert(board_spots(ts.push(t)) =~= board_spots(ts).push(board_spot(t)));
}

/// Lay out a board from the drawn spots: five papers, then three steel, then
/// two no-shoots, each target first-fit over its own `PLACEMENT_TRIES` draws
/// (`board_layout_spots`).
pub fn lay_out_board(draws: &Vec<Point>) -> (ts: Vec<Target>)
    requires
        draws@.len() == board_draws(),
        draws_on_board(draws@),
    ensures
        board_spots(ts@) == board_layout_spots(draws@),
        valid_board(ts@),
        ts@.len() <= MAX_TARGETS,
{
    let mut targets: Vec<Target> = Vec::new();
    proof {
        assert(draws@.skip(0) =~= draws@);
        assert(board_spots(targets@) =~= Seq::<(TKind, Point)>::empty());
    }
    place_on_board(&mut targets, TKind::Paper, PAPERS, draws, 0);
    let ghost t1 = targets@;
    place_on_board(&mut targets, TKind::Steel, STEEL, draws, PAPERS * PLACEMENT_TRIES);
    let ghost t2 = targets@;
    place_on_board(&mut targets, TKind::NoShoot, NOSHOOTS, draws, (PAPERS + STEEL) * PLACEMENT_TRIES);
    proof {
        let ts = targets@;
        assert(ts.subrange(0, t2.len() as int) == t2);
        assert(t2.subrange(0, t1.len() as int) == t1);
        assert(ts[0] == t2[0]);
        assert(t2[0] == t1[0]);
        assert forall|i: int, j: int| 0 <= i < j < ts.len() implies kind_rank(#[trigger] ts[i].kind) <= kind_rank(#[trigger] ts[j].kind) by {
            assert(ts.subrange(0, t2.len() as int) == t2);
            assert(t2.subrange(0, t1.len() as int) == t1);
            if i < t1.len() {
                assert(ts[i] == t2[i]);
                assert(t2[i] == t1[i]);
            } else if i < t2.len() {
                assert(ts[i] == t2[i]);
                if j < t2.len() {
                    assert(ts[j] == t2[j]);
                }
            }
        }
        assert forall|k: TKind| count_board(ts, k) <= plan_count(1, k) by {
            match k {
                TKind::Paper => {},
                TKind::Steel => {},
                TKind::NoShoot => {},
            }
        }
    }
    targets
}

/// Lay out a fresh random board: five papers, three steel and two no-shoots,
/// each tried at up to 300 random spots and left out if none is clear. The
/// spots are drawn at random on the board, `PLACEMENT_TRIES` for each planned
/// target, and laid out by `lay_out_board`.
pub fn layout() -> (ts: Vec<Target>)
    ensures
        drawn_board(ts@),
        valid_board(ts@),
        ts@.len() <= MAX_TARGETS,
{
    let n: usize = (PAPERS + STEEL + NOSHOOTS) * PLACEMENT_TRIES;
    let mut draws: Vec<Point> = Vec::new();
    while draws.len() < n
        invariant
            n == board_draws(),
            draws@.len() <= n,
            draws_on_board(draws@),
        decreases n - draws@.len(),
    {
        let x = random_in(-BOARD_HALF_W, BOARD_HALF_W);
        let y = random_in(BOARD_LOW_Y, BOARD_HIGH_Y);
        draws.push(Point { x, y });
    }
    let targets = lay_out_board(&draws);
    assert(board_spots(targets@) == board_layout_spots(draws@));
    targets
}

/// Place up to `count` targets of `kind` on the board, first-fit over the
/// drawn spots from `off` on: each target takes the first clear spot of its
/// `PLACEMENT_TRIES` draws and is left out when none is clear (`board_fill`).
/// When any target is asked for, the board ends up non-empty: on an empty
/// board the first spot always stands clear.
fn place_on_board(targets: &mut Vec<Target>, kind: TKind, count: usize, draws: &Vec<Point>, off: usize)
    requires
        forall|i: int| 0 <= i < old(targets)@.len() ==> on_board(#[trigger] old(targets)@[i]),
        forall|i: int| 0 <= i < old(targets)@.len() ==> kind_rank(#[trigger] old(targets)@[i].kind) <= kind_rank(kind),
        forall|i: int, j: int| 0 <= i < j < old(targets)@.len() ==> clear_pair(#[trigger] old(targets)@[i], #[trigger] old(targets)@[j]),
        old(targets)@.len() + count <= MAX_TARGETS,
        off + count * PLACEMENT_TRIES <= draws@.len(),
        draws_on_board(draws@),
    ensures
        board_spots(final(targets)@) == board_fill(board_spots(old(targets)@), kind, count as nat, draws@.skip(off as int)),
        final(targets)@.subrange(0, old(targets)@.len() as int) == old(targets)@,
        old(targets)@.len() <= final(targets)@.len() <= old(targets)@.len() + count,
        forall|i: int| old(targets)@.len() <= i < final(targets)@.len() ==> (#[trigger] final(targets)@[i]).kind == kind,
        forall|i: int| 0 <= i < final(targets)@.len() ==> on_board(#[trigger] final(targets)@[i]),
        forall|i: int, j: int| 0 <= i < j < final(targets)@.len() ==> clear_pair(#[trigger] final(targets)@[i], #[trigger] final(targets)@[j]),
        count_board(final(targets)@, kind) == count_board(old(targets)@, kind) + (final(targets)@.len() - old(targets)@.len()),
        forall|k: TKind| k != kind ==> count_board(final(targets)@, k) == count_board(old(targets)@, k),
        count > 0 ==> final(targets)@.len() > 0,
{
    let ghost start = old(targets)@;
    let ghost goal = board_fill(board_spots(start), kind, count as nat, draws@.skip(off as int));
    let dl = draws.len();
    let mut placed: usize = 0;
    while placed < count
        invariant
            dl == draws@.len(),
            placed <= count,
            start.len() + count <= MAX_TARGETS,
            off + count * PLACEMENT_TRIES <= draws@.len(),
            draws_on_board(draws@),
            board_fill(board_spots(targets@), kind, (count - placed) as nat, draws@.skip(off + placed * PLACEMENT_TRIES)) == goal,
            start.len() <= targets@.len() <= start.len() + placed,
            targets@.subrange(0, start.len() as int) == start,
            forall|i: int| start.len() <= i < targets@.len() ==> (#[trigger] targets@[i]).kind == kind,
            forall|i: int| 0 <= i < targets@.len() ==> on_board(#[trigger] targets@[i]),
            forall|i: int, j: int| 0 <= i < j < targets@.len() ==> clear_pair(#[trigger] targets@[i], #[trigger] targets@[j]),
            count_board(targets@, kind) == count_board(start, kind) + (targets@.len() - start.len()),
            forall|k: TKind| k != kind ==> count_board(targets@, k) == count_board(start, k),
            placed > 0 ==> targets@.len() > 0,
        decreases count - placed,
    {
        assert(placed * PLACEMENT_TRIES + PLACEMENT_TRIES <= count * PLACEMENT_TRIES) by (nonlinear_arith)
            requires placed < count;
        let base: usize = off + placed * PLACEMENT_TRIES;
        let ghost cur0 = board_spots(targets@);
        let ghost slot = draws@.subrange(base as int, base + PLACEMENT_TRIES);
        assert(slot.skip(0) =~= slot);
        let mut tries: usize = 0;
        let mut done = false;
        while tries < PLACEMENT_TRIES && !done
            invariant
                dl == draws@.len(),
                placed < count,
                start.len() + count <= MAX_TARGETS,
                base + PLACEMENT_TRIES <= draws@.len(),
                slot == draws@.subrange(base as int, base + PLACEMENT_TRIES),
                draws_on_board(draws@),
                tries <= PLACEMENT_TRIES,
                !done ==> board_spots(targets@) == cur0 && board_first_fit(cur0, kind, slot.skip(tries as int)) == board_first_fit(cur0, kind, slot),
                done ==> board_spots(targets@) == board_first_fit(cur0, kind, slot),
                start.len() <= targets@.len() <= start.len() + placed + (if done { 1int } else { 0int }),
                targets@.subrange(0, start.len() as int) == start,
                forall|i: int| start.len() <= i < targets@.len() ==> (#[trigger] targets@[i]).kind == kind,
                forall|i: int| 0 <= i < targets@.len() ==> on_board(#[trigger] targets@[i]),
                forall|i: int, j: int| 0 <= i < j < targets@.len() ==> clear_pair(#[trigger] targets@[i], #[trigger] targets@[j]),
                count_board(targets@, kind) == count_board(start, kind) + (targets@.len() - start.len()),
                forall|k: TKind| k != kind ==> count_board(targets@, k) == count_board(start, k),
                placed > 0 || tries > 0 || done ==> targets@.len() > 0,
            decreases PLACEMENT_TRIES - tries,
        {
            let p = draws[base + tries];
            proof {
                assert(draws@[base + tries] == p);
                assert(slot.skip(tries as int)[0] == p);
                assert(slot.skip(tries as int).drop_first() =~= slot.skip(tries + 1));
            }
            let cand = Target::new(kind, p);
            let ok = clear_of_board(targets, &cand);
            proof {
                assert(board_spots(targets@) == cur0);
                if board_draw_clear(cur0, kind, p) {
                    assert forall|i: int| 0 <= i < targets@.len() implies clear_pair(#[trigger] targets@[i], cand) by {
                        lemma_clear_pair_spots(targets@[i], cand);
                        assert(cur0[i] == board_spot(targets@[i]));
                    }
                }
                if ok {
                    assert forall|i: int| 0 <= i < cur0.len() implies spots_clear(#[trigger] cur0[i], (kind, p)) by {
                        lemma_clear_pair_spots(targets@[i], cand);
                        assert(cur0[i] == board_spot(targets@[i]));
                        assert(clear_pair(targets@[i], cand));
                    }
                }
                assert(ok == board_draw_clear(cur0, kind, p));
            }
            if ok {
                let ghost before = targets@;
                targets.push(cand);
                proof {
                    lemma_board_spots_push(before, cand);
                    assert forall|k: TKind| #[trigger] count_board(targets@, k) == count_board(before, k) + (if cand.kind == k { 1nat } else { 0nat }) by {
                        lemma_count_board_push(before, cand, k);
                    }
                    assert(targets@.subrange(0, start.len() as int) =~= start) by {
                        assert(before.subrange(0, start.len() as int) == start);
                    }
                    assert forall|i: int, j: int| 0 <= i < j < targets@.len() implies clear_pair(#[trigger] targets@[i], #[trigger] targets@[j]) by {
                        assert(targets@[i] == before[i]);
                        if j < before.len() {
                            assert(targets@[j] == before[j]);
                        }
                    }
                }
                done = true;
            }
            tries = tries + 1;
        }
        proof {
            if !done {
                assert(slot.skip(PLACEMENT_TRIES as int) =~= Seq::<Point>::empty());
            }
            let d = draws@.skip(off + placed * PLACEMENT_TRIES);
            assert(d.take(PLACEMENT_TRIES as int) =~= slot);
            assert(d.skip(PLACEMENT_TRIES as int) =~= draws@.skip(off + (placed + 1) * PLACEMENT_TRIES));
        }
        placed = placed + 1;
    }
}

} // verus!
