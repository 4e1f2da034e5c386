//! The world of the builders and what an action does in it.
use vstd::prelude::*;

use super::worldgen::{self, count_of, RING_RADIUS};
use crate::axial_tile::{tile_index, AxialTile};
use crate::coords::{Angle, Cube, Direction, Neighbourhood};
use crate::hexgrid_view::CellView;
use crate::hexmap::{self, side, Location, LocationRule};
use crate::rng::{seed_rng, SimRng};

verus! {

/// What a cell holds.
#[derive(Clone, Copy, PartialEq, Eq, Debug, Structural)]
pub enum Cell {
    Border,
    Air,
    Wall,
    Agent,
    Food,
}

impl Cell {
    /// Whether a builder can pull the cell: walls, food and air.
    pub open spec fn pullable(self) -> bool {
        self == Cell::Wall || self == Cell::Food || self == Cell::Air
    }

    /// Whether a builder can walk onto the cell: food and air.
    pub open spec fn walkable(self) -> bool {
        self == Cell::Food || self == Cell::Air
    }

    pub fn can_pull(self) -> (r: bool)
        ensures
            r == self.pullable(),
    {
        match self {
            Cell::Wall | Cell::Food | Cell::Air => true,
            _ => false,
        }
    }

    pub fn can_walk(self) -> (r: bool)
        ensures
            r == self.walkable(),
    {
        match self {
            Cell::Food | Cell::Air => true,
            _ => false,
        }
    }
}

/// The actions of a builder: walk (forward, forward-left or forward-right,
/// turning that way; or back, back-left or back-right), pull the cell ahead
/// along while stepping back, or wait.
#[derive(Clone, Copy, PartialEq, Eq, Debug, Structural)]
pub enum Action {
    Forward,
    ForwardLeft,
    ForwardRight,
    Back,
    BackLeft,
    BackRight,
    PullBack,
    PullBackLeft,
    PullBackRight,
    Wait,
}

impl Action {
    /// The action at position `i` of the list above, if any.
    pub fn from_index(i: usize) -> (r: Option<Action>)
        ensures
            r is Some <==> i < 10,
    {
        match i {
            0 => Some(Action::Forward),
            1 => Some(Action::ForwardLeft),
            2 => Some(Action::ForwardRight),
            3 => Some(Action::Back),
            4 => Some(Action::BackLeft),
            5 => Some(Action::BackRight),
            6 => Some(Action::PullBack),
            7 => Some(Action::PullBackLeft),
            8 => Some(Action::PullBackRight),
            9 => Some(Action::Wait),
            _ => None,
        }
    }
}

/// Whether the action pulls the cell ahead.
pub open spec fn is_pull(a: Action) -> bool {
    a == Action::PullBack || a == Action::PullBackLeft || a == Action::PullBackRight
}

/// The direction of the step (relative to the heading) and the turn of an action.
pub open spec fn step_angles(a: Action) -> (Angle, Angle) {
    match a {
        Action::Forward => (Angle::Forward, Angle::Forward),
        Action::ForwardLeft => (Angle::Left, Angle::Left),
        Action::ForwardRight => (Angle::Right, Angle::Right),
        Action::Back | Action::PullBack => (Angle::Back, Angle::Forward),
        Action::BackLeft | Action::PullBackLeft => (Angle::LeftBack, Angle::Right),
        Action::BackRight | Action::PullBackRight => (Angle::RightBack, Angle::Left),
        Action::Wait => (Angle::Forward, Angle::Forward),
    }
}

/// The exhaustion that an action costs: moving a wall costs 2, stepping or
/// pulling back costs 1.
pub open spec fn cost_spec(action: Action, moved: Cell) -> int {
    (if moved == Cell::Wall {
        2int
    } else {
        0
    }) + (match action {
        Action::Back | Action::BackLeft | Action::BackRight => 1int,
        Action::PullBack | Action::PullBackLeft | Action::PullBackRight => 1int,
        _ => 0int,
    })
}

/// The exhaustion that an action costs (see `cost_spec`).
pub fn cost(action: Action, moved: Cell) -> (r: u8)
    requires
        moved != Cell::Agent,
        moved != Cell::Border,
    ensures
        r == cost_spec(action, moved),
{
    let move_cost: u8 = match moved {
        Cell::Wall => 2,
        _ => 0,
    };
    let action_cost: u8 = match action {
        Action::Forward | Action::ForwardLeft | Action::ForwardRight => 0,
        Action::Back | Action::BackLeft | Action::BackRight => 1,
        Action::PullBack | Action::PullBackLeft | Action::PullBackRight => 1,
        Action::Wait => 0,
    };
    move_cost + action_cost
}

/// Where a builder stands and what it did last (its memory is kept with its
/// decisions).
#[derive(Clone, Copy, Debug)]
pub struct BuilderPos {
    pub pos: Cube,
    pub heading: Direction,
    pub exhausted: u8,
    pub last_action: Action,
}

/// The neighbour of `p` in direction `d`.
pub open spec fn ahead(p: Cube, d: Direction) -> Cube {
    Cube { x: (p.x + d.dx()) as i32, y: (p.y + d.dy()) as i32 }
}

/// Position in storage of `p`.
pub open spec fn idx_of(t: AxialTile<Cell>, p: Cube) -> int {
    tile_index(t.spec_width(), p.x as int, p.spec_z())
}

/// What action `a` of the builder `b` does: the cells after it, the builder
/// after it and the cell it moved. It turns as the action says; it pulls
/// the cell ahead into its place when stepping back into air (pull actions);
/// otherwise it steps where it can walk, leaving what it stepped on behind;
/// otherwise it stays.
pub open spec fn action_result(
    cells: AxialTile<Cell>,
    b: BuilderPos,
    a: Action,
    cells2: Seq<Cell>,
    b2: BuilderPos,
    moved: Cell,
) -> bool {
    &&& b2.last_action == a
    &&& b2.exhausted == cost_spec(a, moved)
    &&& if a == Action::Wait {
        cells2 == cells@ && b2.pos == b.pos && b2.heading == b.heading && moved == Cell::Air
    } else {
        let (step, turn) = step_angles(a);
        let f = ahead(b.pos, b.heading);
        let s = ahead(b.pos, b.heading.turned(step));
        let cf = cells.at(f.x as int, f.spec_z());
        let cs = cells.at(s.x as int, s.spec_z());
        &&& b2.heading == b.heading.turned(turn)
        &&& if is_pull(a) && cs == Cell::Air && cf.pullable() {
            cells2 == cells@.update(idx_of(cells, f), Cell::Air).update(idx_of(cells, b.pos), cf).update(
                idx_of(cells, s),
                Cell::Agent,
            ) && b2.pos == s && moved == cf
        } else if cs.walkable() {
            cells2 == cells@.update(idx_of(cells, b.pos), cs).update(idx_of(cells, s), Cell::Agent) && b2.pos
                == s && moved == cs
        } else {
            cells2 == cells@ && b2.pos == b.pos && moved == Cell::Air
        }
    }
}

proof fn lemma_index_distinct(w: int, q1: int, r1: int, q2: int, r2: int)
    by (nonlinear_arith)
    requires
        0 <= q1 < w,
        0 <= q2 < w,
        q1 != q2 || r1 != r2,
    ensures
        r1 * w + q1 != r2 * w + q2,
{
    if r1 < r2 {
        assert(r1 * w + w <= r2 * w);
    } else if r2 < r1 {
        assert(r2 * w + w <= r1 * w);
    }
}

/// The neighbour of an interior cell in direction `d` lies on the tile, and
/// two different directions lead to different cells, both other than `p`.
proof fn lemma_ahead_on_tile(cells: AxialTile<Cell>, p: Cube, d: Direction, e: Direction)
    requires
        cells.well_sized(),
        cells.interior(p.x as int, p.spec_z()),
    ensures
        0 <= ahead(p, d).x < cells.spec_width(),
        0 <= ahead(p, d).spec_z() < cells.spec_height(),
        ahead(p, d).x == p.x + d.dx(),
        ahead(p, d).spec_z() == p.spec_z() + crate::axial_tile::dz(d),
        0 <= idx_of(cells, ahead(p, d)) < cells@.len(),
        0 <= idx_of(cells, p) < cells@.len(),
        idx_of(cells, ahead(p, d)) != idx_of(cells, p),
        d != e ==> idx_of(cells, ahead(p, d)) != idx_of(cells, ahead(p, e)),
{
    let w = cells.spec_width();
    let h = cells.spec_height();
    assert(w + h <= w * h + 1) by (nonlinear_arith)
        requires
            w >= 1,
            h >= 1,
    ;
    assert(p.x + d.dx() == (p.x + d.dx()) as i32);
    assert(p.y + d.dy() == (p.y + d.dy()) as i32);
    assert(p.x + e.dx() == (p.x + e.dx()) as i32);
    assert(p.y + e.dy() == (p.y + e.dy()) as i32);
    let a = ahead(p, d);
    let b = ahead(p, e);
    crate::axial_tile::lemma_index_bound(w, h, a.x as int, a.spec_z());
    crate::axial_tile::lemma_index_bound(w, h, p.x as int, p.spec_z());
    lemma_index_distinct(w, a.x as int, a.spec_z(), p.x as int, p.spec_z());
    if d != e {
        lemma_index_distinct(w, a.x as int, a.spec_z(), b.x as int, b.spec_z());
    }
}

/// Whether the builder `b2` is `b` moved to the neighbour in direction `d`
/// or left where it stood.
pub open spec fn stays_or_steps(b: BuilderPos, b2: BuilderPos, d: Direction) -> bool {
    b2.pos == b.pos || b2.pos == ahead(b.pos, d)
}

/// How each action moves and turns a builder. Directions are numbered
/// clockwise, so one step clockwise adds 1 and one step counter-clockwise
/// adds 5, modulo 6. `Forward` keeps the heading, `ForwardLeft` turns it one
/// step counter-clockwise and `ForwardRight` one step clockwise (the mirror
/// image), and each of them stays or steps onto the neighbour in the new
/// heading. `Back` and `PullBack` keep the heading and stay or step onto the
/// neighbour behind. The other backward actions turn one step (clockwise
/// when backing to the left, counter-clockwise when backing to the right)
/// and stay or step backwards along the new heading, so that the builder
/// ends facing the place it left. `Wait` changes neither.
pub proof fn lemma_action_moves(
    cells: AxialTile<Cell>,
    b: BuilderPos,
    a: Action,
    cells2: Seq<Cell>,
    b2: BuilderPos,
    moved: Cell,
)
    requires
        action_result(cells, b, a, cells2, b2, moved),
    ensures
        a == Action::Forward ==> b2.heading == b.heading && stays_or_steps(b, b2, b.heading),
        a == Action::ForwardLeft ==> b2.heading.idx() == (b.heading.idx() + 5) % 6 && stays_or_steps(
            b,
            b2,
            b2.heading,
        ),
        a == Action::ForwardRight ==> b2.heading.idx() == (b.heading.idx() + 1) % 6 && stays_or_steps(
            b,
            b2,
            b2.heading,
        ),
        a == Action::Back || a == Action::PullBack ==> b2.heading == b.heading && stays_or_steps(
            b,
            b2,
            b.heading.opposite(),
        ),
        a == Action::BackLeft || a == Action::PullBackLeft ==> b2.heading.idx() == (b.heading.idx() + 1) % 6
            && stays_or_steps(b, b2, b2.heading.opposite()),
        a == Action::BackRight || a == Action::PullBackRight ==> b2.heading.idx() == (b.heading.idx() + 5) % 6
            && stays_or_steps(b, b2, b2.heading.opposite()),
        a == Action::Wait ==> b2.heading == b.heading && b2.pos == b.pos,
{
    crate::coords::lemma_opposite_involution(b.heading);
}

/// One action keeps the cells of the world as a multiset (it swaps two
/// cells or rotates three), and the builder ends on an agent cell, where it
/// stood or on a neighbour of it.
pub proof fn lemma_action_keeps_cells(
    cells: AxialTile<Cell>,
    b: BuilderPos,
    a: Action,
    cells2: Seq<Cell>,
    b2: BuilderPos,
    moved: Cell,
)
    requires
        cells.well_sized(),
        cells.interior(b.pos.x as int, b.pos.spec_z()),
        cells.at(b.pos.x as int, b.pos.spec_z()) == Cell::Agent,
        action_result(cells, b, a, cells2, b2, moved),
    ensures
        cells2.to_multiset() == cells@.to_multiset(),
        b2.pos == b.pos || exists|d: Direction| b2.pos == #[trigger] ahead(b.pos, d),
        cells2[idx_of(cells, b2.pos)] == Cell::Agent,
{
    broadcast use vstd::seq_lib::to_multiset_update, vstd::seq_lib::to_multiset_contains;
    broadcast use vstd::multiset::group_multiset_axioms;

    if a != Action::Wait {
        let (step, turn) = step_angles(a);
        let df = b.heading;
        let ds = b.heading.turned(step);
        let f = ahead(b.pos, df);
        let s = ahead(b.pos, ds);
        let cf = cells.at(f.x as int, f.spec_z());
        let cs = cells.at(s.x as int, s.spec_z());
        lemma_ahead_on_tile(cells, b.pos, df, ds);
        lemma_ahead_on_tile(cells, b.pos, ds, df);
        let i_p = idx_of(cells, b.pos);
        let i_f = idx_of(cells, f);
        let i_s = idx_of(cells, s);
        let s0 = cells@;
        assert(s0[i_p] == Cell::Agent);
        assert(s0[i_f] == cf);
        assert(s0[i_s] == cs);
        if is_pull(a) && cs == Cell::Air && cf.pullable() {
            assert(df != ds);
            let s1 = s0.update(i_f, Cell::Air);
            let s2 = s1.update(i_p, cf);
            let s3 = s2.update(i_s, Cell::Agent);
            assert(s1[i_p] == Cell::Agent);
            assert(s2[i_s] == Cell::Air);
            let m0 = s0.to_multiset();
            assert(s0.contains(cf) && s0.contains(Cell::Agent) && s0.contains(Cell::Air));
            assert(m0.count(cf) >= 1 && m0.count(Cell::Agent) >= 1 && m0.count(Cell::Air) >= 1);
            let m1 = m0.insert(Cell::Air).remove(cf);
            let m2 = m1.insert(cf).remove(Cell::Agent);
            let m3 = m2.insert(Cell::Agent).remove(Cell::Air);
            assert(s1.to_multiset() == m1);
            assert(s2.to_multiset() == m2);
            assert(s3.to_multiset() == m3);
            assert(m3 =~= m0);
        } else if cs.walkable() {
            let s1 = s0.update(i_p, cs);
            let s2 = s1.update(i_s, Cell::Agent);
            assert(s1[i_s] == cs);
            let m0 = s0.to_multiset();
            assert(s0.contains(cs) && s0.contains(Cell::Agent));
            assert(m0.count(cs) >= 1 && m0.count(Cell::Agent) >= 1);
            let m1 = m0.insert(cs).remove(Cell::Agent);
            let m2 = m1.insert(Cell::Agent).remove(cs);
            assert(s1.to_multiset() == m1);
            assert(s2.to_multiset() == m2);
            assert(m2 =~= m0);
        }
    }
}

/// A whole round of the builders keeps the cells of the world as a
/// multiset: where the maps `ts` follow one another, each the result of one
/// action of a builder standing on an agent cell in the interior of the map
/// before it (a builder that rests leaves the map as it is), the last map
/// holds the same cells as the first.
pub proof fn lemma_round_keeps_cells(
    ts: Seq<AxialTile<Cell>>,
    bs: Seq<BuilderPos>,
    acts: Seq<Option<Action>>,
    bs2: Seq<BuilderPos>,
    moved: Seq<Cell>,
)
    requires
        ts.len() >= 1,
        bs.len() == ts.len() - 1,
        acts.len() == ts.len() - 1,
        bs2.len() == ts.len() - 1,
        moved.len() == ts.len() - 1,
        forall|i: int|
            0 <= i < ts.len() - 1 ==> match #[trigger] acts[i] {
                Some(a) => {
                    &&& ts[i].well_sized()
                    &&& ts[i].interior(bs[i].pos.x as int, bs[i].pos.spec_z())
                    &&& ts[i].at(bs[i].pos.x as int, bs[i].pos.spec_z()) == Cell::Agent
                    &&& action_result(ts[i], bs[i], a, ts[i + 1]@, bs2[i], moved[i])
                },
                None => ts[i + 1]@ == ts[i]@,
            },
    ensures
        ts.last()@.to_multiset() == ts[0]@.to_multiset(),
    decreases ts.len(),
{
    if ts.len() > 1 {
        let n = ts.len() - 1;
        let ts2 = ts.drop_last();
        assert forall|i: int| 0 <= i < ts2.len() - 1 implies match #[trigger] acts.drop_last()[i] {
            Some(a) => {
                &&& ts2[i].well_sized()
                &&& ts2[i].interior(bs.drop_last()[i].pos.x as int, bs.drop_last()[i].pos.spec_z())
                &&& ts2[i].at(bs.drop_last()[i].pos.x as int, bs.drop_last()[i].pos.spec_z()) == Cell::Agent
                &&& action_result(ts2[i], bs.drop_last()[i], a, ts2[i + 1]@, bs2.drop_last()[i], moved.drop_last()[i])
            },
            None => ts2[i + 1]@ == ts2[i]@,
        } by {
            assert(acts.drop_last()[i] == acts[i]);
        }
        lemma_round_keeps_cells(ts2, bs.drop_last(), acts.drop_last(), bs2.drop_last(), moved.drop_last());
        let i = n - 1;
        match acts[i] {
            Some(a) => {
                lemma_action_keeps_cells(ts[i], bs[i], a, ts[i + 1]@, bs2[i], moved[i]);
            },
            None => {},
        }
    }
}

/// The cells of a world, the cells visited by builders, and the generator.
pub struct BuilderWorld {
    cells: AxialTile<Cell>,
    visited: AxialTile<bool>,
    rng: SimRng,
}

/// Nothing is visited at first.
pub struct NotVisited;

impl LocationRule<bool> for NotVisited {
    open spec fn gives(&self, loc: Location, v: bool) -> bool {
        !v
    }

    open spec fn made(&self, loc: Location, rng: SimRng) -> (bool, SimRng) {
        (false, rng)
    }

    fn make(&self, loc: Location, rng: &mut SimRng) -> (r: bool) {
        false
    }
}

/// A map of visits draws nothing from the generator.
proof fn lemma_not_visited_draws_nothing(radius: int, rng: SimRng, k: nat)
    ensures
        hexmap::map_made(&NotVisited, radius, false, rng, k).1 == rng,
    decreases k,
{
    if k > 0 {
        lemma_not_visited_draws_nothing(radius, rng, (k - 1) as nat);
    }
}

/// Number of `true` entries.
pub open spec fn count_true_cells(s: Seq<bool>) -> int
    decreases s.len(),
{
    if s.len() == 0 {
        0
    } else {
        count_true_cells(s.drop_last()) + if s.last() {
            1int
        } else {
            0
        }
    }
}

/// Food next to food: the square of the number of food neighbours of a food cell.
pub open spec fn hoard_term(nh: Neighbourhood<Cell>) -> int {
    if nh.center == Cell::Food {
        count_of(nh, Cell::Food) * count_of(nh, Cell::Food)
    } else {
        0
    }
}

/// Sum of `hoard_term` over the first `k` interior cells, row by row.
pub open spec fn hoard_upto(t: AxialTile<Cell>, k: int) -> int
    decreases k,
{
    if k <= 0 {
        0
    } else {
        let w = t.spec_width() - 2;
        hoard_upto(t, k - 1) + hoard_term(t.nh_at((k - 1) % w + 1, (k - 1) / w + 1))
    }
}

impl BuilderWorld {
    pub closed spec fn cells_spec(self) -> AxialTile<Cell> {
        self.cells
    }

    pub closed spec fn visited_spec(self) -> AxialTile<bool> {
        self.visited
    }

    pub closed spec fn rng_spec(self) -> SimRng {
        self.rng
    }

    /// What every world keeps: a map of radius `RING_RADIUS` whose cells at
    /// the edge of the storage are border, and visits of the same size.
    pub open spec fn wf(self) -> bool {
        &&& self.cells_spec().well_sized()
        &&& self.visited_spec().well_sized()
        &&& self.cells_spec().spec_width() == side(RING_RADIUS as int)
        &&& self.cells_spec().spec_height() == side(RING_RADIUS as int)
        &&& self.visited_spec().spec_width() == side(RING_RADIUS as int)
        &&& self.visited_spec().spec_height() == side(RING_RADIUS as int)
        &&& forall|q: int, r: int|
            0 <= q < self.cells_spec().spec_width() && 0 <= r < self.cells_spec().spec_height()
                && !self.cells_spec().interior(q, r) ==> #[trigger] self.cells_spec().at(q, r) == Cell::Border
    }

    /// A new world from the seed `seed` (see `worldgen::create_world`): the
    /// map scattered from a generator seeded with `seed`, then smoothed six
    /// times with its next draws; nothing visited; the generator kept where
    /// those draws left it.
    pub fn new_with_seed(seed: u64) -> (r: Self)
        ensures
            r.wf(),
            exists|t: AxialTile<Cell>|
                #[trigger] worldgen::scattered(t) && t@ == worldgen::scattered_from(crate::rng::seeded(seed), t@.len())
                    && worldgen::smoothed_times(t, r.cells_spec(), 6) && worldgen::smoothed_times_from(
                    t,
                    worldgen::scatter_rng(crate::rng::seeded(seed), t@.len()),
                    r.cells_spec(),
                    r.rng_spec(),
                    6,
                ),
            forall|i: int| 0 <= i < r.visited_spec()@.len() ==> !#[trigger] r.visited_spec()@[i],
    {
        let mut rng = seed_rng(seed);
        let cells = worldgen::create_world(&mut rng);
        proof {
            let t = choose|t: AxialTile<Cell>| #[trigger] worldgen::scattered(t) && worldgen::smoothed_times(t, cells, 6);
            lemma_smoothed_edges(t, cells, 6);
        }
        assert(hexmap::radius_ok(RING_RADIUS as int)) by (nonlinear_arith)
            requires
                RING_RADIUS == 33,
        ;
        let ghost before_visits = rng;
        let visited = hexmap::new_with(RING_RADIUS, false, &NotVisited, &mut rng);
        proof {
            lemma_not_visited_draws_nothing(RING_RADIUS as int, before_visits, visited@.len());
        }
        BuilderWorld { cells, visited, rng }
    }

    /// The cell at `pos`, if the position lies on the map's storage.
    pub fn cell(&self, pos: Cube) -> (r: Option<Cell>)
        requires
            self.wf(),
        ensures
            r == self.cells_spec().cell_spec(pos),
    {
        self.cells.cell(pos)
    }

    /// Place a builder at `pos`.
    pub fn place_agent(&mut self, pos: Cube)
        requires
            old(self).wf(),
            old(self).cells_spec().interior(pos.x as int, pos.spec_z()),
        ensures
            final(self).wf(),
            final(self).cells_spec()@ == old(self).cells_spec()@.update(
                idx_of(old(self).cells_spec(), pos),
                Cell::Agent,
            ),
            final(self).visited_spec() == old(self).visited_spec(),
    {
        let ghost before = self.cells;
        self.cells.set_cell(pos, Cell::Agent);
        proof {
            crate::axial_tile::lemma_set_cell_at(before, self.cells, pos.x as int, pos.spec_z(), Cell::Agent);
        }
    }

    /// The generator, for the decisions of the builders.
    pub fn rng(&mut self) -> (r: &mut SimRng)
        ensures
            *r == old(self).rng_spec(),
            final(self).cells_spec() == old(self).cells_spec(),
            final(self).visited_spec() == old(self).visited_spec(),
            final(self).rng_spec() == *final(r),
    {
        &mut self.rng
    }

    /// Carry out `action` of the builder `b` (see `action_result`), then mark
    /// where it stands as visited. Returns the cell it moved.
    pub fn apply_action(&mut self, b: &mut BuilderPos, action: Action) -> (moved: Cell)
        requires
            old(self).wf(),
            old(self).cells_spec().interior(old(b).pos.x as int, old(b).pos.spec_z()),
            old(b).exhausted == 0,
        ensures
            final(self).wf(),
            final(self).cells_spec().interior(final(b).pos.x as int, final(b).pos.spec_z()),
            action_result(old(self).cells_spec(), *old(b), action, final(self).cells_spec()@, *final(b), moved),
            final(self).visited_spec()@ == old(self).visited_spec()@.update(
                idx_of(old(self).cells_spec(), final(b).pos),
                true,
            ),
    {
        let ghost c0 = self.cells;
        let mut moved = Cell::Air;
        b.last_action = action;
        if action != Action::Wait {
            let (step, turn) = match action {
                Action::Forward => (Angle::Forward, Angle::Forward),
                Action::ForwardLeft => (Angle::Left, Angle::Left),
                Action::ForwardRight => (Angle::Right, Angle::Right),
                Action::Back | Action::PullBack => (Angle::Back, Angle::Forward),
                Action::BackLeft | Action::PullBackLeft => (Angle::LeftBack, Angle::Right),
                Action::BackRight | Action::PullBackRight => (Angle::RightBack, Angle::Left),
                Action::Wait => (Angle::Forward, Angle::Forward),
            };
            let pos_old = b.pos;
            proof {
                crate::axial_tile::lemma_dims(self.cells.spec_width(), self.cells.spec_height(), 0);
            }
            let pos_forward = pos_old.add_direction(b.heading);
            let pos_step = pos_old.add_direction(b.heading.add_angle(step));
            b.heading = b.heading.add_angle(turn);
            let cell_forward = self.cells.cell(pos_forward).unwrap();
            let cell_step = self.cells.cell(pos_step).unwrap();
            let pull = match action {
                Action::PullBack | Action::PullBackLeft | Action::PullBackRight => true,
                _ => false,
            };
            if pull && cell_step == Cell::Air && cell_forward.can_pull() {
                moved = cell_forward;
                let ghost s0 = self.cells;
                self.cells.set_cell(pos_forward, Cell::Air);
                let ghost s1 = self.cells;
                self.cells.set_cell(pos_old, cell_forward);
                let ghost s2 = self.cells;
                self.cells.set_cell(pos_step, Cell::Agent);
                proof {
                    crate::axial_tile::lemma_set_cell_at(s0, s1, pos_forward.x as int, pos_forward.spec_z(), Cell::Air);
                    crate::axial_tile::lemma_set_cell_at(s1, s2, pos_old.x as int, pos_old.spec_z(), cell_forward);
                    crate::axial_tile::lemma_set_cell_at(s2, self.cells, pos_step.x as int, pos_step.spec_z(), Cell::Agent);
                }
                b.pos = pos_step;
            } else if cell_step.can_walk() {
                moved = cell_step;
                let ghost s0 = self.cells;
                self.cells.set_cell(pos_old, cell_step);
                let ghost s1 = self.cells;
                self.cells.set_cell(pos_step, Cell::Agent);
                proof {
                    crate::axial_tile::lemma_set_cell_at(s0, s1, pos_old.x as int, pos_old.spec_z(), cell_step);
                    crate::axial_tile::lemma_set_cell_at(s1, self.cells, pos_step.x as int, pos_step.spec_z(), Cell::Agent);
                }
                b.pos = pos_step;
            }
        }
        b.exhausted = cost(action, moved);
        let ghost v0 = self.visited;
        self.visited.set_cell(b.pos, true);
        proof {
            crate::axial_tile::lemma_set_cell_at(v0, self.visited, b.pos.x as int, b.pos.spec_z(), true);
        }
        moved
    }
}

/// What the builders have done so far, summed over all their turns: the
/// farthest any stood from the center, the builders each met next to it
/// before acting, and the walls and borders around it after acting.
#[derive(Clone, Copy, Debug)]
pub struct BuilderStats {
    pub max_depth_reached: i32,
    pub encounters: i32,
    pub walls_nearby: i32,
}

impl BuilderStats {
    /// Nothing done yet.
    pub fn new() -> (r: Self)
        ensures
            r.max_depth_reached == 0,
            r.encounters == 0,
            r.walls_nearby == 0,
    {
        BuilderStats { max_depth_reached: 0, encounters: 0, walls_nearby: 0 }
    }
}

/// The start of a builder's turn: an exhausted builder rests (its exhaustion
/// goes down by one) and does not act. Returns whether it acts.
pub fn start_turn(b: &mut BuilderPos) -> (acts: bool)
    ensures
        acts == (old(b).exhausted == 0),
        acts ==> *final(b) == *old(b),
        !acts ==> *final(b) == (BuilderPos { exhausted: (old(b).exhausted - 1) as u8, ..*old(b) }),
{
    if b.exhausted > 0 {
        b.exhausted = b.exhausted - 1;
        false
    } else {
        true
    }
}

impl BuilderWorld {
    /// Whether `pos` is an interior cell of the map's storage (one with all
    /// six neighbours on it), where a builder can act.
    pub fn is_interior(&self, pos: Cube) -> (r: bool)
        requires
            self.wf(),
        ensures
            r == self.cells_spec().interior(pos.x as int, pos.spec_z()),
    {
        self.cells.neighbourhood(pos).is_some()
    }

    /// Number of builders (agent cells) next to the interior cell `pos`.
    pub fn agents_around(&self, pos: Cube) -> (r: i32)
        requires
            self.wf(),
            self.cells_spec().interior(pos.x as int, pos.spec_z()),
        ensures
            r == count_of(self.cells_spec().nh_at(pos.x as int, pos.spec_z()), Cell::Agent),
            0 <= r <= 6,
    {
        match self.cells.neighbourhood(pos) {
            Some(nh) => {
                proof {
                    self.cells.lemma_nh_unique(pos.x as int, pos.spec_z(), nh);
                }
                worldgen::count_neighbours_equal(&nh, Cell::Agent)
            },
            None => 0,
        }
    }

    /// The end of a builder's turn, after it met `met` builders and then
    /// acted to stand at the interior cell `pos`: the meetings are added, the
    /// walls and borders around `pos` are added, and the farthest distance
    /// from the center grows to that of `pos` where it is larger.
    pub fn record_turn(&self, stats: &mut BuilderStats, met: i32, pos: Cube)
        requires
            self.wf(),
            self.cells_spec().interior(pos.x as int, pos.spec_z()),
            0 <= met,
            old(stats).encounters + met <= i32::MAX,
            old(stats).walls_nearby + 6 <= i32::MAX,
        ensures
            final(stats).encounters == old(stats).encounters + met,
            final(stats).walls_nearby == old(stats).walls_nearby + {
                let nh = self.cells_spec().nh_at(pos.x as int, pos.spec_z());
                count_of(nh, Cell::Wall) + count_of(nh, Cell::Border)
            },
            final(stats).max_depth_reached == if old(stats).max_depth_reached < hexmap::center_spec(
                RING_RADIUS as int,
            ).spec_distance(pos) {
                hexmap::center_spec(RING_RADIUS as int).spec_distance(pos)
            } else {
                old(stats).max_depth_reached as int
            },
    {
        let walls = self.walls_around(pos);
        proof {
            let nh = self.cells_spec().nh_at(pos.x as int, pos.spec_z());
            assert(0 <= count_of(nh, Cell::Wall) + count_of(nh, Cell::Border) <= 6);
        }
        assert(hexmap::radius_ok(RING_RADIUS as int)) by (nonlinear_arith)
            requires
                RING_RADIUS == 33,
        ;
        let center = hexmap::center(RING_RADIUS);
        let depth = center.distance(pos);
        stats.encounters = stats.encounters + met;
        stats.walls_nearby = stats.walls_nearby + walls;
        if stats.max_depth_reached < depth {
            stats.max_depth_reached = depth;
        }
    }
}

impl BuilderWorld {
    /// Number of visited cells.
    pub fn visited_count(&self) -> (r: i32)
        requires
            self.wf(),
        ensures
            r == count_true_cells(self.visited_spec()@),
    {
        let cells = self.visited.iter_cells();
        let mut n: i32 = 0;
        let mut i: usize = 0;
        while i < cells.len()
            invariant
                cells@ == self.visited@,
                self.visited.well_sized(),
                0 <= i <= cells@.len(),
                n == count_true_cells(cells@.subrange(0, i as int)),
                0 <= n <= i,
            decreases cells@.len() - i,
        {
            proof {
                assert(cells@.subrange(0, i as int + 1).drop_last() =~= cells@.subrange(0, i as int));
            }
            if cells[i] {
                n = n + 1;
            }
            i = i + 1;
        }
        proof {
            assert(cells@.subrange(0, cells@.len() as int) =~= cells@);
        }
        n
    }

    /// Number of cells of the map's storage.
    pub fn area(&self) -> (r: i32)
        requires
            self.wf(),
        ensures
            r == self.cells_spec()@.len(),
    {
        self.cells.area()
    }

    /// Number of edges between walls and other cells.
    pub fn wall_edges(&self) -> (r: i32)
        requires
            self.wf(),
        ensures
            r == self.cells_spec().edge_count(|c: Cell| crate::axial_tile::pred_of(is_wall, c)),
    {
        proof {
            assert(self.cells@.len() == 69 * 69) by (nonlinear_arith)
                requires
                    self.cells@.len() == self.cells.spec_height() * self.cells.spec_width(),
                    self.cells.spec_height() == 69,
                    self.cells.spec_width() == 69,
            ;
        }
        self.cells.count_edges(is_wall)
    }

    /// Number of walls and borders around the interior cell `pos` (0 elsewhere).
    pub fn walls_around(&self, pos: Cube) -> (r: i32)
        requires
            self.wf(),
        ensures
            r == (if self.cells_spec().interior(pos.x as int, pos.spec_z()) {
                let nh = self.cells_spec().nh_at(pos.x as int, pos.spec_z());
                count_of(nh, Cell::Wall) + count_of(nh, Cell::Border)
            } else {
                0
            }),
    {
        match self.cells.neighbourhood(pos) {
            Some(nh) => {
                proof {
                    self.cells.lemma_nh_unique(pos.x as int, pos.spec_z(), nh);
                }
                let mut n: i32 = 0;
                let mut i: usize = 0;
                while i < 6
                    invariant
                        0 <= i <= 6,
                        n == (if i > 0 && (nh.neighbours@[0] == Cell::Wall || nh.neighbours@[0] == Cell::Border) {
                            1int
                        } else {
                            0
                        }) + (if i > 1 && (nh.neighbours@[1] == Cell::Wall || nh.neighbours@[1] == Cell::Border) {
                            1int
                        } else {
                            0
                        }) + (if i > 2 && (nh.neighbours@[2] == Cell::Wall || nh.neighbours@[2] == Cell::Border) {
                            1int
                        } else {
                            0
                        }) + (if i > 3 && (nh.neighbours@[3] == Cell::Wall || nh.neighbours@[3] == Cell::Border) {
                            1int
                        } else {
                            0
                        }) + (if i > 4 && (nh.neighbours@[4] == Cell::Wall || nh.neighbours@[4] == Cell::Border) {
                            1int
                        } else {
                            0
                        }) + (if i > 5 && (nh.neighbours@[5] == Cell::Wall || nh.neighbours@[5] == Cell::Border) {
                            1int
                        } else {
                            0
                        }),
                    decreases 6 - i,
                {
                    let c = nh.neighbours[i];
                    if c == Cell::Wall || c == Cell::Border {
                        n = n + 1;
                    }
                    i = i + 1;
                }
                n
            },
            None => 0,
        }
    }

    /// Sum, over the interior food cells, of the square of their food
    /// neighbours: how much food lies in heaps.
    pub fn hoarding_score(&self) -> (r: i32)
        requires
            self.wf(),
        ensures
            r == hoard_upto(self.cells_spec(), 4489),
    {
        let nhs = self.cells.iter_valid_neighbourhoods();
        let ghost t = self.cells;
        assert(nhs@.len() == 67 * 67);
        let mut count: i32 = 0;
        let mut i: usize = 0;
        while i < nhs.len()
            invariant
                t == self.cells,
                t.spec_width() == 69,
                t.spec_height() == 69,
                t.well_sized(),
                nhs@.len() == 67 * 67,
                forall|rr: int, qq: int|
                    1 <= rr < 68 && 1 <= qq < 68 ==> t.is_neighbourhood(qq, rr, #[trigger] nhs@[(rr - 1) * 67 + (qq - 1)]),
                0 <= i <= nhs@.len(),
                count == hoard_upto(t, i as int),
                0 <= count <= 36 * i,
            decreases nhs@.len() - i,
        {
            let nh = nhs[i];
            proof {
                let qq = i as int % 67 + 1;
                let rr = i as int / 67 + 1;
                assert((rr - 1) * 67 + (qq - 1) == i) by (nonlinear_arith)
                    requires
                        qq == i as int % 67 + 1,
                        rr == i as int / 67 + 1,
                ;
                assert(1 <= rr < 68 && 1 <= qq < 68);
                t.lemma_nh_unique(qq, rr, nh);
            }
            if nh.center == Cell::Food {
                let foods = worldgen_count_food(&nh);
                assert(0 <= foods * foods <= 36) by (nonlinear_arith)
                    requires
                        0 <= foods <= 6,
                ;
                count = count + foods * foods;
            }
            i = i + 1;
        }
        count
    }

    /// How the position `pos` is rendered, with the builders `builders`: a
    /// builder as type 0 with its heading; otherwise air 2, wall 4, agent 0,
    /// food 1; `None` off the map and on its border.
    pub fn cell_view(&self, builders: &[BuilderPos], pos: Cube) -> (r: Option<CellView>)
        requires
            self.wf(),
        ensures
            (exists|k: int| 0 <= k < builders@.len() && (#[trigger] builders@[k]).pos == pos) ==> (r matches Some(
                v,
            ) && v.cell_type == 0 && exists|k: int|
                0 <= k < builders@.len() && (#[trigger] builders@[k]).pos == pos && v.direction == Some(
                    builders@[k].heading,
                )),
            !(exists|k: int| 0 <= k < builders@.len() && (#[trigger] builders@[k]).pos == pos) ==> match self.cells_spec().cell_spec(pos) {
                None => r is None,
                Some(c) => if c == Cell::Border {
                    r is None
                } else {
                    r matches Some(v) && v.direction is None && v.energy is None && v.cell_type == (match c {
                        Cell::Air => 2u8,
                        Cell::Wall => 4u8,
                        Cell::Food => 1u8,
                        _ => 0u8,
                    })
                },
            },
    {
        let mut k: usize = 0;
        while k < builders.len()
            invariant
                0 <= k <= builders@.len(),
                forall|j: int| 0 <= j < k ==> (#[trigger] builders@[j]).pos != pos,
            decreases builders@.len() - k,
        {
            let t = builders[k];
            if t.pos.x == pos.x && t.pos.y == pos.y {
                return Some(CellView { cell_type: 0, direction: Some(t.heading), energy: None });
            }
            k = k + 1;
        }
        let cell = match self.cells.cell(pos) {
            Some(c) => c,
            None => return None,
        };
        let cell_type: u8 = match cell {
            Cell::Border => return None,
            Cell::Air => 2,
            Cell::Wall => 4,
            Cell::Agent => 0,
            Cell::Food => 1,
        };
        Some(CellView { cell_type, direction: None, energy: None })
    }
}

/// Whether a cell is a wall.
pub fn is_wall(c: Cell) -> (r: bool)
    ensures
        r == (c == Cell::Wall),
{
    c == Cell::Wall
}

fn worldgen_count_food(nh: &Neighbourhood<Cell>) -> (r: i32)
    ensures
        r == count_of(*nh, Cell::Food),
        0 <= r <= 6,
{
    let mut n: i32 = 0;
    let mut i: usize = 0;
    while i < 6
        invariant
            0 <= i <= 6,
            0 <= n <= i,
            n == (if i > 0 && nh.neighbours@[0] == Cell::Food { 1int } else { 0 }) + (if i > 1
                && nh.neighbours@[1] == Cell::Food {
                1int
            } else {
                0
            }) + (if i > 2 && nh.neighbours@[2] == Cell::Food { 1int } else { 0 }) + (if i > 3
                && nh.neighbours@[3] == Cell::Food {
                1int
            } else {
                0
            }) + (if i > 4 && nh.neighbours@[4] == Cell::Food { 1int } else { 0 }) + (if i > 5
                && nh.neighbours@[5] == Cell::Food {
                1int
            } else {
                0
            }),
        decreases 6 - i,
    {
        if nh.neighbours[i] == Cell::Food {
            n = n + 1;
        }
        i = i + 1;
    }
    n
}

/// The edge of the storage is border after smoothing.
proof fn lemma_smoothed_edges(t: AxialTile<Cell>, r: AxialTile<Cell>, k: nat)
    requires
        worldgen::scattered(t),
        worldgen::smoothed_times(t, r, k),
        k > 0,
    ensures
        r.well_sized(),
        r.spec_width() == side(RING_RADIUS as int),
        r.spec_height() == side(RING_RADIUS as int),
        forall|q: int, rr: int|
            0 <= q < r.spec_width() && 0 <= rr < r.spec_height() && !r.interior(q, rr) ==> #[trigger] r.at(q, rr)
                == Cell::Border,
    decreases k,
{
    let mid = choose|mid: AxialTile<Cell>| worldgen::smoothed_times(t, mid, (k - 1) as nat) && #[trigger] worldgen::smoothed(mid, r);
    if k > 1 {
        lemma_smoothed_edges(t, mid, (k - 1) as nat);
    } else {
        assert(mid == t);
    }
}


impl BuilderWorld {
    /// The cells, the visits and the generator (to save the state).
    pub fn parts(&self) -> (r: (&AxialTile<Cell>, &AxialTile<bool>, &SimRng))
        ensures
            *r.0 == self.cells_spec(),
            *r.1 == self.visited_spec(),
            *r.2 == self.rng_spec(),
    {
        (&self.cells, &self.visited, &self.rng)
    }

    /// A world from saved parts; `None` where the sizes are not those of a
    /// map of radius `RING_RADIUS` or a cell at the edge of the storage is
    /// not border.
    pub fn from_parts(cells: AxialTile<Cell>, visited: AxialTile<bool>, rng: SimRng) -> (r: Option<Self>)
        requires
            cells.well_sized(),
            visited.well_sized(),
        ensures
            r matches Some(w) ==> w.wf() && w.cells_spec() == cells && w.visited_spec() == visited
                && w.rng_spec() == rng,
            r is None ==> !(cells.spec_width() == side(RING_RADIUS as int) && cells.spec_height() == side(
                RING_RADIUS as int,
            ) && visited.spec_width() == side(RING_RADIUS as int) && visited.spec_height() == side(
                RING_RADIUS as int,
            ) && forall|q: int, rr: int|
                0 <= q < cells.spec_width() && 0 <= rr < cells.spec_height() && !cells.interior(q, rr)
                    ==> #[trigger] cells.at(q, rr) == Cell::Border),
    {
        let side: i32 = 69;
        if cells.width() != side || cells.height() != side || visited.width() != side || visited.height()
            != side {
            return None;
        }
        let mut rr: i32 = 0;
        while rr < side
            invariant
                cells.well_sized(),
                cells.spec_width() == 69,
                cells.spec_height() == 69,
                side == 69,
                0 <= rr <= 69,
                forall|q: int, r2: int|
                    0 <= q < 69 && 0 <= r2 < rr && !cells.interior(q, r2) ==> #[trigger] cells.at(q, r2)
                        == Cell::Border,
            decreases 69 - rr,
        {
            let mut q: i32 = 0;
            while q < side
                invariant
                    cells.well_sized(),
                    cells.spec_width() == 69,
                    cells.spec_height() == 69,
                    side == 69,
                    0 <= rr < 69,
                    0 <= q <= 69,
                    forall|q2: int, r2: int|
                        0 <= q2 < 69 && 0 <= r2 < rr && !cells.interior(q2, r2) ==> #[trigger] cells.at(q2, r2)
                            == Cell::Border,
                    forall|q2: int| 0 <= q2 < q && !cells.interior(q2, rr as int) ==> #[trigger] cells.at(q2, rr as int)
                        == Cell::Border,
                decreases 69 - q,
            {
                let interior = 1 <= q && q < side - 1 && 1 <= rr && rr < side - 1;
                if !interior {
                    match cells.cell(Cube { x: q, y: -q - rr }) {
                        Some(c) => {
                            if c != Cell::Border {
                                return None;
                            }
                        },
                        None => {
                            return None;
                        },
                    }
                }
                q = q + 1;
            }
            rr = rr + 1;
        }
        Some(BuilderWorld { cells, visited, rng })
    }
}

/// A saved state is always accepted back: the parts of every well-formed
/// world pass the checks of `BuilderWorld::from_parts`, so restoring them
/// gives the same world.
pub proof fn lemma_saved_parts_restore(w: BuilderWorld)
    requires
        w.wf(),
    ensures
        w.cells_spec().spec_width() == side(RING_RADIUS as int),
        w.cells_spec().spec_height() == side(RING_RADIUS as int),
        w.visited_spec().spec_width() == side(RING_RADIUS as int),
        w.visited_spec().spec_height() == side(RING_RADIUS as int),
        forall|q: int, rr: int|
            0 <= q < w.cells_spec().spec_width() && 0 <= rr < w.cells_spec().spec_height() && !w.cells_spec().interior(
                q,
                rr,
            ) ==> #[trigger] w.cells_spec().at(q, rr) == Cell::Border,
{
}

} // verus!
