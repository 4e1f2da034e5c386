//! The world of the builders: rings of walls around a clear center, food
//! scattered outside it, then smoothed by a few random steps.
use vstd::prelude::*;

use super::wall_sim::Cell;
use crate::axial_tile::{AxialTile, RandomCellRule};
use crate::coords::{Cube, Neighbourhood};
use crate::hexmap::{self, radius_ok, side, Location, LocationRule};
use crate::rng::{random_ratio, ratio_draw, SimRng};

verus! {

/// Radius of the map.
pub const RING_RADIUS: i32 = 33;

/// How the world is scattered: no walls within distance 10 of the center,
/// beyond that walls on every fourth ring with a chance of nine in ten and
/// one in two elsewhere; food (one time in twenty) beyond distance 5; air
/// elsewhere.
pub struct Scatter;

/// The chance of a wall on every fourth ring is the 32-bit float nearest to
/// 0.9, which is exactly `WALL_NUMERATOR / WALL_DENOMINATOR` (= 0.8999999761...).
pub const WALL_NUMERATOR: u32 = 15099494;

/// See `WALL_NUMERATOR`: 2 to the 24th.
pub const WALL_DENOMINATOR: u32 = 16777216;

/// The cells that the scattering may give at distance `dist` from the center.
pub open spec fn scattered_cell(dist: int, c: Cell) -> bool {
    if dist < 10 {
        if dist <= 5 {
            c == Cell::Air
        } else {
            c == Cell::Air || c == Cell::Food
        }
    } else {
        c == Cell::Wall || c == Cell::Air || c == Cell::Food
    }
}

impl LocationRule<Cell> for Scatter {
    open spec fn gives(&self, loc: Location, c: Cell) -> bool {
        scattered_cell(loc.offset().spec_distance(Cube { x: 0, y: 0 }), c)
    }

    open spec fn made(&self, loc: Location, rng: SimRng) -> (Cell, SimRng) {
        let c = loc.offset().spec_distance(Cube { x: 0, y: 0 });
        let w = if c < 10 {
            ratio_draw(rng, 0, 1)
        } else if c % 4 == 0 {
            ratio_draw(rng, WALL_NUMERATOR, WALL_DENOMINATOR)
        } else {
            ratio_draw(rng, 1, 2)
        };
        if w.0 {
            (Cell::Wall, w.1)
        } else if c > 5 {
            let f = ratio_draw(w.1, 1, 20);
            (if f.0 { Cell::Food } else { Cell::Air }, f.1)
        } else {
            (Cell::Air, w.1)
        }
    }

    fn make(&self, loc: Location, rng: &mut SimRng) -> (r: Cell) {
        let c = loc.dist_from_center();
        let (num, den): (u32, u32) = if c < 10 {
            (0, 1)
        } else if c % 4 == 0 {
            (WALL_NUMERATOR, WALL_DENOMINATOR)
        } else {
            (1, 2)
        };
        if random_ratio(rng, num, den) {
            return Cell::Wall;
        }
        if c > 5 && random_ratio(rng, 1, 20) {
            Cell::Food
        } else {
            Cell::Air
        }
    }
}

/// Number of neighbours equal to `c`.
pub open spec fn count_of(nh: Neighbourhood<Cell>, c: Cell) -> int {
    (if nh.neighbours@[0] == c { 1int } else { 0 }) + (if nh.neighbours@[1] == c { 1int } else { 0 })
        + (if nh.neighbours@[2] == c { 1int } else { 0 }) + (if nh.neighbours@[3] == c { 1int } else { 0 })
        + (if nh.neighbours@[4] == c { 1int } else { 0 }) + (if nh.neighbours@[5] == c { 1int } else { 0 })
}

pub(crate) fn count_neighbours_equal(nh: &Neighbourhood<Cell>, c: Cell) -> (r: i32)
    ensures
        r == count_of(*nh, c),
{
    let mut n: i32 = 0;
    let mut i: usize = 0;
    while i < 6
        invariant
            0 <= i <= 6,
            n == (if i > 0 && nh.neighbours@[0] == c { 1int } else { 0 }) + (if i > 1 && nh.neighbours@[1]
                == c {
                1int
            } else {
                0
            }) + (if i > 2 && nh.neighbours@[2] == c { 1int } else { 0 }) + (if i > 3 && nh.neighbours@[3]
                == c {
                1int
            } else {
                0
            }) + (if i > 4 && nh.neighbours@[4] == c { 1int } else { 0 }) + (if i > 5 && nh.neighbours@[5]
                == c {
                1int
            } else {
                0
            }),
        decreases 6 - i,
    {
        if nh.neighbours[i] == c {
            n = n + 1;
        }
        i = i + 1;
    }
    n
}

/// One smoothing step of a cell: food next to food disappears; air next to
/// walls may become wall; everything else stays.
pub open spec fn smoothing_gives(nh: Neighbourhood<Cell>, out: Cell) -> bool {
    match nh.center {
        Cell::Food => out == (if count_of(nh, Cell::Food) > 0 {
            Cell::Air
        } else {
            Cell::Food
        }),
        Cell::Air => if count_of(nh, Cell::Wall) > 0 {
            out == Cell::Wall || out == Cell::Air
        } else {
            out == Cell::Air
        },
        c => out == c,
    }
}

/// The smoothing, as a rule of a cellular automaton.
pub struct Smoothing;

impl RandomCellRule<Cell, Cell> for Smoothing {
    open spec fn applicable(&self, nh: Neighbourhood<Cell>) -> bool {
        true
    }

    open spec fn gives(&self, nh: Neighbourhood<Cell>, d: Cell) -> bool {
        smoothing_gives(nh, d)
    }


    open spec fn drawn(&self, nh: Neighbourhood<Cell>, rng: SimRng) -> (Cell, SimRng) {
        match nh.center {
            Cell::Food => (if count_of(nh, Cell::Food) > 0 {
                Cell::Air
            } else {
                Cell::Food
            }, rng),
            Cell::Air => if count_of(nh, Cell::Wall) > 0 {
                let a = ratio_draw(rng, 1, 20);
                if a.0 {
                    (Cell::Wall, a.1)
                } else if count_of(nh, Cell::Wall) == 1 {
                    let b = ratio_draw(a.1, 1, 10);
                    (if b.0 {
                        Cell::Wall
                    } else {
                        Cell::Air
                    }, b.1)
                } else {
                    (Cell::Air, a.1)
                }
            } else {
                (Cell::Air, rng)
            },
            c => (c, rng),
        }
    }

    fn apply(&self, nh: Neighbourhood<Cell>, rng: &mut SimRng) -> (r: Cell) {
        let walls = count_neighbours_equal(&nh, Cell::Wall);
        let foods = count_neighbours_equal(&nh, Cell::Food);
        match nh.center {
            Cell::Food => {
                if foods > 0 {
                    return Cell::Air;
                }
            },
            Cell::Air => {
                if walls > 0 {
                    if random_ratio(rng, 1, 20) {
                        return Cell::Wall;
                    } else if walls == 1 {
                        if random_ratio(rng, 1, 10) {
                            return Cell::Wall;
                        }
                    }
                }
            },
            _ => {},
        }
        nh.center
    }
}

/// Whether `b` is one smoothing step of `a` (the cells at the edge of the
/// storage become border).
pub open spec fn smoothed(a: AxialTile<Cell>, b: AxialTile<Cell>) -> bool {
    &&& b.well_sized()
    &&& b.spec_width() == a.spec_width()
    &&& b.spec_height() == a.spec_height()
    &&& forall|q: int, rr: int| a.interior(q, rr) ==> smoothing_gives(a.nh_at(q, rr), #[trigger] b.at(q, rr))
    &&& forall|q: int, rr: int|
        0 <= q < a.spec_width() && 0 <= rr < a.spec_height() && !a.interior(q, rr) ==> #[trigger] b.at(q, rr)
            == Cell::Border
}

/// Whether `b` is `k` smoothing steps of `a`.
pub open spec fn smoothed_times(a: AxialTile<Cell>, b: AxialTile<Cell>, k: nat) -> bool
    decreases k,
{
    if k == 0 {
        a == b
    } else {
        exists|mid: AxialTile<Cell>| smoothed_times(a, mid, (k - 1) as nat) && #[trigger] smoothed(mid, b)
    }
}

/// Whether `t` is a scattered map of radius `RING_RADIUS`.
pub open spec fn scattered(t: AxialTile<Cell>) -> bool {
    &&& t.well_sized()
    &&& t.spec_width() == side(RING_RADIUS as int)
    &&& t.spec_height() == side(RING_RADIUS as int)
    &&& forall|i: int|
        0 <= i < t@.len() ==> {
            let loc = hexmap::location_at(
                RING_RADIUS as int,
                crate::axial_tile::pos_of_index(side(RING_RADIUS as int), i),
            );
            if loc.offset().spec_distance(Cube { x: 0, y: 0 }) > RING_RADIUS {
                #[trigger] t@[i] == Cell::Border
            } else {
                Scatter.gives(loc, t@[i])
            }
        }
}

/// The first `k` cells (in storage order) that `Scatter` makes for a map of
/// radius `RING_RADIUS` from the generator in state `rng`.
pub open spec fn scattered_from(rng: SimRng, k: nat) -> Seq<Cell> {
    hexmap::map_made(&Scatter, RING_RADIUS as int, Cell::Border, rng, k).0
}

/// The state of the generator, from state `rng`, after `Scatter` made the
/// first `k` cells.
pub open spec fn scatter_rng(rng: SimRng, k: nat) -> SimRng {
    hexmap::map_made(&Scatter, RING_RADIUS as int, Cell::Border, rng, k).1
}

/// Whether `b`, with the generator left in state `rng2`, is the smoothing
/// step of `a` from the generator in state `rng`: each interior cell as
/// `Smoothing` draws it, visiting the cells row by row; the edge border.
pub open spec fn smoothed_from(a: AxialTile<Cell>, rng: SimRng, b: AxialTile<Cell>, rng2: SimRng) -> bool {
    &&& smoothed(a, b)
    &&& forall|q: int, rr: int|
        a.interior(q, rr) ==> #[trigger] b.at(q, rr) == Smoothing.drawn(
            a.nh_at(q, rr),
            a.rng_before(&Smoothing, rng, q, rr),
        ).0
    &&& rng2 == a.rng_before(&Smoothing, rng, 1, a.spec_height() - 1)
}

/// Whether `b`, with the generator left in state `rng2`, is `k` smoothing
/// steps of `a` from the generator in state `rng`.
pub open spec fn smoothed_times_from(a: AxialTile<Cell>, rng: SimRng, b: AxialTile<Cell>, rng2: SimRng, k: nat) -> bool
    decreases k,
{
    if k == 0 {
        a == b && rng == rng2
    } else {
        exists|mid: AxialTile<Cell>, r1: SimRng|
            smoothed_times_from(a, rng, mid, r1, (k - 1) as nat) && #[trigger] smoothed_from(mid, r1, b, rng2)
    }
}

/// A new world: a map of radius `RING_RADIUS` scattered from the generator
/// as it is on entry (`scattered_from`), then smoothed six times with the
/// generator's next draws (`smoothed_times_from`).
pub fn create_world(rng: &mut SimRng) -> (r: AxialTile<Cell>)
    ensures
        r.well_sized(),
        r.spec_width() == side(RING_RADIUS as int),
        r.spec_height() == side(RING_RADIUS as int),
        exists|t: AxialTile<Cell>|
            #[trigger] scattered(t) && t@ == scattered_from(*old(rng), t@.len()) && smoothed_times(t, r, 6)
                && smoothed_times_from(t, scatter_rng(*old(rng), t@.len()), r, *final(rng), 6),
{
    assert(radius_ok(RING_RADIUS as int)) by (nonlinear_arith)
        requires
            RING_RADIUS == 33,
    ;
    let mut cells = hexmap::new_with(RING_RADIUS, Cell::Border, &Scatter, rng);
    let ghost start = cells;
    assert(scattered(start));
    assert(start@ == scattered_from(*old(rng), start@.len()));
    let ghost after_scatter = *rng;
    assert(after_scatter == scatter_rng(*old(rng), start@.len()));
    assert(smoothed_times_from(start, after_scatter, cells, *rng, 0));
    assert(smoothed_times(start, cells, 0));
    let mut k: usize = 0;
    while k < 6
        invariant
            0 <= k <= 6,
            scattered(start),
            cells.well_sized(),
            cells.spec_width() == side(RING_RADIUS as int),
            cells.spec_height() == side(RING_RADIUS as int),
            smoothed_times(start, cells, k as nat),
            smoothed_times_from(start, after_scatter, cells, *rng, k as nat),
        decreases 6 - k,
    {
        let ghost before = *rng;
        let next = cells.ca_step_random(Cell::Border, &Smoothing, rng);
        assert(smoothed(cells, next));
        assert(smoothed_times(start, next, (k + 1) as nat));
        assert(smoothed_from(cells, before, next, *rng));
        assert(smoothed_times_from(start, after_scatter, next, *rng, (k + 1) as nat));
        cells = next;
        k = k + 1;
    }
    cells
}

} // verus!
