//! Pairs: every cell is frozen, or the source or target of a pair with a
//! neighbour; cells whose pairing is not matched freeze.
use vstd::prelude::*;

use crate::axial_tile::{AxialTile, CellRule, RandomCellRule};
use crate::coords::{Cube, Direction, Neighbourhood};
use crate::hexgrid_view::{CellView, HexgridView};
use crate::hexmap::{self, radius_ok, Location, LocationRule};
use crate::rng::{below_u8_draw, fresh_rng, random_u8, random_u8_below, seed_rng, u8_draw, SimRng};

verus! {

/// Radius of the map.
pub const RADIUS: i32 = 27;

/// The state of a cell.
#[derive(Clone, Copy, Debug, PartialEq, Eq, Structural)]
pub enum Resolution {
    Frozen,
    /// The cell is the source of a pair with the neighbour in this direction.
    Source(Direction),
    /// The cell is the target of a pair with the neighbour in this direction.
    Target(Direction),
}

/// The parameters of the initial pattern.
#[derive(Clone, Copy, Debug)]
pub struct Params {
    pub p0: u8,
    pub p1: u8,
    pub p2: u8,
    pub count0: u8,
    pub count1: u8,
}

/// A value of a neighbour, 128 where there is none.
pub open spec fn or128(v: Option<u8>) -> int {
    match v {
        Some(x) => x as int,
        None => 128,
    }
}

/// Sum of the values of the neighbours (128 for each missing one).
pub open spec fn neighbour_sum(nh: Neighbourhood<Option<u8>>) -> int {
    or128(nh.neighbours@[0]) + or128(nh.neighbours@[1]) + or128(nh.neighbours@[2]) + or128(nh.neighbours@[3])
        + or128(nh.neighbours@[4]) + or128(nh.neighbours@[5])
}

fn neighbour_sum_exec(nh: &Neighbourhood<Option<u8>>) -> (r: i16)
    ensures
        r == neighbour_sum(*nh),
        0 <= r <= 6 * 255,
{
    let mut sum: i16 = 0;
    let mut i: usize = 0;
    while i < 6
        invariant
            0 <= i <= 6,
            0 <= sum <= 255 * i,
            sum == (if i > 0 { or128(nh.neighbours@[0]) } else { 0 }) + (if i > 1 {
                or128(nh.neighbours@[1])
            } else {
                0
            }) + (if i > 2 { or128(nh.neighbours@[2]) } else { 0 }) + (if i > 3 {
                or128(nh.neighbours@[3])
            } else {
                0
            }) + (if i > 4 { or128(nh.neighbours@[4]) } else { 0 }) + (if i > 5 {
                or128(nh.neighbours@[5])
            } else {
                0
            }),
        decreases 6 - i,
    {
        let v: i16 = match nh.neighbours[i] {
            Some(x) => x as i16,
            None => 128,
        };
        sum = sum + v;
        i = i + 1;
    }
    sum
}

/// The first smoothing of the random initial values: a cell much brighter
/// than its neighbours (by the threshold `p0`) becomes 250.
pub open spec fn smoothed(p0: u8, nh: Neighbourhood<Option<u8>>) -> Option<u8> {
    match nh.center {
        None => None,
        Some(c) => if neighbour_sum(nh) - c * 6 < p0 * 4 {
            Some(250u8)
        } else {
            Some(c)
        },
    }
}

/// The first smoothing, as a rule of a cellular automaton.
pub struct Smoothing {
    pub p0: u8,
}

impl CellRule<Option<u8>, Option<u8>> for Smoothing {
    open spec fn applicable(&self, nh: Neighbourhood<Option<u8>>) -> bool {
        true
    }

    open spec fn gives(&self, nh: Neighbourhood<Option<u8>>, d: Option<u8>) -> bool {
        d == smoothed(self.p0, nh)
    }

    fn apply(&self, nh: Neighbourhood<Option<u8>>) -> (r: Option<u8>) {
        match nh.center {
            None => None,
            Some(c) => {
                let sum = neighbour_sum_exec(&nh);
                if sum - c as i16 * 6 < self.p0 as i16 * 4 {
                    Some(250)
                } else {
                    Some(c)
                }
            },
        }
    }
}

/// The state that the second pass gives a cell for the random draw `dice`
/// (from `0..=11`): for a draw up to 6 it pairs with the neighbour in the
/// direction the draw names, where the thresholds `p1` and `p2` allow;
/// otherwise it is frozen. A missing center with a draw up to 6 stays missing.
pub open spec fn resolved(params: Params, nh: Neighbourhood<Option<u8>>, dice: int) -> Option<Resolution> {
    if dice <= 6 {
        let dir = Direction::from_idx(dice);
        match nh.center {
            None => None,
            Some(c) => Some(
                if neighbour_sum(nh) - c * 6 > (params.p1 - 128) * 8 {
                    if neighbour_sum(nh) - (or128(nh.neighbours@[dir.idx()]) * 6) / 8 < params.p2 + 1000 {
                        Resolution::Source(dir)
                    } else {
                        Resolution::Target(dir)
                    }
                } else {
                    Resolution::Frozen
                },
            ),
        }
    } else {
        Some(Resolution::Frozen)
    }
}

/// The second pass, as a rule of a cellular automaton.
pub struct Pairing {
    pub params: Params,
}

impl RandomCellRule<Option<u8>, Option<Resolution>> for Pairing {

    /// The resolution for the dice drawn from `0..12`.
    open spec fn drawn(&self, nh: Neighbourhood<Option<u8>>, rng: SimRng) -> (Option<Resolution>, SimRng) {
        (resolved(self.params, nh, below_u8_draw(rng, 12).0 as int), below_u8_draw(rng, 12).1)
    }

    open spec fn applicable(&self, nh: Neighbourhood<Option<u8>>) -> bool {
        true
    }

    open spec fn gives(&self, nh: Neighbourhood<Option<u8>>, d: Option<Resolution>) -> bool {
        exists|dice: int| 0 <= dice <= 11 && d == #[trigger] resolved(self.params, nh, dice)
    }

    fn apply(&self, nh: Neighbourhood<Option<u8>>, rng: &mut SimRng) -> (r: Option<Resolution>) {
        let sum = neighbour_sum_exec(&nh);
        let dice = random_u8_below(rng, 12);
        let r = if dice <= 6 {
            let dir = Direction::from_int(dice as i32);
            match nh.center {
                None => None,
                Some(c) => Some(
                    if sum - c as i16 * 6 > (self.params.p1 as i16 - 128) * 8 {
                        let n: i16 = match nh.neighbours[dir.index()] {
                            Some(x) => x as i16,
                            None => 128,
                        };
                        if sum - (n * 6) / 8 < self.params.p2 as i16 + 1000 {
                            Resolution::Source(dir)
                        } else {
                            Resolution::Target(dir)
                        }
                    } else {
                        Resolution::Frozen
                    },
                ),
            }
        } else {
            Some(Resolution::Frozen)
        };
        assert(r == resolved(self.params, nh, dice as int));
        r
    }
}

/// Whether the center state `center` agrees with the neighbour state `neigh`
/// in direction `dir`: a frozen cell agrees with everything; a cell paired
/// towards `dir` needs the neighbour paired back to it with the other role;
/// a cell paired elsewhere needs no source-source or target-target clash.
pub open spec fn agrees(center: Resolution, neigh: Resolution, dir: Direction) -> bool {
    match (center, neigh) {
        (Resolution::Frozen, _) => true,
        (Resolution::Source(d1), Resolution::Target(d2)) => d1 != dir || d2 == d1.opposite(),
        (Resolution::Target(d1), Resolution::Source(d2)) => d1 != dir || d2 == d1.opposite(),
        (Resolution::Source(d1), Resolution::Frozen) => d1 != dir,
        (Resolution::Target(d1), Resolution::Frozen) => d1 != dir,
        _ => false,
    }
}

/// One step: a cell freezes when a neighbour is missing or disagrees with it.
pub open spec fn step_result(nh: Neighbourhood<Option<Resolution>>) -> Option<Resolution> {
    match nh.center {
        None => None,
        Some(c) => if forall|i: int|
            0 <= i < 6 ==> (#[trigger] nh.neighbours@[i] matches Some(n) && agrees(
                c,
                n,
                Direction::from_idx(i),
            )) {
            Some(c)
        } else {
            Some(Resolution::Frozen)
        },
    }
}

/// A step only ever freezes: every cell keeps its state or becomes frozen,
/// and a frozen cell stays frozen.
pub proof fn lemma_step_only_freezes(nh: Neighbourhood<Option<Resolution>>)
    ensures
        step_result(nh) == nh.center || step_result(nh) == Some(Resolution::Frozen),
        nh.center == Some(Resolution::Frozen) ==> step_result(nh) == nh.center,
{
}

/// The step, as a rule of a cellular automaton.
pub struct Freezing;

impl CellRule<Option<Resolution>, Option<Resolution>> for Freezing {
    open spec fn applicable(&self, nh: Neighbourhood<Option<Resolution>>) -> bool {
        true
    }

    open spec fn gives(&self, nh: Neighbourhood<Option<Resolution>>, d: Option<Resolution>) -> bool {
        d == step_result(nh)
    }

    fn apply(&self, nh: Neighbourhood<Option<Resolution>>) -> (r: Option<Resolution>) {
        let center = match nh.center {
            None => return None,
            Some(c) => c,
        };
        let dirs = nh.iter_dirs();
        let mut i: usize = 0;
        while i < 6
            invariant
                0 <= i <= 6,
                nh.center == Some(center),
                forall|j: int| 0 <= j < 6 ==> #[trigger] dirs@[j] == (Direction::from_idx(j), nh.neighbours@[j]),
                forall|j: int|
                    0 <= j < i ==> (#[trigger] nh.neighbours@[j] matches Some(n) && agrees(
                        center,
                        n,
                        Direction::from_idx(j),
                    )),
            decreases 6 - i,
        {
            let (dir, neigh) = dirs[i];
            let neigh = match neigh {
                None => return Some(Resolution::Frozen),
                Some(n) => n,
            };
            let valid = match (center, neigh) {
                (Resolution::Frozen, _) => true,
                (Resolution::Source(dir1), Resolution::Target(dir2)) => dir1 != dir || dir2 == dir1.neg(),
                (Resolution::Target(dir1), Resolution::Source(dir2)) => dir1 != dir || dir2 == dir1.neg(),
                (Resolution::Source(dir1), Resolution::Frozen) => dir1 != dir,
                (Resolution::Target(dir1), Resolution::Frozen) => dir1 != dir,
                _ => false,
            };
            if !valid {
                return Some(Resolution::Frozen);
            }
            i = i + 1;
        }
        Some(center)
    }
}

/// Random initial values.
pub struct RandomBytes;

impl LocationRule<Option<u8>> for RandomBytes {
    open spec fn gives(&self, loc: Location, c: Option<u8>) -> bool {
        c is Some
    }

    open spec fn made(&self, loc: Location, rng: SimRng) -> (Option<u8>, SimRng) {
        (Some(u8_draw(rng).0), u8_draw(rng).1)
    }

    fn make(&self, loc: Location, rng: &mut SimRng) -> (r: Option<u8>) {
        Some(random_u8(rng))
    }
}

/// Whether `cells` is what the random pairing pass may make of `init`.
pub open spec fn resolved_from(params: Params, init: AxialTile<Option<u8>>, cells: AxialTile<Option<Resolution>>) -> bool {
    &&& init.well_sized()
    &&& init.spec_width() == cells.spec_width()
    &&& init.spec_height() == cells.spec_height()
    &&& forall|q: int, rr: int|
        init.interior(q, rr) ==> exists|dice: int|
            0 <= dice <= 11 && cells.at(q, rr) == #[trigger] resolved(params, init.nh_at(q, rr), dice)
    &&& forall|q: int, rr: int|
        0 <= q < init.spec_width() && 0 <= rr < init.spec_height() && !init.interior(q, rr)
            ==> #[trigger] cells.at(q, rr) is None
}

/// Whether `bytes` is a map of radius `RADIUS` that holds a byte at every
/// location within the radius and nothing outside it (what `RandomBytes`
/// gives; the bytes themselves are drawn at random).
pub open spec fn random_bytes_map(bytes: AxialTile<Option<u8>>) -> bool {
    &&& bytes.well_sized()
    &&& bytes.spec_width() == hexmap::side(RADIUS as int)
    &&& bytes.spec_height() == hexmap::side(RADIUS as int)
    &&& forall|i: int|
        0 <= i < bytes@.len() ==> ((#[trigger] bytes@[i]) is Some <==> hexmap::location_at(
            RADIUS as int,
            crate::axial_tile::pos_of_index(hexmap::side(RADIUS as int), i),
        ).offset().spec_distance(Cube { x: 0, y: 0 }) <= RADIUS)
}

/// Whether `smooth` is the smoothing pass (`smoothed` with threshold `p0`)
/// over `bytes`: each interior cell smoothed, the edge of the storage empty.
pub open spec fn smoothing_of(p0: u8, bytes: AxialTile<Option<u8>>, smooth: AxialTile<Option<u8>>) -> bool {
    &&& smooth.well_sized()
    &&& smooth.spec_width() == bytes.spec_width()
    &&& smooth.spec_height() == bytes.spec_height()
    &&& forall|q: int, rr: int|
        bytes.interior(q, rr) ==> #[trigger] smooth.at(q, rr) == smoothed(p0, bytes.nh_at(q, rr))
    &&& forall|q: int, rr: int|
        0 <= q < bytes.spec_width() && 0 <= rr < bytes.spec_height() && !bytes.interior(q, rr)
            ==> #[trigger] smooth.at(q, rr) is None
}

/// Whether `cells` is what a new world makes from the random bytes `bytes`:
/// smoothed once with `params.p0` into `smooth`, then resolved into pairs.
pub open spec fn built_from(
    params: Params,
    bytes: AxialTile<Option<u8>>,
    smooth: AxialTile<Option<u8>>,
    cells: AxialTile<Option<Resolution>>,
) -> bool {
    &&& random_bytes_map(bytes)
    &&& smoothing_of(params.p0, bytes, smooth)
    &&& resolved_from(params, smooth, cells)
}

/// Whether the dice of the pairing pass over `smooth` are the draws of one
/// generator, starting in state `g`, cell by cell and row by row: every
/// interior cell of `cells` is the resolution for its draw from `0..12`, and
/// the generator ends in state `g2`.
pub open spec fn diced_from(
    params: Params,
    smooth: AxialTile<Option<u8>>,
    g: SimRng,
    cells: AxialTile<Option<Resolution>>,
    g2: SimRng,
) -> bool {
    &&& forall|q: int, rr: int|
        smooth.interior(q, rr) ==> #[trigger] cells.at(q, rr) == resolved(
            params,
            smooth.nh_at(q, rr),
            below_u8_draw(smooth.rng_before(&Pairing { params }, g, q, rr), 12).0 as int,
        )
    &&& g2 == smooth.rng_before(&Pairing { params }, g, 1, smooth.spec_height() - 1)
}

/// A pairs world.
pub struct World {
    cells: AxialTile<Option<Resolution>>,
    rng: SimRng,
}

/// The parameters that `random_params` draws from the generator in state
/// `rng` (three bytes, then two counts below 7), and the generator's next
/// state.
pub open spec fn params_drawn(rng: SimRng) -> (Params, SimRng) {
    let d0 = u8_draw(rng);
    let d1 = u8_draw(d0.1);
    let d2 = u8_draw(d1.1);
    let d3 = below_u8_draw(d2.1, 7);
    let d4 = below_u8_draw(d3.1, 7);
    (Params { p0: d0.0, p1: d1.0, p2: d2.0, count0: d3.0, count1: d4.0 }, d4.1)
}

/// Random parameters: thresholds drawn from all bytes, counts from `0..=6`.
pub fn random_params(rng: &mut SimRng) -> (r: Params)
    ensures
        r.count0 <= 6,
        r.count1 <= 6,
        (r, *final(rng)) == params_drawn(*old(rng)),
{
    let p0 = random_u8(rng);
    let p1 = random_u8(rng);
    let p2 = random_u8(rng);
    let count0 = random_u8_below(rng, 7);
    let count1 = random_u8_below(rng, 7);
    Params { p0, p1, p2, count0, count1 }
}

/// Whether a state is part of a pair.
pub open spec fn is_active(c: Option<Resolution>) -> bool {
    c matches Some(r) && !(r is Frozen)
}

/// Number of cells that are part of a pair.
pub open spec fn count_active(s: Seq<Option<Resolution>>) -> int
    decreases s.len(),
{
    if s.len() == 0 {
        0
    } else {
        count_active(s.drop_last()) + if is_active(s.last()) {
            1int
        } else {
            0
        }
    }
}

impl World {
    pub closed spec fn cells_spec(self) -> AxialTile<Option<Resolution>> {
        self.cells
    }

    pub closed spec fn rng_spec(self) -> SimRng {
        self.rng
    }

    pub open spec fn wf(self) -> bool {
        self.cells_spec().well_sized()
    }

    /// A new world: random values in a map of radius `RADIUS`, smoothed once
    /// with `params.p0` (`smoothed`) and then resolved into pairs at random
    /// (`resolved`), the dice drawn one after the other from the generator
    /// (`diced_from`). Only the bytes and the generator's state, which come
    /// from a generator seeded by chance, are left open.
    pub fn new(params: Params) -> (r: World)
        ensures
            r.wf(),
            r.cells_spec().spec_width() == hexmap::side(RADIUS as int),
            r.cells_spec().spec_height() == hexmap::side(RADIUS as int),
            exists|bytes: AxialTile<Option<u8>>, smooth: AxialTile<Option<u8>>, g: SimRng|
                #![trigger built_from(params, bytes, smooth, r.cells_spec()), diced_from(params, smooth, g, r.cells_spec(), r.rng_spec())]
                built_from(params, bytes, smooth, r.cells_spec()) && diced_from(
                    params,
                    smooth,
                    g,
                    r.cells_spec(),
                    r.rng_spec(),
                ),
    {
        let mut rng = fresh_rng();
        assert(radius_ok(RADIUS as int)) by (nonlinear_arith)
            requires
                RADIUS == 27,
        ;
        let init = hexmap::new_with(RADIUS, None, &RandomBytes, &mut rng);
        let smooth = init.ca_step_rule(None, &Smoothing { p0: params.p0 });
        let pairing = Pairing { params };
        let ghost g = rng;
        let cells = smooth.ca_step_random(None, &pairing, &mut rng);
        proof {
            assert forall|q: int, rr: int| smooth.interior(q, rr) implies exists|dice: int|
                0 <= dice <= 11 && cells.at(q, rr) == #[trigger] resolved(params, smooth.nh_at(q, rr), dice) by {
                assert(pairing.gives(smooth.nh_at(q, rr), cells.at(q, rr)));
            }
        }
        assert(resolved_from(params, smooth, cells));
        assert(random_bytes_map(init));
        assert(smoothing_of(params.p0, init, smooth));
        assert(built_from(params, init, smooth, cells));
        assert(diced_from(params, smooth, g, cells, rng));
        let w = World { cells, rng };
        assert(built_from(params, init, smooth, w.cells_spec()) && diced_from(
            params,
            smooth,
            g,
            w.cells_spec(),
            w.rng_spec(),
        ));
        w
    }

    /// Replace the generator by one seeded with `seed`.
    pub fn seed(&mut self, seed: u64)
        ensures
            final(self).rng_spec() == crate::rng::seeded(seed),
            final(self).cells_spec() == old(self).cells_spec(),
    {
        self.rng = seed_rng(seed);
    }

    /// One step: every interior cell becomes `step_result` of its
    /// neighbourhood; the cells at the edge of the storage are missing.
    pub fn step(&mut self)
        requires
            old(self).wf(),
        ensures
            final(self).wf(),
            final(self).cells_spec().spec_width() == old(self).cells_spec().spec_width(),
            final(self).cells_spec().spec_height() == old(self).cells_spec().spec_height(),
            forall|q: int, rr: int|
                old(self).cells_spec().interior(q, rr) ==> #[trigger] final(self).cells_spec().at(q, rr)
                    == step_result(old(self).cells_spec().nh_at(q, rr)),
            forall|q: int, rr: int|
                0 <= q < old(self).cells_spec().spec_width() && 0 <= rr < old(
                    self,
                ).cells_spec().spec_height() && !old(self).cells_spec().interior(q, rr)
                    ==> #[trigger] final(self).cells_spec().at(q, rr) is None,
    {
        let next = self.cells.ca_step_rule(None, &Freezing);
        self.cells = next;
    }

    /// Number of cells that are part of a pair.
    pub fn active_count(&self) -> (r: i32)
        requires
            self.wf(),
        ensures
            r == count_active(self.cells_spec()@),
    {
        let cells = self.cells.iter_cells();
        let mut n: i32 = 0;
        let mut i: usize = 0;
        while i < cells.len()
            invariant
                cells@ == self.cells@,
                self.cells.well_sized(),
                0 <= i <= cells@.len(),
                n == count_active(cells@.subrange(0, i as int)),
                0 <= n <= i,
            decreases cells@.len() - i,
        {
            proof {
                assert(cells@.subrange(0, i as int + 1).drop_last() =~= cells@.subrange(0, i as int));
            }
            match cells[i] {
                Some(Resolution::Source(_)) | Some(Resolution::Target(_)) => {
                    n = n + 1;
                },
                _ => {},
            }
            i = i + 1;
        }
        proof {
            assert(cells@.subrange(0, cells@.len() as int) =~= cells@);
        }
        n
    }

    /// Number of cells of the map.
    pub fn area(&self) -> (r: i32)
        requires
            self.wf(),
        ensures
            r == self.cells_spec()@.len(),
    {
        self.cells.area()
    }

}


impl World {
    /// The cells and the generator (to save the state).
    pub fn parts(&self) -> (r: (&AxialTile<Option<Resolution>>, &SimRng))
        ensures
            *r.0 == self.cells_spec(),
            *r.1 == self.rng_spec(),
    {
        (&self.cells, &self.rng)
    }

    /// A world from saved cells and generator.
    pub fn from_parts(cells: AxialTile<Option<Resolution>>, rng: SimRng) -> (r: Self)
        requires
            cells.well_sized(),
        ensures
            r.wf(),
            r.cells_spec() == cells,
            r.rng_spec() == rng,
    {
        World { cells, rng }
    }
}

impl HexgridView for World {
    open spec fn viewable(&self) -> bool {
        self.wf()
    }

    open spec fn shows(&self, pos: Cube, r: Option<CellView>) -> bool {
        match self.cells_spec().cell_spec(pos) {
            None => r is None,
            Some(state) => r matches Some(v) && v.energy is None && v.cell_type == (match state {
                Some(Resolution::Frozen) => 0u8,
                Some(Resolution::Source(_)) => 1u8,
                Some(Resolution::Target(_)) => 2u8,
                None => 255u8,
            }) && v.direction == (match state {
                Some(Resolution::Source(d)) => Some(d),
                Some(Resolution::Target(d)) => Some(d),
                _ => None,
            })
        }
    }

    /// How the cell at `pos` is rendered: frozen 0, source 1, target 2,
    /// missing 255, with the direction of the pair.
    fn cell_view(&self, pos: Cube) -> (r: Option<CellView>) {
        match self.cells.cell(pos) {
            None => None,
            Some(state) => {
                let cell_type: u8 = match state {
                    Some(Resolution::Frozen) => 0,
                    Some(Resolution::Source(_)) => 1,
                    Some(Resolution::Target(_)) => 2,
                    None => 255,
                };
                let direction = match state {
                    Some(Resolution::Source(d)) => Some(d),
                    Some(Resolution::Target(d)) => Some(d),
                    _ => None,
                };
                Some(CellView { cell_type, energy: None, direction })
            },
        }
    }
}

} // verus!
