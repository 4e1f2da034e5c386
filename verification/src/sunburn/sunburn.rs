//! A first sunburn world: dust falls through the air by swaps with it.
use vstd::prelude::*;

use crate::axial_tile::AxialTile;
use crate::ca::{self, TransactionResult, TransactionalCaRule};
use crate::coords::{Cube, Direction, Neighbourhood};
use crate::hexgrid_view::{CellView, HexgridView};
use crate::hexmap::{self, radius_ok, Location, LocationRule};
use crate::rng::{fresh_rng, random_ratio, ratio_draw, SimRng};

verus! {

/// Radius of the map.
pub const RADIUS: i32 = 12;

/// What a cell holds.
#[derive(Clone, Copy, PartialEq, Eq, Debug, Structural)]
pub enum Cell {
    Border,
    Stone,
    Air,
    Dust,
}

/// Dust swaps with air, in any direction.
pub open spec fn dust_transaction(source: Cell, target: Cell) -> Option<TransactionResult<Cell>> {
    if target == Cell::Air && source == Cell::Dust {
        Some(TransactionResult { source: target, target: source })
    } else {
        None
    }
}

/// The rule: swaps of dust and air, no update otherwise.
pub struct Rule;

impl TransactionalCaRule for Rule {
    type Cell = Cell;

    open spec fn transaction_spec(&self, source: Cell, target: Cell, direction: Direction) -> Option<
        TransactionResult<Cell>,
    > {
        dust_transaction(source, target)
    }

    fn transaction(&self, source: Cell, target: Cell, direction: Direction) -> (r: Option<
        TransactionResult<Cell>,
    >) {
        if target == Cell::Air {
            if source == Cell::Dust {
                return Some(TransactionResult { source: target, target: source });
            }
        }
        None
    }

    open spec fn step_gives(&self, nh: Neighbourhood<Cell>, out: Cell) -> bool {
        out == nh.center
    }


    open spec fn step_drawn(&self, nh: Neighbourhood<Cell>, rng: SimRng) -> (Cell, SimRng) {
        (nh.center, rng)
    }

    fn step(&self, nh: Neighbourhood<Cell>, rng: &mut SimRng) -> (r: Cell) {
        nh.center
    }
}

/// How a new world fills its map: air in the top quarter and around the
/// dust at the center, stones scattered elsewhere (one time in about twelve).
pub struct Landscape;

/// The cells that a new world may hold at a location.
pub open spec fn landscape_cell(dist_from_top: int, dist_from_center: int, c: Cell) -> bool {
    if dist_from_top < RADIUS / 3 {
        c == Cell::Air
    } else if dist_from_center <= 1 {
        c == Cell::Dust
    } else if dist_from_center == 2 {
        c == Cell::Air
    } else {
        c == Cell::Stone || c == Cell::Air
    }
}

impl LocationRule<Cell> for Landscape {
    open spec fn gives(&self, loc: Location, c: Cell) -> bool {
        landscape_cell(
            loc.offset().spec_z() + loc.spec_radius(),
            loc.offset().spec_distance(Cube { x: 0, y: 0 }),
            c,
        )
    }

    open spec fn made(&self, loc: Location, rng: SimRng) -> (Cell, SimRng) {
        let d = loc.offset().spec_distance(Cube { x: 0, y: 0 });
        if loc.offset().spec_z() + loc.spec_radius() < RADIUS / 3 {
            (Cell::Air, rng)
        } else if d <= 1 {
            (Cell::Dust, rng)
        } else if d == 2 {
            (Cell::Air, rng)
        } else {
            let s = ratio_draw(rng, 2, 25);
            (if s.0 { Cell::Stone } else { Cell::Air }, s.1)
        }
    }

    fn make(&self, loc: Location, rng: &mut SimRng) -> (r: Cell) {
        if loc.dist_from_top() < RADIUS / 3 {
            return Cell::Air;
        }
        let d = loc.dist_from_center();
        if 0 <= d && d <= 1 {
            Cell::Dust
        } else if d == 2 {
            Cell::Air
        } else if random_ratio(rng, 2, 25) {
            Cell::Stone
        } else {
            Cell::Air
        }
    }
}

/// The world.
pub struct SunburnWorld {
    cells: AxialTile<Cell>,
    rng: SimRng,
}

impl SunburnWorld {
    pub closed spec fn cells_spec(self) -> AxialTile<Cell> {
        self.cells
    }

    pub open spec fn wf(self) -> bool {
        self.cells_spec().well_sized()
    }

    /// A new world of radius `RADIUS` (see `landscape_cell`).
    pub fn new() -> (r: SunburnWorld)
        ensures
            r.wf(),
            forall|i: int|
                0 <= i < r.cells_spec()@.len() ==> {
                    let loc = hexmap::location_at(
                        RADIUS as int,
                        crate::axial_tile::pos_of_index(hexmap::side(RADIUS as int), i),
                    );
                    if loc.offset().spec_distance(Cube { x: 0, y: 0 }) > RADIUS {
                        #[trigger] r.cells_spec()@[i] == Cell::Border
                    } else {
                        Landscape.gives(loc, r.cells_spec()@[i])
                    }
                },
    {
        let mut rng = fresh_rng();
        assert(radius_ok(RADIUS as int)) by (nonlinear_arith)
            requires
                RADIUS == 12,
        ;
        let cells = hexmap::new_with(RADIUS, Cell::Border, &Landscape, &mut rng);
        SunburnWorld { cells, rng }
    }

    /// One step of the automaton with transactions (`ca::step_axial`): dust
    /// swaps with neighbouring air as `dust_transaction` allows.
    pub fn step(&mut self)
        requires
            old(self).wf(),
        ensures
            final(self).wf(),
            final(self).cells_spec().spec_width() == old(self).cells_spec().spec_width(),
            final(self).cells_spec().spec_height() == old(self).cells_spec().spec_height(),
            exists|step1: AxialTile<(Cell, ca::Decision)>, moved: AxialTile<Cell>|
                #[trigger] ca::axial_transacted(&Rule, old(self).cells_spec(), Cell::Border, step1, moved)
                    && forall|q: int, rr: int|
                    old(self).cells_spec().interior(q, rr) ==> #[trigger] final(self).cells_spec().at(q, rr)
                        == moved.at(q, rr),
    {
        let next = ca::step_axial(&self.cells, Cell::Border, &Rule, &mut self.rng);
        proof {
            let (step1, moved) = choose|step1: AxialTile<(Cell, ca::Decision)>, moved: AxialTile<Cell>|
                #[trigger] ca::axial_transacted(&Rule, self.cells, Cell::Border, step1, moved) && forall|q: int, rr: int|
                    self.cells.interior(q, rr) ==> Rule.step_gives(moved.nh_at(q, rr), #[trigger] next.at(q, rr));
            assert forall|q: int, rr: int| self.cells.interior(q, rr) implies #[trigger] next.at(q, rr) == moved.at(q, rr) by {
                assert(Rule.step_gives(moved.nh_at(q, rr), next.at(q, rr)));
                moved.lemma_nh_exists(q, rr);
            }
        }
        self.cells = next;
    }

}

impl Default for SunburnWorld {
    fn default() -> (r: Self)
        ensures
            r.wf(),
    {
        Self::new()
    }
}


impl SunburnWorld {
    pub closed spec fn rng_spec(self) -> SimRng {
        self.rng
    }

    /// The cells and the generator (to save the state).
    pub fn parts(&self) -> (r: (&AxialTile<Cell>, &SimRng))
        ensures
            *r.0 == self.cells_spec(),
            *r.1 == self.rng_spec(),
    {
        (&self.cells, &self.rng)
    }

    /// A world from saved cells and generator.
    pub fn from_parts(cells: AxialTile<Cell>, rng: SimRng) -> (r: Self)
        requires
            cells.well_sized(),
        ensures
            r.wf(),
            r.cells_spec() == cells,
            r.rng_spec() == rng,
    {
        SunburnWorld { cells, rng }
    }
}

impl HexgridView for SunburnWorld {
    open spec fn viewable(&self) -> bool {
        self.wf()
    }

    open spec fn shows(&self, pos: Cube, r: Option<CellView>) -> bool {
        match self.cells_spec().cell_spec(pos) {
            Some(c) => if c == Cell::Border {
                r is None
            } else {
                r matches Some(v) && v.direction is None && v.energy is None && v.cell_type == (match c {
                    Cell::Air => 2u8,
                    Cell::Dust => 0u8,
                    _ => 4u8,
                })
            },
            None => r is None
        }
    }

    /// How the cell at `pos` is rendered: air 2, dust 0, stone 4; `None` off
    /// the map and on its border.
    fn cell_view(&self, pos: Cube) -> (r: Option<CellView>) {
        let cell = match self.cells.cell(pos) {
            Some(c) => c,
            None => return None,
        };
        let cell_type: u8 = match cell {
            Cell::Air => 2,
            Cell::Dust => 0,
            Cell::Border => return None,
            Cell::Stone => 4,
        };
        Some(CellView { cell_type, direction: None, energy: None })
    }
}

} // verus!
