//! Falling sand on a wrapping map: sand and dust fall into the air through
//! exclusive swaps between neighbours.
use vstd::prelude::*;

use crate::ca::{self, Decision, TransactionResult, TransactionalCaRule};
use crate::coords::{Cube, Direction, Neighbourhood};
use crate::hexgrid_view::{CellView, HexgridView};
use crate::rng::{below_i32_draw, fresh_rng, random_below, random_ratio, seed_rng, SimRng};
use crate::torus_tile::{cells_len, torus_pos, TorusTile, SIZE};

verus! {

/// What a cell holds.
#[derive(Clone, Copy, PartialEq, Eq, Debug, Structural)]
pub enum Cell {
    Air,
    Sand,
    /// Dust, possibly drifting in a direction.
    Dust(Option<Direction>),
    Grass,
}

/// The transaction of `source` with its neighbour `target` in `direction`:
/// sand falls into air below it (south-east or south-west), dust without a
/// direction swaps with air anywhere, drifting dust only in its direction.
pub open spec fn sand_transaction(source: Cell, target: Cell, direction: Direction) -> Option<TransactionResult<Cell>> {
    let swap = Some(TransactionResult { source: target, target: source });
    match (source, target) {
        (Cell::Sand, Cell::Air) => if direction == Direction::SouthEast || direction == Direction::SouthWest {
            swap
        } else {
            None
        },
        (Cell::Dust(None), Cell::Air) => swap,
        (Cell::Dust(Some(dir)), Cell::Air) => if dir == direction {
            swap
        } else {
            None
        },
        _ => None,
    }
}

/// Every transaction is a swap of the two cells: nothing appears or vanishes.
pub proof fn lemma_transaction_swaps(source: Cell, target: Cell, direction: Direction)
    ensures
        sand_transaction(source, target, direction) matches Some(t) ==> t.source == target && t.target
            == source,
{
}

/// The rule of the falling sand world.
pub struct Rule;

impl TransactionalCaRule for Rule {
    type Cell = Cell;

    open spec fn transaction_spec(&self, source: Cell, target: Cell, direction: Direction) -> Option<
        TransactionResult<Cell>,
    > {
        sand_transaction(source, target, direction)
    }

    fn transaction(&self, source: Cell, target: Cell, direction: Direction) -> (r: Option<
        TransactionResult<Cell>,
    >) {
        let swap = Some(TransactionResult { source: target, target: source });
        match (source, target) {
            (Cell::Sand, Cell::Air) => match direction {
                Direction::SouthEast | Direction::SouthWest => swap,
                _ => None,
            },
            (Cell::Dust(None), Cell::Air) => swap,
            (Cell::Dust(Some(dir)), Cell::Air) => {
                if dir == direction {
                    swap
                } else {
                    None
                }
            },
            _ => None,
        }
    }

    /// Dust picks a new drift at random: south-west or south-east with a
    /// chance of one in sixteen each, none otherwise. Other cells stay.
    open spec fn step_gives(&self, nh: Neighbourhood<Cell>, out: Cell) -> bool {
        match nh.center {
            Cell::Dust(_) => out == Cell::Dust(None) || out == Cell::Dust(Some(Direction::SouthWest)) || out
                == Cell::Dust(Some(Direction::SouthEast)),
            c => out == c,
        }
    }


    open spec fn step_drawn(&self, nh: Neighbourhood<Cell>, rng: SimRng) -> (Cell, SimRng) {
        match nh.center {
            Cell::Dust(_) => {
                let k = below_i32_draw(rng, 16);
                (Cell::Dust(
                    if k.0 == 0 {
                        Some(Direction::SouthWest)
                    } else if k.0 == 1 {
                        Some(Direction::SouthEast)
                    } else {
                        None
                    },
                ), k.1)
            },
            c => (c, rng),
        }
    }

    fn step(&self, nh: Neighbourhood<Cell>, rng: &mut SimRng) -> (r: Cell) {
        match nh.center {
            Cell::Dust(_) => {
                let k = random_below(rng, 16);
                Cell::Dust(
                    if k == 0 {
                        Some(Direction::SouthWest)
                    } else if k == 1 {
                        Some(Direction::SouthEast)
                    } else {
                        None
                    },
                )
            },
            c => c,
        }
    }
}

/// The row of a position (the cube z coordinate).
pub open spec fn row_of(i: int) -> int {
    torus_pos(i).spec_z()
}

/// The cells that a new world may hold in row `z`: grass in the two bottom
/// rows, sand in the five top rows; elsewhere air, or at random dust, sand,
/// or (in rows 21 to 23) grass.
pub open spec fn initial_cell(z: int, c: Cell) -> bool {
    if z > SIZE - 3 {
        c == Cell::Grass
    } else if z < 5 {
        c == Cell::Sand
    } else {
        c == Cell::Dust(None) || c == Cell::Sand || c == Cell::Air || (20 < z < 24 && c == Cell::Grass)
    }
}

/// A falling sand world.
pub struct World {
    cells: TorusTile<Cell>,
    rng: SimRng,
}

impl World {
    pub closed spec fn cells_spec(self) -> TorusTile<Cell> {
        self.cells
    }

    pub closed spec fn rng_spec(self) -> SimRng {
        self.rng
    }

    pub open spec fn wf(self) -> bool {
        self.cells_spec()@.len() == cells_len()
    }

    /// A new world: each cell as `initial_cell` allows for its row.
    pub fn new() -> (r: World)
        ensures
            r.wf(),
            forall|i: int| 0 <= i < cells_len() ==> initial_cell(row_of(i), #[trigger] r.cells_spec()@[i]),
    {
        let mut rng = fresh_rng();
        let n: usize = (SIZE * SIZE) as usize;
        let mut data: Vec<Cell> = Vec::new();
        let mut i: usize = 0;
        while i < n
            invariant
                n == cells_len(),
                0 <= i <= n,
                data@.len() == i,
                forall|k: int| 0 <= k < i ==> initial_cell(row_of(k), #[trigger] data@[k]),
            decreases n - i,
        {
            let pos = TorusTile::<Cell>::pos_from_index(i);
            let z = pos.z();
            let cell = if z > SIZE as i32 - 3 {
                Cell::Grass
            } else if z < 5 {
                Cell::Sand
            } else if random_ratio(&mut rng, 1, 100) {
                Cell::Dust(None)
            } else if random_ratio(&mut rng, 1, 50) {
                Cell::Sand
            } else if z > 20 && z < 24 && random_ratio(&mut rng, 3, 5) {
                Cell::Grass
            } else {
                Cell::Air
            };
            data.push(cell);
            i = i + 1;
        }
        World { cells: TorusTile::from_vec(data), rng }
    }

    /// Replace the generator by one seeded with `seed`.
    pub fn seed(&mut self, seed: u64)
        ensures
            final(self).rng_spec() == crate::rng::seeded(seed),
            final(self).cells_spec() == old(self).cells_spec(),
    {
        self.rng = seed_rng(seed);
    }

    /// One step of the automaton with transactions (`ca::step_torus`): sand
    /// and dust swap with air as `sand_transaction` allows, then dust picks
    /// a new drift.
    pub fn step(&mut self)
        requires
            old(self).wf(),
        ensures
            final(self).wf(),
            exists|decisions: TorusTile<Decision>, moved: TorusTile<Cell>|
                #[trigger] ca::torus_transacted(&Rule, old(self).cells_spec(), decisions, moved) && (forall|i: int|
                    0 <= i < cells_len() ==> Rule.step_gives(moved.nh_of_index(i), #[trigger] final(self).cells_spec()@[i]))
                    && (forall|i: int|
                    0 <= i < cells_len() ==> #[trigger] decisions@[i] == ca::step1_drawn(
                        &Rule,
                        old(self).cells_spec().nh_of_index(i),
                        ca::decide_torus_rng(&Rule, old(self).cells_spec(), old(self).rng_spec(), i as nat),
                    ).0) && (forall|i: int|
                    0 <= i < cells_len() ==> #[trigger] final(self).cells_spec()@[i] == Rule.step_drawn(
                        moved.nh_of_index(i),
                        ca::update_torus_rng(
                            &Rule,
                            moved,
                            ca::decide_torus_rng(&Rule, old(self).cells_spec(), old(self).rng_spec(), cells_len() as nat),
                            i as nat,
                        ),
                    ).0) && final(self).rng_spec() == ca::update_torus_rng(
                    &Rule,
                    moved,
                    ca::decide_torus_rng(&Rule, old(self).cells_spec(), old(self).rng_spec(), cells_len() as nat),
                    cells_len() as nat,
                ),
    {
        let next = ca::step_torus(&self.cells, &Rule, &mut self.rng);
        self.cells = next;
    }

}

impl Default for World {
    fn default() -> (r: Self)
        ensures
            r.wf(),
    {
        Self::new()
    }
}


impl World {
    /// The cells and the generator (to save the state).
    pub fn parts(&self) -> (r: (&TorusTile<Cell>, &SimRng))
        ensures
            *r.0 == self.cells_spec(),
            *r.1 == self.rng_spec(),
    {
        (&self.cells, &self.rng)
    }

    /// A world from saved cells and generator.
    pub fn from_parts(cells: TorusTile<Cell>, rng: SimRng) -> (r: Self)
        requires
            cells@.len() == cells_len(),
        ensures
            r.wf(),
            r.cells_spec() == cells,
            r.rng_spec() == rng,
    {
        World { cells, rng }
    }
}

impl HexgridView for World {
    open spec fn viewable(&self) -> bool {
        self.wf()
    }

    open spec fn shows(&self, pos: Cube, r: Option<CellView>) -> bool {
        r matches Some(v) && v.energy is None && {
            let c = self.cells_spec().at(pos.x as int, pos.y as int);
            &&& v.cell_type == (match c {
                Cell::Air => 0u8,
                Cell::Grass => 1u8,
                Cell::Sand => 4u8,
                Cell::Dust(_) => 5u8,
            })
            &&& v.direction == (match c {
                Cell::Dust(d) => d,
                _ => None,
            })
        }
    }

    /// How the cell at `pos` is rendered: air 0, grass 1, sand 4, dust 5,
    /// with the drift of dust as the direction.
    fn cell_view(&self, pos: Cube) -> (r: Option<CellView>) {
        let cell = self.cells.cell(pos);
        let cell_type: u8 = match cell {
            Cell::Air => 0,
            Cell::Grass => 1,
            Cell::Sand => 4,
            Cell::Dust(_) => 5,
        };
        let direction = match cell {
            Cell::Dust(d) => d,
            _ => None,
        };
        Some(CellView { cell_type, direction, energy: None })
    }
}

} // verus!
