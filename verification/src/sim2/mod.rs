//! Sand on a wrapping grid: a grain falls south-east into air where both
//! cells chose each other at random.
use vstd::prelude::*;

use crate::coords::{Cube, Direction, Neighbourhood};
use crate::hexgrid_view::{CellView, HexgridView};
use crate::rng::{choose_from, fresh_rng, random_ratio, seed_rng, SimRng};
use crate::torus_tile::{cells_len, torus_pos, TorusTile, SIZE};

verus! {

/// What a cell holds.
#[derive(Clone, Copy, PartialEq, Eq, Debug, Structural)]
pub enum Cell {
    Air,
    Sand,
    Grass,
}

/// What the center of `nh` (each cell with the direction it chose) becomes:
/// it swaps with the neighbour it chose, if that neighbour chose it back and
/// the swap lets sand fall south-east into air.
pub open spec fn swap_result(nh: Neighbourhood<(Cell, Direction)>) -> Cell {
    let (c, d) = nh.center;
    let (n, d2) = nh.neighbours@[d.idx()];
    let falls = (c == Cell::Sand && n == Cell::Air && d == Direction::SouthEast) || (n == Cell::Sand && c
        == Cell::Air && d.opposite() == Direction::SouthEast);
    if d2 == d.opposite() && falls {
        n
    } else {
        c
    }
}

/// Whether the center of `nh` swaps with the neighbour it chose.
pub open spec fn swaps(nh: Neighbourhood<(Cell, Direction)>) -> bool {
    let (c, d) = nh.center;
    let (n, d2) = nh.neighbours@[d.idx()];
    d2 == d.opposite() && ((c == Cell::Sand && n == Cell::Air && d == Direction::SouthEast) || (n
        == Cell::Sand && c == Cell::Air && d.opposite() == Direction::SouthEast))
}

/// Swaps are mutual: where a cell swaps with the neighbour `b` it chose, `b`
/// swaps with it, and each takes the other's cell. No grain appears or vanishes.
pub proof fn lemma_swap_mutual(a: Neighbourhood<(Cell, Direction)>, b: Neighbourhood<(Cell, Direction)>)
    requires
        a.neighbours@[a.center.1.idx()] == b.center,
        b.neighbours@[a.center.1.opposite().idx()] == a.center,
        swaps(a),
    ensures
        swaps(b),
        swap_result(a) == b.center.0,
        swap_result(b) == a.center.0,
{
    crate::coords::lemma_opposite_involution(a.center.1);
}

/// The sand world.
pub struct World {
    sand: TorusTile<Cell>,
    rng: SimRng,
}

impl World {
    pub closed spec fn sand_spec(self) -> TorusTile<Cell> {
        self.sand
    }

    pub closed spec fn rng_spec(self) -> SimRng {
        self.rng
    }

    pub open spec fn wf(self) -> bool {
        self.sand_spec()@.len() == cells_len()
    }

    /// A new world: grass in the two bottom rows, elsewhere sand (three
    /// times in twenty-five) or air.
    pub fn new() -> (r: World)
        ensures
            r.wf(),
            forall|i: int|
                0 <= i < cells_len() ==> if torus_pos(i).spec_z() > SIZE - 3 {
                    #[trigger] r.sand_spec()@[i] == Cell::Grass
                } else {
                    r.sand_spec()@[i] == Cell::Sand || r.sand_spec()@[i] == Cell::Air
                },
    {
        let mut rng = fresh_rng();
        let n: usize = (SIZE * SIZE) as usize;
        let mut data: Vec<Cell> = Vec::new();
        let mut i: usize = 0;
        while i < n
            invariant
                n == cells_len(),
                0 <= i <= n,
                data@.len() == i,
                forall|k: int|
                    0 <= k < i ==> if torus_pos(k).spec_z() > SIZE - 3 {
                        #[trigger] data@[k] == Cell::Grass
                    } else {
                        data@[k] == Cell::Sand || data@[k] == Cell::Air
                    },
            decreases n - i,
        {
            let pos = TorusTile::<Cell>::pos_from_index(i);
            let cell = if pos.z() > SIZE as i32 - 3 {
                Cell::Grass
            } else if random_ratio(&mut rng, 3, 25) {
                Cell::Sand
            } else {
                Cell::Air
            };
            data.push(cell);
            i = i + 1;
        }
        World { sand: TorusTile::from_vec(data), rng }
    }

    /// Replace the generator by one seeded with `seed`.
    pub fn seed(&mut self, seed: u64)
        ensures
            final(self).rng_spec() == crate::rng::seeded(seed),
            final(self).sand_spec() == old(self).sand_spec(),
    {
        self.rng = seed_rng(seed);
    }

    /// One step: every cell chooses a random direction, then every cell
    /// becomes `swap_result` of its neighbourhood.
    pub fn step(&mut self)
        requires
            old(self).wf(),
        ensures
            final(self).wf(),
            exists|t: TorusTile<(Cell, Direction)>|
                t@.len() == cells_len() && (forall|i: int| 0 <= i < cells_len() ==> (#[trigger] t@[i]).0 == old(
                    self,
                ).sand_spec()@[i]) && (forall|i: int|
                    0 <= i < cells_len() ==> #[trigger] final(self).sand_spec()@[i] == swap_result(
                        t.nh_of_index(i),
                    )),
    {
        let dirs = Direction::all();
        let choices = vec![dirs[0], dirs[1], dirs[2], dirs[3], dirs[4], dirs[5]];
        let cells = self.sand.iter_cells();
        let mut decided: Vec<(Cell, Direction)> = Vec::new();
        let mut i: usize = 0;
        while i < cells.len()
            invariant
                cells@ == self.sand@,
                cells@.len() == cells_len(),
                0 <= i <= cells@.len(),
                decided@.len() == i,
                forall|k: int| 0 <= k < i ==> (#[trigger] decided@[k]).0 == cells@[k],
            decreases cells@.len() - i,
        {
            let d = match choose_from(&mut self.rng, &choices) {
                Some(d) => d,
                None => Direction::NorthWest,
            };
            decided.push((cells[i], d));
            i = i + 1;
        }
        let t = TorusTile::from_vec(decided);
        let nhs = t.neighbourhoods();
        let mut out: Vec<Cell> = Vec::new();
        let mut k: usize = 0;
        while k < nhs.len()
            invariant
                nhs@.len() == cells_len(),
                t@.len() == cells_len(),
                forall|j: int|
                    0 <= j < cells_len() ==> t.is_neighbourhood(
                        torus_pos(j).x as int,
                        torus_pos(j).y as int,
                        #[trigger] nhs@[j],
                    ),
                0 <= k <= nhs@.len(),
                out@.len() == k,
                forall|j: int| 0 <= j < k ==> #[trigger] out@[j] == swap_result(t.nh_of_index(j)),
            decreases nhs@.len() - k,
        {
            let nh = nhs[k];
            proof {
                t.lemma_nh_unique(k as int, nh);
            }
            let (c, d) = nh.center;
            let (n, d2) = nh.neighbours[d.index()];
            let falls = (c == Cell::Sand && n == Cell::Air && d == Direction::SouthEast) || (n == Cell::Sand
                && c == Cell::Air && d.neg() == Direction::SouthEast);
            let v = if d2 == d.neg() && falls {
                n
            } else {
                c
            };
            out.push(v);
            k = k + 1;
        }
        self.sand = TorusTile::from_vec(out);
    }

}

impl Default for World {
    fn default() -> (r: Self)
        ensures
            r.wf(),
    {
        Self::new()
    }
}


impl World {
    /// The cells and the generator (to save the state).
    pub fn parts(&self) -> (r: (&TorusTile<Cell>, &SimRng))
        ensures
            *r.0 == self.sand_spec(),
            *r.1 == self.rng_spec(),
    {
        (&self.sand, &self.rng)
    }

    /// A world from saved cells and generator.
    pub fn from_parts(sand: TorusTile<Cell>, rng: SimRng) -> (r: Self)
        requires
            sand@.len() == cells_len(),
        ensures
            r.wf(),
            r.sand_spec() == sand,
            r.rng_spec() == rng,
    {
        World { sand, rng }
    }
}

impl HexgridView for World {
    open spec fn viewable(&self) -> bool {
        self.wf()
    }

    open spec fn shows(&self, pos: Cube, r: Option<CellView>) -> bool {
        r matches Some(v) && v.energy is None && v.direction is None && v.cell_type == (match self.sand_spec().at(
            pos.x as int,
            pos.y as int
        ) {
            Cell::Air => 0u8,
            Cell::Grass => 1u8,
            Cell::Sand => 3u8
        })
    }

    /// How the cell at `pos` is rendered: air 0, grass 1, sand 3.
    fn cell_view(&self, pos: Cube) -> (r: Option<CellView>) {
        let cell_type: u8 = match self.sand.cell(pos) {
            Cell::Air => 0,
            Cell::Grass => 1,
            Cell::Sand => 3,
        };
        Some(CellView { cell_type, energy: None, direction: None })
    }
}

} // verus!
