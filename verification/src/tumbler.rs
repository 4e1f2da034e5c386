//! A random walk on a wrapping grid, marking the cells it visits.
use vstd::prelude::*;

use crate::coords::{Cube, Direction};
use crate::hexgrid_view::CellView;
use crate::rng::{choose_from, random_seed, seed_rng, SimRng};
use crate::tile::Tile;
use crate::torus_tile::{cells_len, torus_index};

verus! {

/// The walker and the cells it visited.
pub struct Tumbler {
    pub visited: Tile<bool>,
    pos: Cube,
    rng: SimRng,
}

impl Tumbler {
    pub closed spec fn visited_spec(self) -> Tile<bool> {
        self.visited
    }

    pub closed spec fn pos_spec(self) -> Cube {
        self.pos
    }

    pub open spec fn wf(self) -> bool {
        &&& self.visited_spec()@.len() == cells_len()
        &&& -64 <= self.pos_spec().x <= 64 && -64 <= self.pos_spec().y <= 64
    }

    /// A walker at (15, 15) on a grid with nothing visited.
    pub fn new() -> (r: Tumbler)
        ensures
            r.wf(),
            r.pos_spec() == (Cube { x: 15i32, y: 15i32 }),
            forall|i: int| 0 <= i < cells_len() ==> !#[trigger] r.visited_spec()@[i],
    {
        let rng = seed_rng(random_seed());
        Tumbler { visited: Tile::new(false), pos: Cube { x: 15, y: 15 }, rng }
    }

    /// One step in a random direction; the cell reached is visited.
    pub fn step(&mut self)
        requires
            old(self).wf(),
        ensures
            final(self).wf(),
            exists|d: Direction|
                torus_index(final(self).pos_spec().x as int, final(self).pos_spec().y as int) == torus_index(
                    old(self).pos_spec().x + d.dx(),
                    old(self).pos_spec().y + d.dy(),
                ),
            final(self).visited_spec()@ == old(self).visited_spec()@.update(
                torus_index(final(self).pos_spec().x as int, final(self).pos_spec().y as int),
                true,
            ),
    {
        let dirs = Direction::all();
        let choices = vec![dirs[0], dirs[1], dirs[2], dirs[3], dirs[4], dirs[5]];
        let direction = match choose_from(&mut self.rng, &choices) {
            Some(d) => d,
            None => Direction::NorthWest,
        };
        let moved = self.pos.add_direction(direction);
        self.pos = Tile::<bool>::wrap_pos(moved);
        self.visited.set_cell(self.pos, true);
    }

    /// How the cell at `pos` is rendered: the walker 0, unvisited 1, visited 2.
    pub fn get_cell_view(&self, pos: Cube) -> (r: CellView)
        requires
            self.wf(),
        ensures
            r.energy is None,
            r.direction is None,
            r.cell_type == (if torus_index(pos.x as int, pos.y as int) == torus_index(
                self.pos_spec().x as int,
                self.pos_spec().y as int,
            ) {
                0u8
            } else if self.visited_spec().at(pos.x as int, pos.y as int) {
                2u8
            } else {
                1u8
            }),
    {
        let cell_type: u8 = if self.visited.is_same_pos(pos, self.pos) {
            0
        } else if self.visited.get_cell(pos) {
            2
        } else {
            1
        };
        CellView { cell_type, energy: None, direction: None }
    }
}

impl Tumbler {
    /// The visited cells, the walker's position and its generator (to save
    /// the state).
    pub fn parts(&self) -> (r: (&Tile<bool>, Cube, &SimRng))
        ensures
            *r.0 == self.visited_spec(),
            r.1 == self.pos_spec(),
    {
        (&self.visited, self.pos, &self.rng)
    }

    /// A walker from saved parts; `None` where they break `wf`.
    pub fn from_parts(visited: Tile<bool>, pos: Cube, rng: SimRng) -> (r: Option<Tumbler>)
        ensures
            r matches Some(t) ==> t.wf() && t.visited_spec() == visited && t.pos_spec() == pos,
            r is None <==> !(visited@.len() == cells_len() && -64 <= pos.x <= 64 && -64 <= pos.y <= 64),
    {
        if visited.iter_cells().len() != 1024 || pos.x < -64 || pos.x > 64 || pos.y < -64 || pos.y > 64 {
            return None;
        }
        Some(Tumbler { visited, pos, rng })
    }
}

} // verus!
