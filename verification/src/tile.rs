//! The first map storage: SIZE x SIZE cells with wrapping edges, whose
//! iterator yields each cell with its neighbours paired with their directions.
use vstd::prelude::*;

use crate::coords::{fits_i32, iterate_rectangle as iterate_rect, Cube, Direction, Rectangle, rect_x, rect_y, rect_fits};
use crate::torus_tile::{cells_len, mod32, torus_index, torus_pos};

verus! {

/// Tile storage is a SIZE x SIZE parallelogram.
pub const SIZE: u32 = 32;

/// The six neighbours of a cell, paired with their directions.
pub type NeighbourCells<CellT> = [(Direction, CellT); 6];

/// A tile of SIZE x SIZE cells whose opposite edges are joined.
pub struct Tile<CellT: Copy> {
    data: Vec<CellT>,
}

impl<CellT: Copy> View for Tile<CellT> {
    type V = Seq<CellT>;

    closed spec fn view(&self) -> Seq<CellT> {
        self.data@
    }
}

impl<CellT: Copy> Tile<CellT> {
    /// The cell at cube coordinates (x, y), wrapping around.
    pub open spec fn at(self, x: int, y: int) -> CellT {
        self@[torus_index(x, y)]
    }

    /// Whether `c` is the cell at (x, y) and `n` its neighbours with their directions.
    pub open spec fn is_neighbourhood(self, x: int, y: int, c: CellT, n: NeighbourCells<CellT>) -> bool {
        &&& c == self.at(x, y)
        &&& forall|i: int|
            0 <= i < 6 ==> #[trigger] n@[i] == (
                Direction::from_idx(i),
                self.at(x + Direction::from_idx(i).dx(), y + Direction::from_idx(i).dy()),
            )
    }

    /// A tile with every cell set to `fill`.
    pub fn new(fill: CellT) -> (r: Self)
        ensures
            r@.len() == cells_len(),
            forall|i: int| 0 <= i < cells_len() ==> #[trigger] r@[i] == fill,
    {
        let mut data: Vec<CellT> = Vec::new();
        while data.len() < 1024
            invariant
                data@.len() <= 1024,
                forall|i: int| 0 <= i < data@.len() ==> #[trigger] data@[i] == fill,
            decreases 1024 - data@.len(),
        {
            data.push(fill);
        }
        Tile { data }
    }

    /// A tile holding `data` (the cells in storage order), which must hold
    /// exactly SIZE * SIZE cells.
    pub fn from_vec(data: Vec<CellT>) -> (r: Self)
        requires
            data@.len() == cells_len(),
        ensures
            r@ == data@,
    {
        Tile { data }
    }

    fn get_index(pos: Cube) -> (r: usize)
        ensures
            r == torus_index(pos.x as int, pos.y as int),
            r < 1024,
    {
        let q = mod32(pos.x as i64);
        let r = mod32(-(pos.x as i64) - pos.y as i64);
        r * 32 + q
    }

    pub fn set_cell(&mut self, pos: Cube, cell: CellT)
        requires
            old(self)@.len() == cells_len(),
        ensures
            final(self)@ == old(self)@.update(torus_index(pos.x as int, pos.y as int), cell),
    {
        let i = Self::get_index(pos);
        self.data.set(i, cell);
    }

    pub fn get_cell(&self, pos: Cube) -> (r: CellT)
        requires
            self@.len() == cells_len(),
        ensures
            r == self.at(pos.x as int, pos.y as int),
    {
        self.data[Self::get_index(pos)]
    }

    /// Whether two positions address the same cell.
    pub fn is_same_pos(&self, pos1: Cube, pos2: Cube) -> (r: bool)
        ensures
            r == (torus_index(pos1.x as int, pos1.y as int) == torus_index(pos2.x as int, pos2.y as int)),
    {
        Self::get_index(pos1) == Self::get_index(pos2)
    }

    /// The position in storage that addresses the same cell as `pos`.
    pub fn wrap_pos(pos: Cube) -> (r: Cube)
        ensures
            torus_index(r.x as int, r.y as int) == torus_index(pos.x as int, pos.y as int),
            0 <= r.x < 32,
            -63 < r.y <= 0,
    {
        crate::torus_tile::TorusTile::<CellT>::wrap_pos(pos)
    }

    /// Iterate over all cells (in storage order), yielding each cell with its
    /// six neighbours.
    pub fn iter_radius_1(&self) -> (r: NeighbourIter<'_, CellT>)
        requires
            self@.len() == cells_len(),
        ensures
            r.tile() == self,
            r.position() == 0,
    {
        NeighbourIter { tile: self, q: 0, r: 0 }
    }

    /// All cells, in storage order.
    pub fn iter_cells(&self) -> (r: &[CellT])
        ensures
            r@ == self@,
    {
        self.data.as_slice()
    }
}

/// All positions of a rectangle in offset coordinates, row by row.
pub fn iterate_rectangle(pos: Cube, width: i32, height: i32) -> (r: Vec<Cube>)
    requires
        width >= 0,
        height >= 0,
        height * width <= usize::MAX,
        rect_fits(Rectangle { pos, width, height }),
    ensures
        r@.len() == height * width,
        forall|row: int, col: int|
            0 <= row < height && 0 <= col < width ==> {
                let c = #[trigger] r@[row * width + col];
                c.x == rect_x(pos, col, row) && c.y == rect_y(pos, col, row)
            },
{
    iterate_rect(Rectangle { pos, width, height })
}

/// Iterator over all cells of a tile with their neighbours, in storage order.
pub struct NeighbourIter<'t, CellT: Copy> {
    tile: &'t Tile<CellT>,
    q: i32,
    r: i32,
}

impl<'t, CellT: Copy> NeighbourIter<'t, CellT> {
    pub closed spec fn tile(self) -> Tile<CellT> {
        *self.tile
    }

    /// Number of cells yielded so far.
    pub closed spec fn position(self) -> int {
        self.r * 32 + self.q
    }

    #[verifier::type_invariant]
    spec fn inv(self) -> bool {
        &&& 0 <= self.q < 32
        &&& 0 <= self.r <= 32
        &&& self.r == 32 ==> self.q == 0
        &&& self.tile@.len() == cells_len()
    }

    /// The next cell with its neighbours, or `None` after the last cell.
    pub fn next(&mut self) -> (r: Option<(CellT, NeighbourCells<CellT>)>)
        ensures
            final(self).tile() == old(self).tile(),
            old(self).position() >= cells_len() ==> r is None && final(self).position()
                == old(self).position(),
            old(self).position() < cells_len() ==> final(self).position() == old(self).position()
                + 1,
            old(self).position() < cells_len() ==> (r matches Some(cn) && old(
                self,
            ).tile().is_neighbourhood(
                torus_pos(old(self).position()).x as int,
                torus_pos(old(self).position()).y as int,
                cn.0,
                cn.1,
            )),
    {
        proof {
            use_type_invariant(&*self);
        }
        if self.r >= SIZE as i32 {
            return None;
        }
        let (q, r) = (self.q, self.r);
        if q + 1 >= SIZE as i32 {
            self.q = 0;
            self.r = r + 1;
        } else {
            self.q = q + 1;
        }
        let center_pos = Cube { x: q, y: -r - q };
        let d0 = Direction::NorthWest;
        let d1 = Direction::NorthEast;
        let d2 = Direction::East;
        let d3 = Direction::SouthEast;
        let d4 = Direction::SouthWest;
        let d5 = Direction::West;
        let neighbours = [
            (d0, self.tile.get_cell(center_pos.add_direction(d0))),
            (d1, self.tile.get_cell(center_pos.add_direction(d1))),
            (d2, self.tile.get_cell(center_pos.add_direction(d2))),
            (d3, self.tile.get_cell(center_pos.add_direction(d3))),
            (d4, self.tile.get_cell(center_pos.add_direction(d4))),
            (d5, self.tile.get_cell(center_pos.add_direction(d5))),
        ];
        let center = self.tile.get_cell(center_pos);
        proof {
            let p = r * 32 + q;
            assert(p % 32 == q);
            assert(p / 32 == r);
        }
        Some((center, neighbours))
    }

    /// The number of cells not yet yielded, as lower and upper bound.
    /// Exact: both bounds are the count left.
    pub fn size_hint(&self) -> (r: (usize, Option<usize>))
        ensures
            r == ((cells_len() - self.position()) as usize, Some((cells_len() - self.position()) as usize)),
    {
        proof {
            use_type_invariant(self);
        }
        let done: usize = (self.r * 32 + self.q) as usize;
        let left: usize = (SIZE * SIZE) as usize - done;
        (left, Some(left))
    }
}

} // verus!
