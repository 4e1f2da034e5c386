//! Map storage of SIZE x SIZE cells (a parallelogram in axial coordinates)
//! whose opposite edges are joined, so that every position lies on it.
use vstd::prelude::*;

use crate::coords::{fits_i32, Cube, Direction, Neighbourhood, Rectangle};
use crate::axial_tile::dz;
use crate::rng::{random_below, SimRng};

verus! {

/// Tile storage is a SIZE x SIZE parallelogram.
pub const SIZE: u32 = 32;

/// Number of cells of a tile.
pub open spec fn cells_len() -> int {
    (SIZE * SIZE) as int
}

/// Position in storage of the cell at cube coordinates (x, y): both axial
/// coordinates wrap around modulo SIZE.
pub open spec fn torus_index(x: int, y: int) -> int {
    ((-x - y) % 32) * 32 + (x % 32)
}

/// Cube coordinates of the cell stored at position `idx`.
pub open spec fn torus_pos(idx: int) -> Cube {
    Cube { x: (idx % 32) as i32, y: (-(idx % 32) - idx / 32) as i32 }
}

/// The rectangle (in offset coordinates) that shows a whole tile.
pub fn viewport() -> (r: Rectangle)
    ensures
        r.pos == (Cube { x: 0, y: 0 }),
        r.width == SIZE,
        r.height == SIZE,
{
    Rectangle { pos: Cube { x: 0, y: 0 }, width: SIZE as i32, height: SIZE as i32 }
}

/// Euclidean remainder of `v` by 32.
pub(crate) fn mod32(v: i64) -> (r: usize)
    ensures
        r == v % 32,
        r < 32,
{
    if v >= 0 {
        (v % 32) as usize
    } else {
        let k: i64 = (-(v + 1)) % 32;
        (31 - k) as usize
    }
}

/// Storage position and cube coordinates correspond one to one.
pub proof fn lemma_torus_pos_index(i: int)
    requires
        0 <= i < 1024,
    ensures
        torus_index(torus_pos(i).x as int, torus_pos(i).y as int) == i,
{
    let x = i % 32;
    let r = i / 32;
    assert(0 <= r < 32);
    assert(-x - (-x - r) == r);
    assert(r % 32 == r);
    assert(x % 32 == x);
}

/// A tile of SIZE x SIZE cells whose opposite edges are joined.
pub struct TorusTile<CellT: Copy> {
    data: Vec<CellT>,
}

impl<CellT: Copy> View for TorusTile<CellT> {
    type V = Seq<CellT>;

    closed spec fn view(&self) -> Seq<CellT> {
        self.data@
    }
}

impl<CellT: Copy> TorusTile<CellT> {
    /// The cell at cube coordinates (x, y), wrapping around.
    pub open spec fn at(self, x: int, y: int) -> CellT {
        self@[torus_index(x, y)]
    }

    /// Whether `n` holds the cell at (x, y) and its six neighbours.
    pub open spec fn is_neighbourhood(self, x: int, y: int, n: Neighbourhood<CellT>) -> bool {
        &&& n.center == self.at(x, y)
        &&& forall|i: int|
            0 <= i < 6 ==> #[trigger] n.neighbours@[i] == self.at(
                x + Direction::from_idx(i).dx(),
                y + Direction::from_idx(i).dy(),
            )
    }

    /// The neighbourhood of the cell stored at position `i`.
    pub open spec fn nh_of_index(self, i: int) -> Neighbourhood<CellT> {
        choose|n: Neighbourhood<CellT>|
            self.is_neighbourhood(torus_pos(i).x as int, torus_pos(i).y as int, n)
    }

    /// A neighbourhood is determined by the tile and the position.
    pub proof fn lemma_nh_unique(self, i: int, n: Neighbourhood<CellT>)
        requires
            self.is_neighbourhood(torus_pos(i).x as int, torus_pos(i).y as int, n),
        ensures
            self.nh_of_index(i) == n,
    {
        broadcast use vstd::array::group_array_axioms;

        let m = self.nh_of_index(i);
        assert(self.is_neighbourhood(torus_pos(i).x as int, torus_pos(i).y as int, m));
        assert forall|k: int| 0 <= k < 6 implies m.neighbours[k] == n.neighbours[k] by {
            assert(m.neighbours@[k] == n.neighbours@[k]);
        }
        assert(m.neighbours =~= n.neighbours);
    }

    /// A tile with every cell set to `fill`.
    pub fn new(fill: CellT) -> (r: Self)
        ensures
            r@.len() == cells_len(),
            forall|i: int| 0 <= i < cells_len() ==> #[trigger] r@[i] == fill,
    {
        let mut data: Vec<CellT> = Vec::new();
        while data.len() < 1024
            invariant
                data@.len() <= 1024,
                forall|i: int| 0 <= i < data@.len() ==> #[trigger] data@[i] == fill,
            decreases 1024 - data@.len(),
        {
            data.push(fill);
        }
        TorusTile { data }
    }

    /// A tile holding `data` (the cells in storage order), which must hold
    /// exactly SIZE * SIZE cells.
    pub fn from_vec(data: Vec<CellT>) -> (r: Self)
        requires
            data@.len() == cells_len(),
        ensures
            r@ == data@,
    {
        TorusTile { data }
    }

    /// The cube coordinates of the cell stored at position `idx`.
    pub fn pos_from_index(idx: usize) -> (r: Cube)
        requires
            idx <= SIZE * SIZE,
        ensures
            r == torus_pos(idx as int),
    {
        let r: i32 = (idx / 32) as i32;
        let q: i32 = (idx % 32) as i32;
        Cube { x: q, y: -q - r }
    }

    /// A tile whose cell at each position is what `cb` gives for that position.
    pub fn from_fn(cb: impl Fn(Cube) -> CellT) -> (r: Self)
        requires
            forall|p: Cube| cb.requires((p,)),
        ensures
            r@.len() == cells_len(),
            forall|i: int| 0 <= i < cells_len() ==> cb.ensures((torus_pos(i),), #[trigger] r@[i]),
    {
        let mut data: Vec<CellT> = Vec::new();
        let mut idx: usize = 0;
        while idx < 1024
            invariant
                idx <= 1024,
                data@.len() == idx,
                forall|p: Cube| cb.requires((p,)),
                forall|i: int| 0 <= i < idx ==> cb.ensures((torus_pos(i),), #[trigger] data@[i]),
            decreases 1024 - idx,
        {
            data.push(cb(Self::pos_from_index(idx)));
            idx = idx + 1;
        }
        TorusTile { data }
    }

    fn index(pos: Cube) -> (r: usize)
        ensures
            r == torus_index(pos.x as int, pos.y as int),
            r < 1024,
    {
        let q = mod32(pos.x as i64);
        let r = mod32(-(pos.x as i64) - pos.y as i64);
        r * 32 + q
    }

    /// A random position on the tile.
    pub fn random_pos(&self, rng: &mut SimRng) -> (r: Cube)
        ensures
            0 <= r.x < SIZE,
            0 <= r.spec_z() < SIZE,
            (r, *final(rng)) == crate::axial_tile::pos_drawn(*old(rng), 32, 32),
    {
        let x = random_below(rng, SIZE as i32);
        let y = -x - random_below(rng, SIZE as i32);
        Cube { x, y }
    }

    /// The position in the tile's storage that addresses the same cell as `pos`.
    pub fn wrap_pos(pos: Cube) -> (r: Cube)
        ensures
            r == torus_pos(torus_index(pos.x as int, pos.y as int)),
            torus_index(r.x as int, r.y as int) == torus_index(pos.x as int, pos.y as int),
            0 <= r.x < 32,
            -63 < r.y <= 0,
    {
        let i = Self::index(pos);
        proof {
            lemma_torus_pos_index(i as int);
        }
        Self::pos_from_index(i)
    }

    /// Whether two positions address the same cell.
    pub fn is_same_pos(&self, pos1: Cube, pos2: Cube) -> (r: bool)
        ensures
            r == (torus_index(pos1.x as int, pos1.y as int) == torus_index(pos2.x as int, pos2.y as int)),
    {
        Self::index(pos1) == Self::index(pos2)
    }

    pub fn set_cell(&mut self, pos: Cube, cell: CellT)
        requires
            old(self)@.len() == cells_len(),
        ensures
            final(self)@ == old(self)@.update(torus_index(pos.x as int, pos.y as int), cell),
    {
        let i = Self::index(pos);
        self.data.set(i, cell);
    }

    pub fn cell(&self, pos: Cube) -> (r: CellT)
        requires
            self@.len() == cells_len(),
        ensures
            r == self.at(pos.x as int, pos.y as int),
    {
        self.data[Self::index(pos)]
    }

    /// The six neighbouring cells, clockwise from north-west.
    pub fn neighbours(&self, center_pos: Cube) -> (r: [CellT; 6])
        requires
            self@.len() == cells_len(),
            fits_i32(center_pos.x - 1) && fits_i32(center_pos.x + 1),
            fits_i32(center_pos.y - 1) && fits_i32(center_pos.y + 1),
        ensures
            forall|i: int|
                0 <= i < 6 ==> #[trigger] r@[i] == self.at(
                    center_pos.x + Direction::from_idx(i).dx(),
                    center_pos.y + Direction::from_idx(i).dy(),
                ),
    {
        [
            self.cell(center_pos.add_direction(Direction::NorthWest)),
            self.cell(center_pos.add_direction(Direction::NorthEast)),
            self.cell(center_pos.add_direction(Direction::East)),
            self.cell(center_pos.add_direction(Direction::SouthEast)),
            self.cell(center_pos.add_direction(Direction::SouthWest)),
            self.cell(center_pos.add_direction(Direction::West)),
        ]
    }

    /// The cell at (q, r) of the storage with its six neighbours.
    fn neighbourhood_qr(&self, q: i32, r: i32) -> (n: Neighbourhood<CellT>)
        requires
            self@.len() == cells_len(),
            0 <= q < 32,
            0 <= r < 32,
        ensures
            self.is_neighbourhood(q as int, -q - r, n),
    {
        let center_pos = Cube { x: q, y: -r - q };
        let neighbours = self.neighbours(center_pos);
        let center = self.cell(center_pos);
        Neighbourhood { center, neighbours }
    }

    /// Iterate over all cells (in storage order), yielding each cell with its
    /// six neighbours.
    pub fn iter_radius_1(&self) -> (r: NeighbourIter<'_, CellT>)
        requires
            self@.len() == cells_len(),
        ensures
            r.tile() == self,
            r.position() == 0,
    {
        NeighbourIter { tile: self, q: 0, r: 0 }
    }

    /// The neighbourhoods of all cells, in storage order.
    pub fn neighbourhoods(&self) -> (r: Vec<Neighbourhood<CellT>>)
        requires
            self@.len() == cells_len(),
        ensures
            r@.len() == cells_len(),
            forall|i: int|
                0 <= i < cells_len() ==> self.is_neighbourhood(
                    torus_pos(i).x as int,
                    torus_pos(i).y as int,
                    #[trigger] r@[i],
                ),
            forall|i: int| 0 <= i < cells_len() ==> #[trigger] r@[i] == self.nh_of_index(i),
    {
        let mut out: Vec<Neighbourhood<CellT>> = Vec::new();
        let mut it = self.iter_radius_1();
        while out.len() < 1024
            invariant
                self@.len() == cells_len(),
                it.tile() == self,
                out@.len() <= 1024,
                it.position() == out@.len(),
                forall|i: int|
                    0 <= i < out@.len() ==> self.is_neighbourhood(
                        torus_pos(i).x as int,
                        torus_pos(i).y as int,
                        #[trigger] out@[i],
                    ),
            decreases 1024 - out@.len(),
        {
            let next = it.next();
            match next {
                Some(n) => {
                    out.push(n);
                },
                None => {
                    assert(false);
                },
            }
        }
        proof {
            assert forall|i: int| 0 <= i < cells_len() implies #[trigger] out@[i] == self.nh_of_index(
                i,
            ) by {
                self.lemma_nh_unique(i, out@[i]);
            }
        }
        out
    }

    /// All cells, in storage order.
    pub fn iter_cells(&self) -> (r: &[CellT])
        ensures
            r@ == self@,
    {
        self.data.as_slice()
    }
}

/// Iterator over the neighbourhoods of all cells of a tile, in storage order.
pub struct NeighbourIter<'t, CellT: Copy> {
    tile: &'t TorusTile<CellT>,
    q: i32,
    r: i32,
}

impl<'t, CellT: Copy> NeighbourIter<'t, CellT> {
    pub closed spec fn tile(self) -> TorusTile<CellT> {
        *self.tile
    }

    /// Number of neighbourhoods yielded so far.
    pub closed spec fn position(self) -> int {
        self.r * 32 + self.q
    }

    #[verifier::type_invariant]
    spec fn inv(self) -> bool {
        &&& 0 <= self.q < 32
        &&& 0 <= self.r <= 32
        &&& self.r == 32 ==> self.q == 0
        &&& self.tile@.len() == cells_len()
    }

    /// The next neighbourhood, or `None` after the last cell.
    pub fn next(&mut self) -> (r: Option<Neighbourhood<CellT>>)
        ensures
            final(self).tile() == old(self).tile(),
            old(self).position() >= cells_len() ==> r is None && final(self).position()
                == old(self).position(),
            old(self).position() < cells_len() ==> final(self).position() == old(self).position()
                + 1,
            old(self).position() < cells_len() ==> (r matches Some(n) && old(
                self,
            ).tile().is_neighbourhood(
                torus_pos(old(self).position()).x as int,
                torus_pos(old(self).position()).y as int,
                n,
            )),
    {
        proof {
            use_type_invariant(&*self);
        }
        if self.r >= SIZE as i32 {
            return None;
        }
        let (q, r) = (self.q, self.r);
        let n = self.tile.neighbourhood_qr(q, r);
        if q + 1 >= SIZE as i32 {
            self.q = 0;
            self.r = r + 1;
        } else {
            self.q = q + 1;
        }
        proof {
            let p = r * 32 + q;
            assert(p % 32 == q);
            assert(p / 32 == r);
        }
        Some(n)
    }

    /// The number of neighbourhoods not yet yielded, as lower and upper bound.
    /// Exact: both bounds are the count left.
    pub fn size_hint(&self) -> (r: (usize, Option<usize>))
        ensures
            r == ((cells_len() - self.position()) as usize, Some((cells_len() - self.position()) as usize)),
    {
        proof {
            use_type_invariant(self);
        }
        let done: usize = (self.r * 32 + self.q) as usize;
        let left: usize = (SIZE * SIZE) as usize - done;
        (left, Some(left))
    }
}

} // verus!
