//! Rectangular map storage in axial coordinates (a parallelogram of hexagons).
use vstd::prelude::*;

use crate::coords::{fits_i32, Cube, Direction, Neighbourhood, Rectangle};
use crate::rng::{below_i32_draw, random_below, SimRng};

verus! {

/// Position in storage of the cell at axial coordinates (q, r).
pub open spec fn tile_index(width: int, q: int, r: int) -> int {
    r * width + q
}

/// Cube coordinates of the cell stored at position `i`.
pub open spec fn pos_of_index(width: int, i: int) -> Cube {
    Cube { x: (i % width) as i32, y: (-(i % width) - i / width) as i32 }
}

/// The position that a random draw on a tile `width` wide and `height` high
/// gives from the generator in state `rng` (first the column, then the row,
/// each uniformly), and the generator's next state.
pub open spec fn pos_drawn(rng: SimRng, width: i32, height: i32) -> (Cube, SimRng) {
    let dq = below_i32_draw(rng, width);
    let dr = below_i32_draw(dq.1, height);
    (Cube { x: dq.0, y: (-dq.0 - dr.0) as i32 }, dr.1)
}

/// Row offset (axial r, the cube z axis) of a step in direction `d`.
pub open spec fn dz(d: Direction) -> int {
    -(d.dx() + d.dy())
}

pub proof fn lemma_index_bound(width: int, height: int, q: int, r: int)
    by (nonlinear_arith)
    requires
        0 <= q < width,
        0 <= r < height,
    ensures
        0 <= r * width + q < height * width,
        r * width + q < (r + 1) * width,
{
}

proof fn lemma_edges_zero_width<CellT: Copy>(t: AxialTile<CellT>, p: spec_fn(CellT) -> bool, re: int)
    requires
        t.spec_width() < 2,
    ensures
        t.edges_upto(p, re) == 0,
    decreases re,
{
    if re > 1 {
        lemma_edges_zero_width(t, p, re - 1);
    }
}

/// What `set_cell` at (q, r) changes.
pub proof fn lemma_set_cell_at<CellT: Copy>(old_tile: AxialTile<CellT>, new_tile: AxialTile<CellT>, q: int, r: int, v: CellT)
    requires
        old_tile.well_sized(),
        0 <= q < old_tile.spec_width(),
        0 <= r < old_tile.spec_height(),
        new_tile.spec_width() == old_tile.spec_width(),
        new_tile.spec_height() == old_tile.spec_height(),
        new_tile@ == old_tile@.update(tile_index(old_tile.spec_width(), q, r), v),
    ensures
        new_tile.at(q, r) == v,
        forall|qq: int, rr: int|
            0 <= qq < old_tile.spec_width() && 0 <= rr < old_tile.spec_height() && (qq != q || rr != r)
                ==> #[trigger] new_tile.at(qq, rr) == old_tile.at(qq, rr),
{
    let w = old_tile.spec_width();
    let h = old_tile.spec_height();
    lemma_index_bound(w, h, q, r);
    assert forall|qq: int, rr: int|
        0 <= qq < w && 0 <= rr < h && (qq != q || rr != r) implies #[trigger] new_tile.at(qq, rr)
        == old_tile.at(qq, rr) by {
        lemma_index_bound(w, h, qq, rr);
        lemma_index_decompose(w, qq, rr);
        lemma_index_decompose(w, q, r);
    }
}

pub proof fn lemma_dims(width: int, height: int, idx: int)
    by (nonlinear_arith)
    requires
        1 <= width,
        1 <= height,
        0 <= idx < height * width || idx == 0,
    ensures
        0 <= idx / width < height,
        0 <= idx % width < width,
        width + height <= height * width + 1,
{
}

/// The cell at storage position `i` is the one at column `i % width`, row
/// `i / width`.
pub proof fn lemma_at_index<CellT: Copy>(t: AxialTile<CellT>, i: int)
    requires
        t.well_sized(),
        0 <= i < t@.len(),
    ensures
        0 <= i % t.spec_width() < t.spec_width(),
        0 <= i / t.spec_width() < t.spec_height(),
        t.at(i % t.spec_width(), i / t.spec_width()) == t@[i],
{
    let w = t.spec_width() as int;
    let h = t.spec_height() as int;
    lemma_dims(w, h, i);
    assert(i == (i / w) * w + i % w) by (nonlinear_arith)
        requires
            w >= 1,
    ;
}

proof fn lemma_index_shift(width: int, q: int, r: int, dq: int, dr: int)
    by (nonlinear_arith)
    ensures
        (r + dr) * width + (q + dq) == r * width + q + width * dr + dq,
{
}

proof fn lemma_index_decompose(width: int, q: int, r: int)
    by (nonlinear_arith)
    requires
        0 <= q < width,
        0 <= r,
    ensures
        (r * width + q) % width == q,
        (r * width + q) / width == r,
{
}

/// The predicate that answers the opposite of `p`.
pub open spec fn negated<C>(p: spec_fn(C) -> bool) -> spec_fn(C) -> bool {
    |c: C| !p(c)
}

/// The answer of a pure predicate `f` for `c`.
pub open spec fn pred_of<CellT, F: Fn(CellT) -> bool>(f: F, c: CellT) -> bool {
    choose|b: bool| f.ensures((c,), b)
}

/// A rule of a cellular automaton: the new value of a cell from its neighbourhood.
pub trait CellRule<C: Copy, D: Copy> {
    /// Whether the rule can be applied to `nh`.
    spec fn applicable(&self, nh: Neighbourhood<C>) -> bool;

    /// Whether `d` is a new value that the rule allows for the center of `nh`.
    spec fn gives(&self, nh: Neighbourhood<C>, d: D) -> bool;

    fn apply(&self, nh: Neighbourhood<C>) -> (r: D)
        requires
            self.applicable(nh),
        ensures
            self.gives(nh, r),
    ;
}

/// A rule of a cellular automaton that draws random numbers.
pub trait RandomCellRule<C: Copy, D: Copy> {
    /// Whether the rule can be applied to `nh`.
    spec fn applicable(&self, nh: Neighbourhood<C>) -> bool;

    /// Whether `d` is a new value that the rule allows for the center of
    /// `nh`, whatever it drew.
    spec fn gives(&self, nh: Neighbourhood<C>, d: D) -> bool;

    /// The new value of the center of `nh` that `apply` makes
    /// from the generator in state `rng`, and the generator's next state.
    spec fn drawn(&self, nh: Neighbourhood<C>, rng: SimRng) -> (D, SimRng);

    fn apply(&self, nh: Neighbourhood<C>, rng: &mut SimRng) -> (r: D)
        requires
            self.applicable(nh),
        ensures
            self.gives(nh, r),
            (r, *final(rng)) == self.drawn(nh, *old(rng)),
    ;
}

/// A `width` x `height` parallelogram of cells, stored row by row (axial r),
/// each row from west to east (axial q).
pub struct AxialTile<CellT: Copy> {
    width: i32,
    height: i32,
    data: Vec<CellT>,
}

impl<CellT: Copy> View for AxialTile<CellT> {
    type V = Seq<CellT>;

    closed spec fn view(&self) -> Seq<CellT> {
        self.data@
    }
}

impl<CellT: Copy> AxialTile<CellT> {
    pub closed spec fn spec_width(self) -> int {
        self.width as int
    }

    pub closed spec fn spec_height(self) -> int {
        self.height as int
    }

    /// The tile's dimensions, as established by every constructor.
    pub open spec fn well_sized(self) -> bool {
        &&& 0 < self.spec_width()
        &&& 0 < self.spec_height()
        &&& self.spec_height() * self.spec_width() <= i32::MAX
        &&& self@.len() == self.spec_height() * self.spec_width()
    }

    /// Whether a position lies on the tile.
    pub open spec fn valid_spec(self, pos: Cube) -> bool {
        0 <= pos.x < self.spec_width() && 0 <= pos.spec_z() < self.spec_height()
    }

    /// The cell at axial coordinates (q, r).
    pub open spec fn at(self, q: int, r: int) -> CellT {
        self@[tile_index(self.spec_width(), q, r)]
    }

    /// The cell at `pos`, if the position lies on the tile.
    pub open spec fn cell_spec(self, pos: Cube) -> Option<CellT> {
        if self.valid_spec(pos) {
            Some(self.at(pos.x as int, pos.spec_z()))
        } else {
            None
        }
    }

    /// Whether (q, r) is an interior cell: one with all six neighbours on the tile.
    pub open spec fn interior(self, q: int, r: int) -> bool {
        1 <= q < self.spec_width() - 1 && 1 <= r < self.spec_height() - 1
    }

    /// Whether `n` holds the cell at (q, r) and its six neighbours.
    pub open spec fn is_neighbourhood(self, q: int, r: int, n: Neighbourhood<CellT>) -> bool {
        &&& n.center == self.at(q, r)
        &&& forall|i: int|
            0 <= i < 6 ==> #[trigger] n.neighbours@[i] == self.at(
                q + Direction::from_idx(i).dx(),
                r + dz(Direction::from_idx(i)),
            )
    }

    /// The neighbourhood of the interior cell at (q, r).
    pub open spec fn nh_at(self, q: int, r: int) -> Neighbourhood<CellT> {
        choose|n: Neighbourhood<CellT>| self.is_neighbourhood(q, r, n)
    }

    /// Every position has a neighbourhood (of the cells that `at` gives).
    pub proof fn lemma_nh_exists(self, q: int, r: int)
        ensures
            self.is_neighbourhood(q, r, self.nh_at(q, r)),
    {
        let n = Neighbourhood {
            center: self.at(q, r),
            neighbours: [
                self.at(q, r - 1),
                self.at(q + 1, r - 1),
                self.at(q + 1, r),
                self.at(q, r + 1),
                self.at(q - 1, r + 1),
                self.at(q - 1, r),
            ],
        };
        assert(self.is_neighbourhood(q, r, n));
    }

    /// A neighbourhood is determined by the tile and the position.
    pub proof fn lemma_nh_unique(self, q: int, r: int, n: Neighbourhood<CellT>)
        requires
            self.is_neighbourhood(q, r, n),
        ensures
            self.nh_at(q, r) == n,
    {
        broadcast use vstd::array::group_array_axioms;

        let m = self.nh_at(q, r);
        assert(self.is_neighbourhood(q, r, m));
        assert forall|i: int| 0 <= i < 6 implies m.neighbours[i] == n.neighbours[i] by {
            assert(m.neighbours@[i] == n.neighbours@[i]);
        }
        assert(m.neighbours =~= n.neighbours);
    }

    /// Wraps existing cell data, stored row by row.
    pub(crate) fn new_internal(width: i32, height: i32, data: Vec<CellT>) -> (r: Self)
        requires
            width > 0 && height > 0,
            height * width <= i32::MAX,
            data@.len() == height * width,
        ensures
            r.spec_width() == width,
            r.spec_height() == height,
            r@ == data@,
            r.well_sized(),
    {
        AxialTile { width, height, data }
    }

    /// A tile of the given size holding `data` (row by row), or `None` where
    /// the size is not positive, too large, or does not match `data`.
    pub fn from_parts(width: i32, height: i32, data: Vec<CellT>) -> (r: Option<Self>)
        ensures
            r is Some <==> (width > 0 && height > 0 && height * width <= i32::MAX && data@.len() == height
                * width),
            r matches Some(t) ==> t.well_sized() && t.spec_width() == width && t.spec_height() == height
                && t@ == data@,
    {
        if width <= 0 || height <= 0 {
            return None;
        }
        assert(width as u64 * height as u64 <= 0x4000_0000_0000_0000) by (nonlinear_arith)
            requires
                0 < width <= i32::MAX,
                0 < height <= i32::MAX,
        ;
        let n: u64 = width as u64 * height as u64;
        assert(n as int == height * width) by (nonlinear_arith)
            requires
                n as int == width as int * height as int,
        ;
        if n > i32::MAX as u64 {
            return None;
        }
        if data.len() as u64 != n {
            return None;
        }
        Some(AxialTile { width, height, data })
    }

    /// A copy of the tile.
    pub fn duplicate(&self) -> (r: Self)
        requires
            self.well_sized(),
        ensures
            r.spec_width() == self.spec_width(),
            r.spec_height() == self.spec_height(),
            r@ == self@,
            r.well_sized(),
    {
        let mut data: Vec<CellT> = Vec::new();
        let mut i: usize = 0;
        while i < self.data.len()
            invariant
                0 <= i <= self.data@.len(),
                data@ == self.data@.subrange(0, i as int),
            decreases self.data@.len() - i,
        {
            data.push(self.data[i]);
            i = i + 1;
        }
        assert(data@ =~= self.data@);
        AxialTile { width: self.width, height: self.height, data }
    }

    /// A tile with every cell set to `fill`.
    pub fn new(width: i32, height: i32, fill: CellT) -> (r: Self)
        requires
            width > 0 && height > 0,
            height * width <= i32::MAX,
        ensures
            r.spec_width() == width,
            r.spec_height() == height,
            r.well_sized(),
            forall|i: int| 0 <= i < r@.len() ==> #[trigger] r@[i] == fill,
    {
        let n: usize = (width as usize) * (height as usize);
        let mut data: Vec<CellT> = Vec::new();
        while data.len() < n
            invariant
                data@.len() <= n,
                forall|i: int| 0 <= i < data@.len() ==> #[trigger] data@[i] == fill,
            decreases n - data@.len(),
        {
            data.push(fill);
        }
        assert(n == height * width) by (nonlinear_arith)
            requires
                n == width * height,
        ;
        Self::new_internal(width, height, data)
    }

    /// A tile whose cell at each position is what `cb` gives for that position.
    pub fn from_fn(width: i32, height: i32, cb: impl Fn(Cube) -> CellT) -> (r: Self)
        requires
            width > 0 && height > 0,
            height * width <= i32::MAX,
            forall|p: Cube| cb.requires((p,)),
        ensures
            r.spec_width() == width,
            r.spec_height() == height,
            r.well_sized(),
            forall|i: int|
                0 <= i < r@.len() ==> cb.ensures((pos_of_index(width as int, i),), #[trigger] r@[i]),
    {
        let n: i32 = width * height;
        let mut data: Vec<CellT> = Vec::new();
        let mut idx: i32 = 0;
        while idx < n
            invariant
                0 <= idx <= n,
                n == width * height,
                width > 0,
                height > 0,
                height * width <= i32::MAX,
                data@.len() == idx,
                forall|p: Cube| cb.requires((p,)),
                forall|i: int|
                    0 <= i < idx ==> cb.ensures(
                        (pos_of_index(width as int, i),),
                        #[trigger] data@[i],
                    ),
            decreases n - idx,
        {
            proof {
                assert(n == height * width) by (nonlinear_arith)
                    requires
                        n == width * height,
                ;
                lemma_dims(width as int, height as int, idx as int);
            }
            let r: i32 = idx / width;
            let q: i32 = idx % width;
            let pos = Cube { x: q, y: -q - r };
            assert(pos == pos_of_index(width as int, idx as int));
            data.push(cb(pos));
            idx = idx + 1;
        }
        assert(n == height * width) by (nonlinear_arith)
            requires
                n == width * height,
        ;
        Self::new_internal(width, height, data)
    }

    fn index(&self, pos: Cube) -> (r: usize)
        requires
            self.well_sized(),
            self.valid_spec(pos),
        ensures
            r == tile_index(self.spec_width(), pos.x as int, pos.spec_z()),
            r < self@.len(),
    {
        proof {
                        lemma_index_bound(self.width as int, self.height as int, pos.x as int, pos.spec_z());
        }
        let q = pos.x;
        let r = pos.z();
        (r * self.width + q) as usize
    }

    /// Number of cells per row.
    pub fn width(&self) -> (r: i32)
        ensures
            r == self.spec_width(),
    {
        self.width
    }

    /// Number of rows.
    pub fn height(&self) -> (r: i32)
        ensures
            r == self.spec_height(),
    {
        self.height
    }

    /// Whether the position lies on the tile.
    pub fn valid(&self, pos: Cube) -> (r: bool)
        ensures
            r == self.valid_spec(pos),
    {
        let q: i64 = pos.x as i64;
        let r: i64 = -(pos.x as i64) - pos.y as i64;
        (q >= 0 && q < self.width as i64) && (r >= 0 && r < self.height as i64)
    }

    pub fn set_cell(&mut self, pos: Cube, cell: CellT)
        requires
            old(self).well_sized(),
            old(self).valid_spec(pos),
        ensures
            final(self).spec_width() == old(self).spec_width(),
            final(self).spec_height() == old(self).spec_height(),
            final(self)@ == old(self)@.update(
                tile_index(old(self).spec_width(), pos.x as int, pos.spec_z()),
                cell,
            ),
            final(self).well_sized(),
    {
        let idx = self.index(pos);
        self.data.set(idx, cell);
    }

    /// The cell at a position, or `None` off the tile.
    pub fn cell(&self, pos: Cube) -> (r: Option<CellT>)
        requires
            self.well_sized(),
        ensures
            r == (if self.valid_spec(pos) {
                Some(self.at(pos.x as int, pos.spec_z()))
            } else {
                None
            }),
    {
        if self.valid(pos) {
            Some(self.data[self.index(pos)])
        } else {
            None
        }
    }

    /// The six neighbouring cells (or `None` off the tile), with their directions.
    pub fn neighbours(&self, center_pos: Cube) -> (r: [(Direction, Option<CellT>); 6])
        requires
            self.well_sized(),
            fits_i32(center_pos.x - 1) && fits_i32(center_pos.x + 1),
            fits_i32(center_pos.y - 1) && fits_i32(center_pos.y + 1),
        ensures
            forall|i: int|
                0 <= i < 6 ==> {
                    let d = Direction::from_idx(i);
                    let p = Cube {
                        x: (center_pos.x + d.dx()) as i32,
                        y: (center_pos.y + d.dy()) as i32,
                    };
                    #[trigger] r@[i] == (d, if self.valid_spec(p) {
                        Some(self.at(p.x as int, p.spec_z()))
                    } else {
                        None
                    })
                },
    {
        let d0 = Direction::NorthWest;
        let d1 = Direction::NorthEast;
        let d2 = Direction::East;
        let d3 = Direction::SouthEast;
        let d4 = Direction::SouthWest;
        let d5 = Direction::West;
        [
            (d0, self.cell(center_pos.add_direction(d0))),
            (d1, self.cell(center_pos.add_direction(d1))),
            (d2, self.cell(center_pos.add_direction(d2))),
            (d3, self.cell(center_pos.add_direction(d3))),
            (d4, self.cell(center_pos.add_direction(d4))),
            (d5, self.cell(center_pos.add_direction(d5))),
        ]
    }

    /// All cells, in storage order (row by row).
    pub fn iter_cells(&self) -> (r: &[CellT])
        ensures
            r@ == self@,
    {
        self.data.as_slice()
    }

    /// All cells, in storage order (row by row), to change in place.
    pub fn iter_cells_mut(&mut self) -> (r: &mut [CellT])
        ensures
            r@ == old(self)@,
            final(self)@ == final(r)@,
            final(self).spec_width() == old(self).spec_width(),
            final(self).spec_height() == old(self).spec_height(),
    {
        self.data.as_mut_slice()
    }

    /// Number of cells.
    pub fn area(&self) -> (r: i32)
        requires
            self.well_sized(),
        ensures
            r == self.spec_width() * self.spec_height(),
            r == self@.len(),
    {
        proof {
                        assert(self.width * self.height == self.height * self.width) by (nonlinear_arith);
        }
        self.width * self.height
    }

    /// A random position on the tile.
    pub fn random_pos(&self, rng: &mut SimRng) -> (r: Cube)
        requires
            self.well_sized(),
        ensures
            self.valid_spec(r),
            (r, *final(rng)) == pos_drawn(*old(rng), self.spec_width() as i32, self.spec_height() as i32),
    {
        proof {
            lemma_dims(self.width as int, self.height as int, 0);
        }
        let x = random_below(rng, self.width);
        let y = -x - random_below(rng, self.height);
        Cube { x, y }
    }

    fn neighbourhood_rq(&self, r: i32, q: i32) -> (n: Neighbourhood<CellT>)
        requires
            self.well_sized(),
            self.interior(q as int, r as int),
        ensures
            self.is_neighbourhood(q as int, r as int, n),
    {
        let w = self.width;
        proof {
            let (wi, hi, qi, ri) = (w as int, self.height as int, q as int, r as int);
            lemma_index_bound(wi, hi, qi, ri);
            lemma_index_bound(wi, hi, qi, ri - 1);
            lemma_index_bound(wi, hi, qi + 1, ri - 1);
            lemma_index_bound(wi, hi, qi + 1, ri);
            lemma_index_bound(wi, hi, qi, ri + 1);
            lemma_index_bound(wi, hi, qi - 1, ri + 1);
            lemma_index_bound(wi, hi, qi - 1, ri);
            lemma_index_shift(wi, qi, ri, 0, -1);
            lemma_index_shift(wi, qi, ri, 1, -1);
            lemma_index_shift(wi, qi, ri, 1, 0);
            lemma_index_shift(wi, qi, ri, 0, 1);
            lemma_index_shift(wi, qi, ri, -1, 1);
            lemma_index_shift(wi, qi, ri, -1, 0);
            assert(ri * wi + qi - wi == (ri - 1) * wi + qi);
            assert(ri * wi + qi - wi + 1 == (ri - 1) * wi + qi + 1);
            assert(ri * wi + qi + wi == (ri + 1) * wi + qi);
            assert(ri * wi + qi + wi - 1 == (ri + 1) * wi + qi - 1);
        }
        let index: i32 = r * w + q;
        let n = Neighbourhood {
            center: self.data[index as usize],
            neighbours: [
                self.data[(index - w) as usize],
                self.data[(index - w + 1) as usize],
                self.data[(index + 1) as usize],
                self.data[(index + w) as usize],
                self.data[(index + w - 1) as usize],
                self.data[(index - 1) as usize],
            ],
        };
        proof {
            assert forall|i: int| 0 <= i < 6 implies #[trigger] n.neighbours@[i] == self.at(
                q + Direction::from_idx(i).dx(),
                r + dz(Direction::from_idx(i)),
            ) by {
                let d = Direction::from_idx(i);
                lemma_index_shift(w as int, q as int, r as int, d.dx(), dz(d));
            }
        }
        n
    }

    /// The cell at `pos` with its six neighbours, if all of them lie on the tile.
    pub fn neighbourhood(&self, pos: Cube) -> (r: Option<Neighbourhood<CellT>>)
        requires
            self.well_sized(),
        ensures
            r is Some <==> self.interior(pos.x as int, pos.spec_z()),
            r matches Some(n) ==> self.is_neighbourhood(pos.x as int, pos.spec_z(), n),
    {
        let q: i64 = pos.x as i64;
        let r: i64 = -(pos.x as i64) - pos.y as i64;
        let r_outside = r < 1 || r > self.height as i64 - 2;
        let q_outside = q < 1 || q > self.width as i64 - 2;
        if r_outside || q_outside {
            return None;
        }
        Some(self.neighbourhood_rq(r as i32, q as i32))
    }

    /// The neighbourhoods of all interior cells, row by row.
    pub fn iter_valid_neighbourhoods(&self) -> (r: Vec<Neighbourhood<CellT>>)
        requires
            self.well_sized(),
        ensures
            self.spec_width() >= 2 && self.spec_height() >= 2 ==> r@.len() == (self.spec_height()
                - 2) * (self.spec_width() - 2),
            self.spec_width() < 2 || self.spec_height() < 2 ==> r@.len() == 0,
            forall|rr: int, qq: int|
                1 <= rr < self.spec_height() - 1 && 1 <= qq < self.spec_width() - 1
                    ==> self.is_neighbourhood(
                    qq,
                    rr,
                    #[trigger] r@[(rr - 1) * (self.spec_width() - 2) + (qq - 1)],
                ),
    {
        let w = self.width;
        let h = self.height;
        let mut out: Vec<Neighbourhood<CellT>> = Vec::new();
        if w < 2 || h < 2 {
            return out;
        }
        let iw: i32 = w - 2;
        let mut r: i32 = 1;
        while r < h - 1
            invariant
                self.well_sized(),
                w == self.width,
                h == self.height,
                iw == w - 2,
                w >= 2,
                h >= 2,
                1 <= r <= h - 1,
                out@.len() == (r - 1) * iw,
                forall|rr: int, qq: int|
                    1 <= rr < r && 1 <= qq < w - 1 ==> self.is_neighbourhood(
                        qq,
                        rr,
                        #[trigger] out@[(rr - 1) * iw + (qq - 1)],
                    ),
            decreases h - r,
        {
            let mut q: i32 = 1;
            while q < w - 1
                invariant
                    self.well_sized(),
                    w == self.width,
                    h == self.height,
                    iw == w - 2,
                    1 <= r < h - 1,
                    1 <= q <= w - 1,
                    out@.len() == (r - 1) * iw + (q - 1),
                    forall|rr: int, qq: int|
                        (1 <= rr < r && 1 <= qq < w - 1) || (rr == r && 1 <= qq < q)
                            ==> self.is_neighbourhood(
                            qq,
                            rr,
                            #[trigger] out@[(rr - 1) * iw + (qq - 1)],
                        ),
                decreases w - 1 - q,
            {
                let ghost old_out = out@;
                out.push(self.neighbourhood_rq(r, q));
                proof {
                    assert forall|rr: int, qq: int|
                        (1 <= rr < r && 1 <= qq < w - 1) || (rr == r && 1 <= qq < q + 1)
                            implies self.is_neighbourhood(
                            qq,
                            rr,
                            #[trigger] out@[(rr - 1) * iw + (qq - 1)],
                        ) by {
                        if rr < r {
                            lemma_index_bound(iw as int, r - 1, qq - 1, rr - 1);
                            assert(out@[(rr - 1) * iw + (qq - 1)] == old_out[(rr - 1) * iw + (qq
                                - 1)]);
                        } else if qq < q {
                            assert(out@[(rr - 1) * iw + (qq - 1)] == old_out[(rr - 1) * iw + (qq
                                - 1)]);
                        }
                    }
                }
                q = q + 1;
            }
            assert(r * iw == (r - 1) * iw + iw) by (nonlinear_arith);
            r = r + 1;
        }
        out
    }

    /// Cellular automaton step: every interior cell of the result is what
    /// `rule` gives for its neighbourhood; the border cells are `fill`.
    pub fn ca_step<Cell2: Copy>(&self, fill: Cell2, rule: impl Fn(Neighbourhood<CellT>) -> Cell2) -> (r:
        AxialTile<Cell2>)
        requires
            self.well_sized(),
            forall|n: Neighbourhood<CellT>| rule.requires((n,)),
        ensures
            r.spec_width() == self.spec_width(),
            r.spec_height() == self.spec_height(),
            r.well_sized(),
            forall|q: int, rr: int|
                0 <= q < self.spec_width() && 0 <= rr < self.spec_height() && !self.interior(q, rr)
                    ==> #[trigger] r.at(q, rr) == fill,
            forall|q: int, rr: int|
                self.interior(q, rr) ==> rule.ensures((self.nh_at(q, rr),), #[trigger] r.at(q, rr)),
    {
        let w = self.width;
        let h = self.height;
        let mut result = AxialTile::new(w, h, fill);
        proof {
            assert forall|q: int, rr: int| 0 <= q < w && 0 <= rr < h implies #[trigger] result.at(
                q,
                rr,
            ) == fill by {
                lemma_index_bound(w as int, h as int, q, rr);
            }
        }
        let mut r: i32 = 1;
        while r < h - 1
            invariant
                self.well_sized(),
                w == self.width,
                h == self.height,
                1 <= r,
                r <= h - 1 || h < 2,
                result.spec_width() == w,
                result.spec_height() == h,
                result.well_sized(),
                forall|n: Neighbourhood<CellT>| rule.requires((n,)),
                forall|q: int, rr: int|
                    0 <= q < w && 0 <= rr < h && !(self.interior(q, rr) && rr < r) ==> #[trigger] result.at(
                        q,
                        rr,
                    ) == fill,
                forall|q: int, rr: int|
                    self.interior(q, rr) && rr < r ==> rule.ensures(
                        (self.nh_at(q, rr),),
                        #[trigger] result.at(q, rr),
                    ),
            decreases h - r,
        {
            let mut q: i32 = 1;
            while q < w - 1
                invariant
                    self.well_sized(),
                    w == self.width,
                    h == self.height,
                    1 <= r < h - 1,
                    1 <= q,
                    q <= w - 1 || w < 2,
                    result.spec_width() == w,
                    result.spec_height() == h,
                    result.well_sized(),
                    forall|n: Neighbourhood<CellT>| rule.requires((n,)),
                    forall|qq: int, rr: int|
                        0 <= qq < w && 0 <= rr < h && !(self.interior(qq, rr) && (rr < r || (rr
                            == r && qq < q))) ==> #[trigger] result.at(qq, rr) == fill,
                    forall|qq: int, rr: int|
                        self.interior(qq, rr) && (rr < r || (rr == r && qq < q)) ==> rule.ensures(
                            (self.nh_at(qq, rr),),
                            #[trigger] result.at(qq, rr),
                        ),
                decreases w - q,
            {
                let nh = self.neighbourhood_rq(r, q);
                proof {
                    self.lemma_nh_unique(q as int, r as int, nh);
                    lemma_dims(w as int, h as int, 0);
                }
                let v = rule(nh);
                let ghost old_result = result;
                let pos = Cube { x: q, y: -q - r };
                result.set_cell(pos, v);
                proof {
                    assert forall|qq: int, rr: int|
                        0 <= qq < w && 0 <= rr < h && (qq != q || rr != r) implies #[trigger] result.at(
                            qq,
                            rr,
                        ) == old_result.at(qq, rr) by {
                        lemma_index_bound(w as int, h as int, qq, rr);
                        lemma_index_bound(w as int, h as int, q as int, r as int);
                        lemma_index_decompose(w as int, qq, rr);
                        lemma_index_decompose(w as int, q as int, r as int);
                    }
                    lemma_index_bound(w as int, h as int, q as int, r as int);
                    assert(result.at(q as int, r as int) == v);
                }
                q = q + 1;
            }
            r = r + 1;
        }
        result
    }

    /// Cellular automaton step with a rule of the library: every interior
    /// cell of the result is a value that `rule` gives for its neighbourhood; the
    /// border cells are `fill`.
    pub fn ca_step_rule<Cell2: Copy, R: CellRule<CellT, Cell2>>(&self, fill: Cell2, rule: &R) -> (r:
        AxialTile<Cell2>)
        requires
            self.well_sized(),
            forall|q: int, rr: int| self.interior(q, rr) ==> rule.applicable(#[trigger] self.nh_at(q, rr)),
        ensures
            r.spec_width() == self.spec_width(),
            r.spec_height() == self.spec_height(),
            r.well_sized(),
            forall|q: int, rr: int|
                0 <= q < self.spec_width() && 0 <= rr < self.spec_height() && !self.interior(q, rr)
                    ==> #[trigger] r.at(q, rr) == fill,
            forall|q: int, rr: int|
                self.interior(q, rr) ==> rule.gives(self.nh_at(q, rr), #[trigger] r.at(q, rr)),
    {
        let w = self.width;
        let h = self.height;
        let mut result = AxialTile::new(w, h, fill);
        proof {
            assert forall|q: int, rr: int| 0 <= q < w && 0 <= rr < h implies #[trigger] result.at(
                q,
                rr,
            ) == fill by {
                lemma_index_bound(w as int, h as int, q, rr);
            }
        }
        let mut r: i32 = 1;
        while r < h - 1
            invariant
                self.well_sized(),
                forall|q: int, rr: int| self.interior(q, rr) ==> rule.applicable(#[trigger] self.nh_at(q, rr)),
                w == self.width,
                h == self.height,
                1 <= r,
                r <= h - 1 || h < 2,
                result.spec_width() == w,
                result.spec_height() == h,
                result.well_sized(),
                    forall|q: int, rr: int|
                    0 <= q < w && 0 <= rr < h && !(self.interior(q, rr) && rr < r) ==> #[trigger] result.at(
                        q,
                        rr,
                    ) == fill,
                forall|q: int, rr: int|
                    self.interior(q, rr) && rr < r ==> rule.gives(self.nh_at(q, rr), #[trigger] result.at(q, rr)),
            decreases h - r,
        {
            let mut q: i32 = 1;
            while q < w - 1
                invariant
                    self.well_sized(),
                    forall|q: int, rr: int| self.interior(q, rr) ==> rule.applicable(#[trigger] self.nh_at(q, rr)),
                    w == self.width,
                    h == self.height,
                    1 <= r < h - 1,
                    1 <= q,
                    q <= w - 1 || w < 2,
                    result.spec_width() == w,
                    result.spec_height() == h,
                    result.well_sized(),
                            forall|qq: int, rr: int|
                        0 <= qq < w && 0 <= rr < h && !(self.interior(qq, rr) && (rr < r || (rr
                            == r && qq < q))) ==> #[trigger] result.at(qq, rr) == fill,
                    forall|qq: int, rr: int|
                        self.interior(qq, rr) && (rr < r || (rr == r && qq < q)) ==> rule.gives(self.nh_at(qq, rr), #[trigger] result.at(qq, rr)),
                decreases w - q,
            {
                let nh = self.neighbourhood_rq(r, q);
                proof {
                    self.lemma_nh_unique(q as int, r as int, nh);
                    lemma_dims(w as int, h as int, 0);
                }
                let v = rule.apply(nh);
                let ghost old_result = result;
                let pos = Cube { x: q, y: -q - r };
                result.set_cell(pos, v);
                proof {
                    assert forall|qq: int, rr: int|
                        0 <= qq < w && 0 <= rr < h && (qq != q || rr != r) implies #[trigger] result.at(
                            qq,
                            rr,
                        ) == old_result.at(qq, rr) by {
                        lemma_index_bound(w as int, h as int, qq, rr);
                        lemma_index_bound(w as int, h as int, q as int, r as int);
                        lemma_index_decompose(w as int, qq, rr);
                        lemma_index_decompose(w as int, q as int, r as int);
                    }
                    lemma_index_bound(w as int, h as int, q as int, r as int);
                    assert(result.at(q as int, r as int) == v);
                }
                q = q + 1;
            }
            r = r + 1;
        }
        result
    }

    /// The state of the generator, starting in state `rng`, when a random
    /// step (`ca_step_random`) of this tile with `rule` comes to the interior
    /// cell (q, r): the interior cells are visited row by row from (1, 1),
    /// each drawing as `rule.drawn` says. (q, r) = (1, h - 1) gives the state
    /// after the whole step.
    pub open spec fn rng_before<D: Copy, R: RandomCellRule<CellT, D>>(self, rule: &R, rng: SimRng, q: int, r: int) -> SimRng
        decreases r, q,
    {
        if r <= 1 && q <= 1 {
            rng
        } else if q <= 1 {
            self.rng_before(rule, rng, self.spec_width() - 1, r - 1)
        } else {
            rule.drawn(self.nh_at(q - 1, r), self.rng_before(rule, rng, q - 1, r)).1
        }
    }

    /// Cellular automaton step with a rule of the library that draws random
    /// numbers: every interior cell of the result is a value that `rule`
    /// gives for its neighbourhood (cells are visited row by row); the
    /// border cells are `fill`. Each interior cell is what `rule.drawn` makes
    /// of it from the generator's state when the step comes to it
    /// (`rng_before`), and the generator ends where the last one left it.
    pub fn ca_step_random<Cell2: Copy, R: RandomCellRule<CellT, Cell2>>(&self, fill: Cell2, rule: &R, rng: &mut SimRng) -> (r:
        AxialTile<Cell2>)
        requires
            self.well_sized(),
            forall|q: int, rr: int| self.interior(q, rr) ==> rule.applicable(#[trigger] self.nh_at(q, rr)),
        ensures
            r.spec_width() == self.spec_width(),
            r.spec_height() == self.spec_height(),
            r.well_sized(),
            forall|q: int, rr: int|
                0 <= q < self.spec_width() && 0 <= rr < self.spec_height() && !self.interior(q, rr)
                    ==> #[trigger] r.at(q, rr) == fill,
            forall|q: int, rr: int|
                self.interior(q, rr) ==> rule.gives(self.nh_at(q, rr), #[trigger] r.at(q, rr)),
            forall|q: int, rr: int|
                self.interior(q, rr) ==> #[trigger] r.at(q, rr) == rule.drawn(
                    self.nh_at(q, rr),
                    self.rng_before(rule, *old(rng), q, rr),
                ).0,
            *final(rng) == self.rng_before(rule, *old(rng), 1, self.spec_height() - 1),
    {
        let ghost rng0 = *rng;
        let w = self.width;
        let h = self.height;
        let mut result = AxialTile::new(w, h, fill);
        proof {
            assert forall|q: int, rr: int| 0 <= q < w && 0 <= rr < h implies #[trigger] result.at(
                q,
                rr,
            ) == fill by {
                lemma_index_bound(w as int, h as int, q, rr);
            }
        }
        let mut r: i32 = 1;
        while r < h - 1
            invariant
                self.well_sized(),
                forall|q: int, rr: int| self.interior(q, rr) ==> rule.applicable(#[trigger] self.nh_at(q, rr)),
                w == self.width,
                h == self.height,
                1 <= r,
                r <= h - 1 || h < 2,
                h < 2 ==> r == 1,
                result.spec_width() == w,
                result.spec_height() == h,
                result.well_sized(),
                    forall|q: int, rr: int|
                    0 <= q < w && 0 <= rr < h && !(self.interior(q, rr) && rr < r) ==> #[trigger] result.at(
                        q,
                        rr,
                    ) == fill,
                forall|q: int, rr: int|
                    self.interior(q, rr) && rr < r ==> rule.gives(self.nh_at(q, rr), #[trigger] result.at(q, rr)),
                forall|q: int, rr: int|
                    self.interior(q, rr) && rr < r ==> #[trigger] result.at(q, rr) == rule.drawn(
                        self.nh_at(q, rr),
                        self.rng_before(rule, rng0, q, rr),
                    ).0,
                *rng == self.rng_before(rule, rng0, 1, r as int),
            decreases h - r,
        {
            let mut q: i32 = 1;
            while q < w - 1
                invariant
                    self.well_sized(),
                    forall|q: int, rr: int| self.interior(q, rr) ==> rule.applicable(#[trigger] self.nh_at(q, rr)),
                    w == self.width,
                    h == self.height,
                    1 <= r < h - 1,
                    1 <= q,
                    q <= w - 1 || w < 2,
                    w < 2 ==> q == 1,
                    result.spec_width() == w,
                    result.spec_height() == h,
                    result.well_sized(),
                            forall|qq: int, rr: int|
                        0 <= qq < w && 0 <= rr < h && !(self.interior(qq, rr) && (rr < r || (rr
                            == r && qq < q))) ==> #[trigger] result.at(qq, rr) == fill,
                    forall|qq: int, rr: int|
                        self.interior(qq, rr) && (rr < r || (rr == r && qq < q)) ==> rule.gives(self.nh_at(qq, rr), #[trigger] result.at(qq, rr)),
                    forall|qq: int, rr: int|
                        self.interior(qq, rr) && (rr < r || (rr == r && qq < q)) ==> #[trigger] result.at(qq, rr)
                            == rule.drawn(self.nh_at(qq, rr), self.rng_before(rule, rng0, qq, rr)).0,
                    *rng == self.rng_before(rule, rng0, q as int, r as int),
                decreases w - q,
            {
                let nh = self.neighbourhood_rq(r, q);
                proof {
                    self.lemma_nh_unique(q as int, r as int, nh);
                    lemma_dims(w as int, h as int, 0);
                }
                let v = rule.apply(nh, rng);
                let ghost old_result = result;
                let pos = Cube { x: q, y: -q - r };
                result.set_cell(pos, v);
                proof {
                    assert forall|qq: int, rr: int|
                        0 <= qq < w && 0 <= rr < h && (qq != q || rr != r) implies #[trigger] result.at(
                            qq,
                            rr,
                        ) == old_result.at(qq, rr) by {
                        lemma_index_bound(w as int, h as int, qq, rr);
                        lemma_index_bound(w as int, h as int, q as int, r as int);
                        lemma_index_decompose(w as int, qq, rr);
                        lemma_index_decompose(w as int, q as int, r as int);
                    }
                    lemma_index_bound(w as int, h as int, q as int, r as int);
                    assert(result.at(q as int, r as int) == v);
                }
                q = q + 1;
            }
            proof {

                assert(self.rng_before(rule, rng0, 1, r + 1) == self.rng_before(rule, rng0, w - 1, r as int));
                if w < 2 {
                    assert(self.rng_before(rule, rng0, w - 1, r as int) == self.rng_before(rule, rng0, 1, r as int));
                }
            }
            r = r + 1;
        }
        proof {
            if h < 2 {
                assert(self.rng_before(rule, rng0, 1, h - 1) == rng0);
            }
        }
        result
    }

    /// Number of the three edges towards north-west, north-east and east of
    /// the interior cell (q, r) that separate cells with different answers of `p`.
    pub open spec fn nh_edges(self, p: spec_fn(CellT) -> bool, q: int, r: int) -> int {
        let c = p(self.at(q, r));
        (if p(self.at(q, r - 1)) != c { 1int } else { 0 }) + (if p(self.at(q + 1, r - 1)) != c {
            1int
        } else {
            0
        }) + (if p(self.at(q + 1, r)) != c {
            1int
        } else {
            0
        })
    }

    /// Edges of the interior cells of row `r` with q below `qe`.
    pub open spec fn row_edges(self, p: spec_fn(CellT) -> bool, r: int, qe: int) -> int
        decreases qe,
    {
        if qe <= 1 {
            0
        } else {
            self.row_edges(p, r, qe - 1) + self.nh_edges(p, qe - 1, r)
        }
    }

    /// Edges of the interior cells of the rows below `re`.
    pub open spec fn edges_upto(self, p: spec_fn(CellT) -> bool, re: int) -> int
        decreases re,
    {
        if re <= 1 {
            0
        } else {
            self.edges_upto(p, re - 1) + self.row_edges(p, re - 1, self.spec_width() - 1)
        }
    }

    /// Number of edges between cells with different answers of `p`, counting
    /// for each interior cell its edges towards north-west, north-east and east.
    pub open spec fn edge_count(self, p: spec_fn(CellT) -> bool) -> int {
        self.edges_upto(p, self.spec_height() - 1)
    }

    proof fn lemma_row_negate(self, p: spec_fn(CellT) -> bool, r: int, qe: int)
        ensures
            self.row_edges(p, r, qe) == self.row_edges(negated(p), r, qe),
        decreases qe,
    {
        if qe > 1 {
            self.lemma_row_negate(p, r, qe - 1);
        }
    }

    proof fn lemma_upto_negate(self, p: spec_fn(CellT) -> bool, re: int)
        ensures
            self.edges_upto(p, re) == self.edges_upto(negated(p), re),
        decreases re,
    {
        if re > 1 {
            self.lemma_upto_negate(p, re - 1);
            self.lemma_row_negate(p, re - 1, self.spec_width() - 1);
        }
    }

    proof fn lemma_row_constant(self, p: spec_fn(CellT) -> bool, b: bool, r: int, qe: int)
        requires
            forall|c: CellT| #[trigger] p(c) == b,
        ensures
            self.row_edges(p, r, qe) == 0,
        decreases qe,
    {
        if qe > 1 {
            self.lemma_row_constant(p, b, r, qe - 1);
        }
    }

    proof fn lemma_upto_constant(self, p: spec_fn(CellT) -> bool, b: bool, re: int)
        requires
            forall|c: CellT| #[trigger] p(c) == b,
        ensures
            self.edges_upto(p, re) == 0,
        decreases re,
    {
        if re > 1 {
            self.lemma_upto_constant(p, b, re - 1);
            self.lemma_row_constant(p, b, re - 1, self.spec_width() - 1);
        }
    }

    /// Swapping the two answers of the predicate does not change the number
    /// of edges between cells with different answers.
    pub proof fn lemma_edge_count_negate(self, p: spec_fn(CellT) -> bool)
        ensures
            self.edge_count(p) == self.edge_count(negated(p)),
    {
        self.lemma_upto_negate(p, self.spec_height() - 1);
    }

    /// A predicate that gives the same answer on every cell separates no cells.
    pub proof fn lemma_edge_count_constant(self, p: spec_fn(CellT) -> bool, b: bool)
        requires
            forall|c: CellT| #[trigger] p(c) == b,
        ensures
            self.edge_count(p) == 0,
    {
        self.lemma_upto_constant(p, b, self.spec_height() - 1);
    }

    /// Each interior cell contributes at most three edges, so the count lies
    /// between 0 and three times the number of interior cells.
    pub proof fn lemma_edge_count_bounds(self, p: spec_fn(CellT) -> bool)
        requires
            self.spec_width() >= 2,
            self.spec_height() >= 2,
        ensures
            0 <= self.edge_count(p) <= 3 * ((self.spec_height() - 2) * (self.spec_width() - 2)),
    {
        self.lemma_upto_bound(p, self.spec_height() - 1);
    }

    proof fn lemma_row_bound(self, p: spec_fn(CellT) -> bool, r: int, qe: int)
        requires
            1 <= qe,
        ensures
            0 <= self.row_edges(p, r, qe) <= 3 * (qe - 1),
        decreases qe,
    {
        if qe > 1 {
            self.lemma_row_bound(p, r, qe - 1);
        }
    }

    proof fn lemma_upto_bound(self, p: spec_fn(CellT) -> bool, re: int)
        requires
            1 <= re,
            self.spec_width() >= 2,
        ensures
            0 <= self.edges_upto(p, re),
            self.edges_upto(p, re) <= 3 * ((re - 1) * (self.spec_width() - 2)),
        decreases re,
    {
        if re > 1 {
            self.lemma_upto_bound(p, re - 1);
            self.lemma_row_bound(p, re - 1, self.spec_width() - 1);
            assert((re - 1) * (self.spec_width() - 2) == (re - 2) * (self.spec_width() - 2) + (
            self.spec_width() - 2)) by (nonlinear_arith);
        }
    }

    /// Count true/false transitions in the image binarized by `predicate`
    /// (each edge between two interior-adjacent cells counted once).
    pub fn count_edges<F: Fn(CellT) -> bool>(&self, predicate: F) -> (r: i32)
        requires
            self.well_sized(),
            3 * ((self.spec_height() - 2) * (self.spec_width() - 2)) <= i32::MAX,
            forall|c: CellT| predicate.requires((c,)),
            forall|c: CellT, b1: bool, b2: bool|
                predicate.ensures((c,), b1) && predicate.ensures((c,), b2) ==> b1 == b2,
        ensures
            r == self.edge_count(|c: CellT| pred_of(predicate, c)),
    {
        let ghost p = |c: CellT| pred_of(predicate, c);
        let w = self.width;
        let h = self.height;
        let mut total: i32 = 0;
        if w < 2 || h < 2 {
            proof {
                if h >= 2 {
                    assert forall|re: int| 1 <= re <= h - 1 implies #[trigger] self.edges_upto(p, re)
                        == 0 by {
                        lemma_edges_zero_width(*self, p, re);
                    }
                }
            }
            return 0;
        }
        let mut r: i32 = 1;
        while r < h - 1
            invariant
                self.well_sized(),
                w == self.width,
                h == self.height,
                w >= 2,
                h >= 2,
                1 <= r <= h - 1,
                3 * ((h - 2) * (w - 2)) <= i32::MAX,
                p == (|c: CellT| pred_of(predicate, c)),
                forall|c: CellT| predicate.requires((c,)),
                forall|c: CellT, b1: bool, b2: bool|
                    predicate.ensures((c,), b1) && predicate.ensures((c,), b2) ==> b1 == b2,
                total == self.edges_upto(p, r as int),
            decreases h - r,
        {
            assert(3 * (w - 2) <= 3 * ((h - 2) * (w - 2))) by (nonlinear_arith)
                requires
                    h - 2 >= 1,
                    w >= 2,
            ;
            let mut q: i32 = 1;
            let mut row_total: i32 = 0;
            while q < w - 1
                invariant
                    self.well_sized(),
                    w == self.width,
                    h == self.height,
                    w >= 2,
                    3 * (w - 2) <= i32::MAX,
                    1 <= r < h - 1,
                    1 <= q <= w - 1,
                    p == (|c: CellT| pred_of(predicate, c)),
                    forall|c: CellT| predicate.requires((c,)),
                    forall|c: CellT, b1: bool, b2: bool|
                        predicate.ensures((c,), b1) && predicate.ensures((c,), b2) ==> b1 == b2,
                    row_total == self.row_edges(p, r as int, q as int),
                    0 <= row_total <= 3 * (q - 1),
                decreases w - 1 - q,
            {
                let nh = self.neighbourhood_rq(r, q);
                let c = predicate(nh.center);
                let b0 = predicate(nh.neighbours[0]);
                let b1 = predicate(nh.neighbours[1]);
                let b2 = predicate(nh.neighbours[2]);
                proof {
                    assert(p(nh.center) == c);
                    assert(p(nh.neighbours@[0]) == b0);
                    assert(p(nh.neighbours@[1]) == b1);
                    assert(p(nh.neighbours@[2]) == b2);
                    assert(nh.neighbours@[0] == self.at(q as int, r - 1));
                    assert(nh.neighbours@[1] == self.at(q + 1, r - 1));
                    assert(nh.neighbours@[2] == self.at(q + 1, r as int));
                }
                let e: i32 = (if b0 != c { 1 } else { 0 }) + (if b1 != c { 1 } else { 0 }) + (if b2
                    != c {
                    1
                } else {
                    0
                });
                row_total = row_total + e;
                q = q + 1;
            }
            proof {
                self.lemma_upto_bound(p, r as int);
                assert((r - 1) * (w - 2) + (w - 2) <= (h - 2) * (w - 2)) by (nonlinear_arith)
                    requires
                        1 <= r < h - 1,
                        w >= 2,
                ;
            }
            total = total + row_total;
            r = r + 1;
        }
        total
    }

    /// The rectangle (in offset coordinates) that shows the whole tile.
    pub fn viewport(&self) -> (r: Rectangle)
        requires
            self.well_sized(),
        ensures
            r.pos == (Cube { x: 0, y: 0 }),
            r.width == self.spec_width() + self.spec_height() / 2,
            r.height == self.spec_height(),
    {
        proof {
                        assert(self.width + self.height / 2 <= self.height * self.width) by (nonlinear_arith)
                requires
                    self.width >= 1,
                    self.height >= 1,
            ;
        }
        Rectangle { pos: Cube { x: 0, y: 0 }, width: self.width + self.height / 2, height: self.height }
    }
}

} // verus!
