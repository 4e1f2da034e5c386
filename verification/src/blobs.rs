//! Blobs: mass moves between neighbouring blob cells through pairs of
//! "ready" and "valid" directions; blobs grow into empty cells next to them.
use vstd::prelude::*;

use crate::coords::{Cube, Direction, DirectionSet, Neighbourhood, Offset};
use crate::hexgrid_view::CellView;
use crate::rng::{choose_from, index_draw, random_seed, seed_rng, SimRng};
use crate::torus_tile::{cells_len, torus_pos, TorusTile, SIZE};

verus! {

/// A blob cell: its mass, the directions it is ready to receive mass from,
/// and the direction in which it may give mass.
#[derive(Clone, Copy, Debug)]
pub struct BlobCell {
    pub mass: u8,
    pub ready: DirectionSet,
    pub valid: DirectionSet,
}

/// What a cell holds.
#[derive(Clone, Copy, Debug)]
pub enum Cell {
    Empty,
    Wall,
    Blob(BlobCell),
}

/// Mass that blob `a` gains from its neighbour blob `b` in direction `d`:
/// one where `a` is ready and `b` gives towards it, minus one where `b` is
/// ready and `a` gives towards it.
pub open spec fn blob_transfer(a: BlobCell, b: BlobCell, d: Direction) -> int {
    (if a.ready@.contains(d) && b.valid@.contains(d.opposite()) {
        1int
    } else {
        0
    }) - (if b.ready@.contains(d.opposite()) && a.valid@.contains(d) {
        1int
    } else {
        0
    })
}

/// Mass that `a` gains from the neighbour `n` in direction `d` (none from
/// cells that are no blobs).
pub open spec fn cell_transfer(a: BlobCell, n: Cell, d: Direction) -> int {
    match n {
        Cell::Blob(b) => blob_transfer(a, b, d),
        _ => 0,
    }
}

/// Mass that `a` gains from the first `k` neighbours.
pub open spec fn transfer_upto(a: BlobCell, neighbours: Seq<(Direction, Cell)>, k: int) -> int
    decreases k,
{
    if k <= 0 {
        0
    } else {
        transfer_upto(a, neighbours, k - 1) + cell_transfer(a, neighbours[k - 1].1, neighbours[k - 1].0)
    }
}

/// Whether a neighbour is a blob with mass.
pub open spec fn has_mass(c: Cell) -> bool {
    c matches Cell::Blob(b) && b.mass > 0
}

/// What a step makes of a cell with the given neighbours (each with its
/// direction): walls stay; a blob takes the mass its neighbours pass (within
/// `0..=255`), gives in one random direction while it has mass, and is ready
/// in all directions while it has room; a blob without mass disappears
/// unless a neighbour has mass; an empty cell becomes a new blob without
/// mass, ready towards one random neighbour with mass, if there is one.
pub open spec fn update_gives(cell: Cell, neighbours: Seq<(Direction, Cell)>, out: Cell) -> bool {
    match cell {
        Cell::Wall => out matches Cell::Wall,
        Cell::Blob(b) => {
            let m = b.mass + transfer_upto(b, neighbours, 6);
            let mass = if m < 0 {
                0
            } else if m > 255 {
                255
            } else {
                m
            };
            let has = exists|i: int| 0 <= i < 6 && has_mass(#[trigger] neighbours[i].1);
            if b.mass != 0 || has {
                out matches Cell::Blob(o) && o.mass == mass && (if mass > 0 {
                    exists|d: Direction| o.valid@ == Set::<Direction>::empty().insert(d)
                } else {
                    o.valid@ == Set::<Direction>::empty()
                }) && o.ready@ == (if mass <= 249 {
                    Set::<Direction>::full()
                } else {
                    Set::<Direction>::empty()
                })
            } else {
                out matches Cell::Empty
            }
        },
        Cell::Empty => {
            if exists|i: int| 0 <= i < 6 && has_mass(#[trigger] neighbours[i].1) {
                out matches Cell::Blob(o) && o.mass == 0 && o.valid@ == Set::<Direction>::empty()
                    && exists|i: int|
                    0 <= i < 6 && has_mass(#[trigger] neighbours[i].1) && o.ready@ == Set::<
                        Direction,
                    >::empty().insert(neighbours[i].0)
            } else {
                out matches Cell::Empty
            }
        },
    }
}

/// The mass of blob `b` after a step with the given neighbours (within
/// `0..=255`).
pub open spec fn new_mass(b: BlobCell, neighbours: Seq<(Direction, Cell)>) -> int {
    let m = b.mass + transfer_upto(b, neighbours, 6);
    if m < 0 {
        0
    } else if m > 255 {
        255
    } else {
        m
    }
}

/// The directions of the first `k` neighbours that are blobs with mass, in
/// order.
pub open spec fn mass_directions(neighbours: Seq<(Direction, Cell)>, k: int) -> Seq<Direction>
    decreases k,
{
    if k <= 0 {
        Seq::empty()
    } else {
        let prev = mass_directions(neighbours, k - 1);
        if has_mass(neighbours[k - 1].1) {
            prev.push(neighbours[k - 1].0)
        } else {
            prev
        }
    }
}

/// The item that `choose_from` picks from `items` with the generator in
/// state `rng`, and the generator's next state.
pub open spec fn picked(items: Seq<Direction>, rng: SimRng) -> (Option<Direction>, SimRng) {
    if items.len() == 0 {
        (None, rng)
    } else if items.len() == 1 {
        (Some(items[0]), rng)
    } else {
        let d = index_draw(rng, items.len() as usize);
        (Some(items[d.0 as int]), d.1)
    }
}

/// What the draws of a step decide for a cell, from the generator in state
/// `rng`, with `out` the new cell and `rng2` the generator's next state: a
/// blob that keeps mass gives towards the direction at the clockwise
/// position that `index_draw` picks among the six; a new blob is ready
/// towards the neighbour with mass that `choose_from` picks (in the order of
/// the neighbours); nothing else draws.
pub open spec fn update_draws(cell: Cell, neighbours: Seq<(Direction, Cell)>, rng: SimRng, out: Cell, rng2: SimRng) -> bool {
    match cell {
        Cell::Wall => rng2 == rng,
        Cell::Blob(b) => if new_mass(b, neighbours) > 0 {
            &&& rng2 == index_draw(rng, 6).1
            &&& out matches Cell::Blob(o) ==> o.valid@ == Set::<Direction>::empty().insert(
                Direction::from_idx(index_draw(rng, 6).0 as int),
            )
        } else {
            rng2 == rng
        },
        Cell::Empty => {
            let p = picked(mass_directions(neighbours, 6), rng);
            &&& rng2 == p.1
            &&& out matches Cell::Blob(o) ==> p.0 matches Some(d) && o.ready@ == Set::<Direction>::empty().insert(d)
        },
    }
}

/// The generator's state after the update of `cell` with the given
/// neighbours from the generator in state `rng` (see `update_draws`).
pub open spec fn update_rng(cell: Cell, neighbours: Seq<(Direction, Cell)>, rng: SimRng) -> SimRng {
    match cell {
        Cell::Wall => rng,
        Cell::Blob(b) => if new_mass(b, neighbours) > 0 {
            index_draw(rng, 6).1
        } else {
            rng
        },
        Cell::Empty => picked(mass_directions(neighbours, 6), rng).1,
    }
}

/// The neighbours of the center of `nh`, each with its direction.
pub open spec fn with_dirs(nh: Neighbourhood<Cell>) -> Seq<(Direction, Cell)> {
    Seq::new(6, |j: int| (Direction::from_idx(j), nh.neighbours@[j]))
}

/// The generator's state, from state `rng`, after a step updated the first
/// `k` cells of `cells` in storage order.
pub open spec fn blobs_rng(cells: TorusTile<Cell>, rng: SimRng, k: nat) -> SimRng
    decreases k,
{
    if k == 0 {
        rng
    } else {
        let nh = cells.nh_of_index(k - 1);
        update_rng(nh.center, with_dirs(nh), blobs_rng(cells, rng, (k - 1) as nat))
    }
}

/// Mass passes between two neighbouring blobs in equal and opposite amounts.
pub proof fn lemma_blob_transfer_antisymmetric(a: BlobCell, b: BlobCell, d: Direction)
    ensures
        blob_transfer(a, b, d) == -blob_transfer(b, a, d.opposite()),
{
    crate::coords::lemma_opposite_involution(d);
}

/// The update of one cell (see `update_gives`).
pub fn update_cell(cell: Cell, neighbours: [(Direction, Cell); 6], rng: &mut SimRng) -> (r: Cell)
    ensures
        update_gives(cell, neighbours@, r),
        update_draws(cell, neighbours@, *old(rng), r, *final(rng)),
{
    match cell {
        Cell::Wall => cell,
        Cell::Blob(blob) => {
            let mut mass_change: i16 = 0;
            let mut has_neighbours_with_mass = false;
            let mut i: usize = 0;
            while i < 6
                invariant
                    0 <= i <= 6,
                    mass_change == transfer_upto(blob, neighbours@, i as int),
                    -(i as int) <= mass_change <= i,
                    has_neighbours_with_mass == exists|j: int|
                        0 <= j < i && has_mass(#[trigger] neighbours@[j].1),
                decreases 6 - i,
            {
                let (dir, cell2) = neighbours[i];
                match cell2 {
                    Cell::Blob(blob2) => {
                        let ready = blob.ready.contains(dir);
                        let valid = blob.valid.contains(dir);
                        let ready2 = blob2.ready.contains(dir.neg());
                        let valid2 = blob2.valid.contains(dir.neg());
                        let incoming: i16 = if ready && valid2 {
                            1
                        } else {
                            0
                        };
                        let outgoing: i16 = if ready2 && valid {
                            1
                        } else {
                            0
                        };
                        mass_change = mass_change + incoming - outgoing;
                        if blob2.mass > 0 {
                            has_neighbours_with_mass = true;
                        }
                    },
                    _ => {},
                }
                i = i + 1;
            }
            let m: i16 = blob.mass as i16 + mass_change;
            let mass: u8 = if m < 0 {
                0
            } else if m > 255 {
                255
            } else {
                m as u8
            };
            assert(mass == new_mass(blob, neighbours@));
            let valid = if mass > 0 {
                let dirs = Direction::all();
                let choices = vec![dirs[0], dirs[1], dirs[2], dirs[3], dirs[4], dirs[5]];
                assert(choices@.len() == 6);
                assert(forall|k: int| 0 <= k < 6 ==> #[trigger] choices@[k] == Direction::from_idx(k));
                match choose_from(rng, &choices) {
                    Some(d) => DirectionSet::single(d),
                    None => DirectionSet::single(Direction::NorthWest),
                }
            } else {
                DirectionSet::none()
            };
            let ready = if mass <= 255 - 6 {
                DirectionSet::all()
            } else {
                DirectionSet::none()
            };
            if blob.mass != 0 || has_neighbours_with_mass {
                Cell::Blob(BlobCell { mass, ready, valid })
            } else {
                Cell::Empty
            }
        },
        Cell::Empty => {
            let mut candidates: Vec<Direction> = Vec::new();
            let mut i: usize = 0;
            while i < 6
                invariant
                    0 <= i <= 6,
                    forall|k: int|
                        0 <= k < candidates@.len() ==> exists|j: int|
                            0 <= j < i && has_mass(#[trigger] neighbours@[j].1) && #[trigger] candidates@[k]
                                == neighbours@[j].0,
                    candidates@.len() == 0 <==> !exists|j: int| 0 <= j < i && has_mass(#[trigger] neighbours@[j].1),
                    candidates@ == mass_directions(neighbours@, i as int),
                decreases 6 - i,
            {
                let (dir, neigh) = neighbours[i];
                match neigh {
                    Cell::Blob(b) => {
                        if b.mass > 0 {
                            candidates.push(dir);
                        }
                    },
                    _ => {},
                }
                i = i + 1;
            }
            match choose_from(rng, &candidates) {
                Some(dir) => {
                    let r = Cell::Blob(
                        BlobCell { mass: 0, ready: DirectionSet::single(dir), valid: DirectionSet::none() },
                    );
                    proof {
                        let k = candidates@.index_of(dir);
                        assert(candidates@[k] == dir);
                    }
                    r
                },
                None => Cell::Empty,
            }
        },
    }
}

/// How a cell is rendered: empty 0, wall 1, blob 2 with its mass as the brightness.
pub fn blob_cell_view(cell: Cell) -> (r: CellView)
    ensures
        r.direction is None,
        r.cell_type == (match cell {
            Cell::Empty => 0u8,
            Cell::Wall => 1u8,
            Cell::Blob(_) => 2u8,
        }),
        r.energy == (match cell {
            Cell::Blob(b) => Some(b.mass),
            _ => None,
        }),
{
    match cell {
        Cell::Empty => CellView { cell_type: 0, energy: None, direction: None },
        Cell::Wall => CellView { cell_type: 1, energy: None, direction: None },
        Cell::Blob(blob) => CellView { cell_type: 2, energy: Some(blob.mass), direction: None },
    }
}

/// The cell that a new world holds at position `i`: a blob of mass 3 in the
/// middle of the tile, walls at distance 6 from it, empty cells elsewhere.
pub open spec fn initial_cell(i: int, cell: Cell) -> bool {
    let c = Cube { x: 8i32, y: -24i32 };
    if torus_pos(i) == c {
        cell matches Cell::Blob(b) && b.mass == 3 && b.ready@ == Set::<Direction>::empty() && b.valid@
            == Set::<Direction>::empty()
    } else if torus_pos(i).spec_distance(c) == 6 {
        cell matches Cell::Wall
    } else {
        cell matches Cell::Empty
    }
}

/// The blobs world.
pub struct Blobs {
    cells: TorusTile<Cell>,
    rng: SimRng,
}

impl Blobs {
    pub closed spec fn cells_spec(self) -> TorusTile<Cell> {
        self.cells
    }

    pub open spec fn wf(self) -> bool {
        self.cells_spec()@.len() == cells_len()
    }

    /// A new world: a ring of walls at distance 6 around the middle of the
    /// tile, and a blob of mass 3 in the middle.
    pub fn new() -> (r: Self)
        ensures
            r.wf(),
            forall|i: int| 0 <= i < cells_len() ==> initial_cell(i, #[trigger] r.cells_spec()@[i]),
    {
        let rng = seed_rng(random_seed());
        let size_half = (SIZE / 2) as i32;
        let center = Cube::from_offset(Offset { col: size_half, row: size_half });
        assert(center == Cube { x: 8i32, y: -24i32 });
        let n: usize = (SIZE * SIZE) as usize;
        let mut data: Vec<Cell> = Vec::new();
        let mut i: usize = 0;
        while i < n
            invariant
                n == cells_len(),
                center == (Cube { x: 8i32, y: -24i32 }),
                0 <= i <= n,
                data@.len() == i,
                forall|k: int| 0 <= k < i ==> initial_cell(k, #[trigger] data@[k]),
            decreases n - i,
        {
            let pos = TorusTile::<Cell>::pos_from_index(i);
            let cell = if pos.x == center.x && pos.y == center.y {
                Cell::Blob(BlobCell { mass: 3, ready: DirectionSet::none(), valid: DirectionSet::none() })
            } else if pos.distance(center) == 6 {
                Cell::Wall
            } else {
                Cell::Empty
            };
            data.push(cell);
            i = i + 1;
        }
        Blobs { cells: TorusTile::from_vec(data), rng }
    }

    /// One step: every cell changes as `update_gives` states, from the cells
    /// of the previous step.
    pub fn step(&mut self)
        requires
            old(self).wf(),
        ensures
            final(self).wf(),
            forall|i: int|
                0 <= i < cells_len() ==> {
                    let nh = old(self).cells_spec().nh_of_index(i);
                    update_gives(
                        nh.center,
                        Seq::new(6, |j: int| (Direction::from_idx(j), nh.neighbours@[j])),
                        #[trigger] final(self).cells_spec()@[i],
                    )
                },
            forall|i: int|
                0 <= i < cells_len() ==> update_draws(
                    old(self).cells_spec().nh_of_index(i).center,
                    with_dirs(old(self).cells_spec().nh_of_index(i)),
                    blobs_rng(old(self).cells_spec(), old(self).rng_spec(), i as nat),
                    #[trigger] final(self).cells_spec()@[i],
                    blobs_rng(old(self).cells_spec(), old(self).rng_spec(), (i + 1) as nat),
                ),
            final(self).rng_spec() == blobs_rng(old(self).cells_spec(), old(self).rng_spec(), cells_len() as nat),
    {
        let ghost rng0 = self.rng;
        let nhs = self.cells.neighbourhoods();
        let mut out: Vec<Cell> = Vec::new();
        let mut i: usize = 0;
        while i < nhs.len()
            invariant
                nhs@.len() == cells_len(),
                self.cells == old(self).cells,
                self.cells@.len() == cells_len(),
                forall|k: int|
                    0 <= k < cells_len() ==> self.cells.is_neighbourhood(
                        torus_pos(k).x as int,
                        torus_pos(k).y as int,
                        #[trigger] nhs@[k],
                    ),
                0 <= i <= nhs@.len(),
                out@.len() == i,
                forall|k: int|
                    0 <= k < i ==> {
                        let nh = self.cells.nh_of_index(k);
                        update_gives(
                            nh.center,
                            Seq::new(6, |j: int| (Direction::from_idx(j), nh.neighbours@[j])),
                            #[trigger] out@[k],
                        )
                    },
                forall|k: int|
                    0 <= k < i ==> update_draws(
                        self.cells.nh_of_index(k).center,
                        with_dirs(self.cells.nh_of_index(k)),
                        blobs_rng(self.cells, rng0, k as nat),
                        #[trigger] out@[k],
                        blobs_rng(self.cells, rng0, (k + 1) as nat),
                    ),
                self.rng == blobs_rng(self.cells, rng0, i as nat),
            decreases nhs@.len() - i,
        {
            let nh = nhs[i];
            proof {
                self.cells.lemma_nh_unique(i as int, nh);
            }
            let dirs = nh.iter_dirs();
            assert(dirs@ =~= Seq::new(6, |j: int| (Direction::from_idx(j), nh.neighbours@[j])));
            let ghost before = self.rng;
            let c = update_cell(nh.center, dirs, &mut self.rng);
            proof {
                assert(with_dirs(nh) == dirs@);
                assert(self.rng == update_rng(nh.center, dirs@, before));
            }
            out.push(c);
            i = i + 1;
        }
        self.cells = TorusTile::from_vec(out);
    }

    /// How the cell at `pos` is rendered (see `blob_cell_view`).
    pub fn cell_view(&self, pos: Cube) -> (r: Option<CellView>)
        requires
            self.wf(),
        ensures
            r == Some(blob_view_spec(self.cells_spec().at(pos.x as int, pos.y as int))),
    {
        let v = blob_cell_view(self.cells.cell(pos));
        Some(v)
    }
}

/// How a cell is rendered.
pub open spec fn blob_view_spec(cell: Cell) -> CellView {
    CellView {
        cell_type: match cell {
            Cell::Empty => 0u8,
            Cell::Wall => 1u8,
            Cell::Blob(_) => 2u8,
        },
        energy: match cell {
            Cell::Blob(b) => Some(b.mass),
            _ => None,
        },
        direction: None,
    }
}


impl Blobs {
    pub closed spec fn rng_spec(self) -> SimRng {
        self.rng
    }

    /// The cells and the generator (to save the state).
    pub fn parts(&self) -> (r: (&TorusTile<Cell>, &SimRng))
        ensures
            *r.0 == self.cells_spec(),
            *r.1 == self.rng_spec(),
    {
        (&self.cells, &self.rng)
    }

    /// A world from saved cells and generator.
    pub fn from_parts(cells: TorusTile<Cell>, rng: SimRng) -> (r: Self)
        requires
            cells@.len() == cells_len(),
        ensures
            r.wf(),
            r.cells_spec() == cells,
            r.rng_spec() == rng,
    {
        Blobs { cells, rng }
    }
}

} // verus!
