//! Sunburn: photons travel from the sun through the air, are reflected or
//! diffused by stones, and feed blobs, which spread into the air.
use vstd::prelude::*;

pub mod sunburn;

use crate::axial_tile::AxialTile;
use crate::ca::{self, TransactionResult, TransactionalCaRule};
use crate::coords::{mirror_set, swap_set, Cube, Direction, DirectionSet, Neighbourhood, dir_count};
use crate::hexgrid_view::{CellView, HexgridView};
use crate::hexmap::{self, radius_ok, Location, LocationRule};
use crate::independent_pairs::{self, PairRule};
use crate::rng::{below_u8_draw, fresh_rng, random_ratio, random_u8, random_u8_below, ratio_draw, u8_draw, SimRng};

verus! {

/// Radius of the map.
pub const RADIUS: i32 = 15;

/// The kinds of cells.
#[derive(Clone, Copy, PartialEq, Eq, Debug, Structural)]
pub enum CellType {
    Border,
    Sun,
    Stone,
    Air,
    Blob,
}

impl CellType {
    /// Whether light passes: sun and air.
    pub open spec fn is_transparent(self) -> bool {
        self is Sun || self is Air
    }

    pub fn transparent(self) -> (r: bool)
        ensures
            r == self.is_transparent(),
    {
        match self {
            CellType::Sun | CellType::Air => true,
            _ => false,
        }
    }
}

/// A cell: its kind, its energy and the photons leaving it.
#[derive(Clone, Copy, PartialEq, Eq, Debug, Structural)]
pub struct Cell {
    pub kind: CellType,
    pub energy: u8,
    pub photons: DirectionSet,
}

impl Cell {
    /// The cell outside the map, as a value.
    pub open spec fn border_spec() -> Cell {
        Cell { kind: CellType::Border, energy: 0, photons: DirectionSet::none_spec() }
    }

    /// The cell outside the map.
    pub fn border() -> (r: Cell)
        ensures
            r.kind == CellType::Border,
            r.energy == 0,
            r.photons@ == Set::<Direction>::empty(),
            r == Cell::border_spec(),
    {
        Cell { kind: CellType::Border, energy: 0, photons: DirectionSet::none() }
    }
}

/// Whether `c` is the border cell.
pub open spec fn is_border_cell(c: Cell) -> bool {
    c.kind == CellType::Border && c.energy == 0 && c.photons@ == Set::<Direction>::empty()
}

/// The first diffusion: the directions exchanged in pairs north-west with
/// north-east, east with south-east, south-west with west.
pub open spec fn swap_1_set(s: Set<Direction>) -> Set<Direction> {
    swap_set(
        swap_set(swap_set(s, Direction::NorthWest, Direction::NorthEast), Direction::East, Direction::SouthEast),
        Direction::SouthWest,
        Direction::West,
    )
}

/// The second diffusion: north-west with west, north-east with east,
/// south-east with south-west.
pub open spec fn swap_2_set(s: Set<Direction>) -> Set<Direction> {
    swap_set(
        swap_set(swap_set(s, Direction::NorthWest, Direction::West), Direction::NorthEast, Direction::East),
        Direction::SouthEast,
        Direction::SouthWest,
    )
}

/// The first diffusion of a set of photons.
pub fn pairwise_swap_1(s: DirectionSet) -> (r: DirectionSet)
    ensures
        r@ == swap_1_set(s@),
{
    s.swapped(Direction::NorthWest, Direction::NorthEast).swapped(Direction::East, Direction::SouthEast).swapped(
        Direction::SouthWest,
        Direction::West,
    )
}

/// The second diffusion of a set of photons.
pub fn pairwise_swap_2(s: DirectionSet) -> (r: DirectionSet)
    ensures
        r@ == swap_2_set(s@),
{
    s.swapped(Direction::NorthWest, Direction::West).swapped(Direction::NorthEast, Direction::East).swapped(
        Direction::SouthEast,
        Direction::SouthWest,
    )
}

/// The photons that arrive at the center: those that the neighbours send towards it.
pub open spec fn incoming_set(nh: Neighbourhood<Cell>) -> Set<Direction> {
    Set::new(|d: Direction| nh.neighbours@[d.idx()].photons@.contains(d.opposite()))
}

/// The photons leaving a cell of kind `kind` that received `inc` (after
/// absorption), for the random choice `c` (0: first diffusion, 1: second
/// diffusion, 2: reflection; only stones and blobs choose): the sun emits
/// in all directions, air lets photons pass straight.
pub open spec fn outgoing_photons(kind: CellType, inc: Set<Direction>, c: int) -> Set<Direction> {
    match kind {
        CellType::Sun => Set::full(),
        CellType::Air => mirror_set(inc),
        _ => if c == 0 {
            swap_1_set(inc)
        } else if c == 1 {
            swap_2_set(inc)
        } else {
            inc
        },
    }
}

/// What one update makes of the center of `nh`, for the random choices:
/// `absorbed` (a photon direction that is lost, or none), `c` (how the
/// photons leave) and `decay` (0 or 1). A blob turns its photons into
/// energy (two each, at most 200), then loses `decay`, or turns into air
/// when it has none.
pub open spec fn update_result(
    nh: Neighbourhood<Cell>,
    absorbed: Option<Direction>,
    c: int,
    decay: int,
    out: Cell,
) -> bool {
    let kind = nh.center.kind;
    let inc = match absorbed {
        Some(d) => incoming_set(nh).remove(d),
        None => incoming_set(nh),
    };
    let photons = outgoing_photons(kind, inc, c);
    if kind == CellType::Blob {
        let e = nh.center.energy + 2 * dir_count(photons);
        let e = if e > 200 {
            200
        } else {
            e
        };
        out.photons@ == Set::<Direction>::empty() && if e > 0 {
            out.kind == kind && out.energy == e - decay
        } else {
            out.kind == CellType::Air && out.energy == 0
        }
    } else {
        out.kind == kind && out.energy == nh.center.energy && out.photons@ == photons
    }
}

/// The random choices of the update of the center of `nh` from the
/// generator in state `rng` (see `update_result`), and the generator's next
/// state: a byte picks the absorbed photon (its value for the sun and air,
/// its value modulo 8 otherwise; directions only below 6); a second byte,
/// for stones and blobs, picks how photons leave (0 to 2 modulo 8: first
/// diffusion, 3 to 5: second, else reflection); a blob with energy draws its
/// decay from `0..2`.
pub open spec fn light_choices(nh: Neighbourhood<Cell>, rng: SimRng) -> (Option<Direction>, int, int, SimRng) {
    let kind = nh.center.kind;
    let a = u8_draw(rng);
    let tmp: int = if kind.is_transparent() {
        a.0 as int
    } else {
        (a.0 % 8) as int
    };
    let absorbed = if 0 <= tmp < 6 {
        Some(Direction::from_idx(tmp))
    } else {
        None
    };
    let p = u8_draw(a.1);
    let c: int = if kind.is_transparent() {
        2
    } else if p.0 % 8 <= 2 {
        0
    } else if p.0 % 8 <= 5 {
        1
    } else {
        2
    };
    let r1 = if kind.is_transparent() {
        a.1
    } else {
        p.1
    };
    let inc = match absorbed {
        Some(d) => incoming_set(nh).remove(d),
        None => incoming_set(nh),
    };
    let e0 = nh.center.energy + 2 * dir_count(outgoing_photons(kind, inc, c));
    let e = if e0 > 200 {
        200
    } else {
        e0
    };
    if kind == CellType::Blob && e > 0 {
        let d = below_u8_draw(r1, 2);
        (absorbed, c, d.0 as int, d.1)
    } else {
        (absorbed, c, 0, r1)
    }
}

/// The update of the center of `nh` from the generator in state `rng`, and
/// the generator's next state: a border cell stays and draws nothing; any
/// other cell becomes the one cell (its photons held as a set value) that
/// `update_result` allows for the drawn choices (`light_choices`).
pub open spec fn light_drawn(nh: Neighbourhood<Cell>, rng: SimRng) -> (Cell, SimRng) {
    if is_border_cell(nh.center) {
        (nh.center, rng)
    } else {
        let ch = light_choices(nh, rng);
        (choose|out: Cell| update_result(nh, ch.0, ch.1, ch.2, out) && out.photons.canonical(), ch.3)
    }
}

/// The update of the light and the blobs (no transactions).
pub struct Rule;

impl TransactionalCaRule for Rule {
    type Cell = Cell;

    open spec fn transaction_spec(&self, source: Cell, target: Cell, direction: Direction) -> Option<
        TransactionResult<Cell>,
    > {
        None
    }

    fn transaction(&self, source: Cell, target: Cell, direction: Direction) -> (r: Option<
        TransactionResult<Cell>,
    >) {
        None
    }

    open spec fn step_gives(&self, nh: Neighbourhood<Cell>, out: Cell) -> bool {
        if is_border_cell(nh.center) {
            out == nh.center
        } else {
            exists|absorbed: Option<Direction>, c: int, decay: int|
                0 <= c < 3 && 0 <= decay <= 1 && #[trigger] update_result(nh, absorbed, c, decay, out)
        }
    }


    open spec fn step_drawn(&self, nh: Neighbourhood<Cell>, rng: SimRng) -> (Cell, SimRng) {
        light_drawn(nh, rng)
    }

    fn step(&self, nh: Neighbourhood<Cell>, rng: &mut SimRng) -> (r: Cell) {
        let ghost rng0 = *rng;
        proof {
            crate::coords::lemma_count_zero(nh.center.photons@);
        }
        if nh.center.kind == CellType::Border && nh.center.energy == 0 && nh.center.photons.count() == 0 {
            return nh.center;
        }
        let kind = nh.center.kind;
        let mut incoming = DirectionSet::none();
        let mut i: usize = 0;
        while i < 6
            invariant
                0 <= i <= 6,
                forall|d: Direction|
                    #[trigger] incoming@.contains(d) == (d.idx() < i && incoming_set(nh).contains(d)),
            decreases 6 - i,
        {
            let dir = Direction::from_index(i);
            incoming = incoming.with(dir, nh.neighbours[i].photons.contains(dir.neg()));
            i = i + 1;
        }
        proof {
            assert forall|d: Direction| incoming@.contains(d) == incoming_set(nh).contains(d) by {
                d.lemma_idx_range();
            }
            assert(incoming@ =~= incoming_set(nh));
        }
        let tmp: u8 = if kind.transparent() {
            random_u8(rng)
        } else {
            random_u8(rng) % 8
        };
        let absorbed = Direction::try_from_int(tmp as i32);
        let incoming = match absorbed {
            Some(dir) => incoming.with(dir, false),
            None => incoming,
        };
        let reflect = incoming;
        let transmit = reflect.mirrored();
        let diffuse1 = pairwise_swap_1(reflect);
        let diffuse2 = pairwise_swap_2(reflect);
        let emit = DirectionSet::all();
        let ghost mut c: int = 2;
        let photons = match kind {
            CellType::Sun => emit,
            CellType::Air => transmit,
            _ => {
                let pick = random_u8(rng) % 8;
                if pick <= 2 {
                    proof {
                        c = 0;
                    }
                    diffuse1
                } else if pick <= 5 {
                    proof {
                        c = 1;
                    }
                    diffuse2
                } else {
                    reflect
                }
            },
        };
        assert(photons@ == outgoing_photons(kind, incoming@, c));
        let mut kind = kind;
        let mut energy = nh.center.energy;
        let mut photons = photons;
        let ghost mut decay: int = 0;
        if kind == CellType::Blob {
            let e: u16 = energy as u16 + photons.count() as u16 * 2;
            energy = if e > 200 {
                200
            } else {
                e as u8
            };
            photons = DirectionSet::none();
            if energy > 0 {
                let d = random_u8_below(rng, 2);
                proof {
                    decay = d as int;
                }
                energy = energy - d;
            } else {
                kind = CellType::Air;
            }
        }
        let out = Cell { kind, energy, photons };
        assert(update_result(nh, absorbed, c, decay, out));
        proof {
            use_type_invariant(&photons);
            let ch = light_choices(nh, rng0);
            assert(ch.0 == absorbed && ch.1 == c && ch.2 == decay && ch.3 == *rng);
            let chosen = choose|o: Cell| update_result(nh, ch.0, ch.1, ch.2, o) && o.photons.canonical();
            assert(update_result(nh, ch.0, ch.1, ch.2, chosen) && chosen.photons.canonical());
            assert(chosen.photons@ == out.photons@);
            DirectionSet::lemma_view_injective(chosen.photons, out.photons);
            assert(chosen == out);
        }
        out
    }
}

/// The threshold of energy above which a blob spreads in direction `d`.
pub open spec fn spread_threshold(d: Direction) -> u8 {
    match d {
        Direction::NorthWest | Direction::NorthEast => 70u8,
        Direction::East | Direction::West => 40u8,
        _ => 30u8,
    }
}

/// What the pair update makes of a source cell `s` and its neighbour `t` in
/// direction `d`: air and blob swap; a blob spreads three quarters of its
/// energy (rounded down to a multiple of three) into air, when it has more
/// than the threshold for the direction; otherwise nothing changes.
pub open spec fn pair_result(s: Cell, t: Cell, d: Direction) -> (Cell, Cell) {
    match (s.kind, t.kind) {
        (CellType::Air, CellType::Blob) => (t, s),
        (CellType::Blob, CellType::Air) => if s.energy > spread_threshold(d) {
            let transfer = (s.energy / 4 * 3) as u8;
            (Cell { energy: (s.energy - transfer) as u8, ..s }, Cell { kind: s.kind, energy: transfer, photons: t.photons })
        } else {
            (s, t)
        },
        _ => (s, t),
    }
}

/// The pair update keeps energy: a swap moves the two cells, and a blob
/// spreading into air without energy hands over exactly what it loses.
pub proof fn lemma_pair_keeps_energy(s: Cell, t: Cell, d: Direction)
    requires
        t.kind == CellType::Air ==> t.energy == 0,
    ensures
        pair_result(s, t, d).0.energy + pair_result(s, t, d).1.energy == s.energy + t.energy,
{
}

/// The pair update of blobs spreading into the air.
pub struct Rule2;

impl PairRule for Rule2 {
    type Cell = Cell;

    open spec fn pair_gives(
        &self,
        source: Neighbourhood<Cell>,
        target: Neighbourhood<Cell>,
        direction: Direction,
        out: (Cell, Cell),
    ) -> bool {
        out == pair_result(source.center, target.center, direction)
    }

    fn pair_rule(&self, source: Neighbourhood<Cell>, target: Neighbourhood<Cell>, direction: Direction) -> (r: (
        Cell,
        Cell,
    )) {
        let noop = (source.center, target.center);
        let swap = (target.center, source.center);
        match (source.center.kind, target.center.kind) {
            (CellType::Air, CellType::Blob) => swap,
            (CellType::Blob, CellType::Air) => {
                let threshold: u8 = match direction {
                    Direction::NorthWest | Direction::NorthEast => 70,
                    Direction::East | Direction::West => 40,
                    Direction::SouthEast | Direction::SouthWest => 30,
                };
                if source.center.energy > threshold {
                    let transfer = source.center.energy / 4 * 3;
                    (
                        Cell { energy: source.center.energy - transfer, ..source.center },
                        Cell { kind: source.center.kind, energy: transfer, photons: target.center.photons },
                    )
                } else {
                    noop
                }
            },
            _ => noop,
        }
    }
}

/// How a new world fills its map: the sun along the top, stones around the
/// edge, air below the sun, blobs at the center, scattered stones elsewhere.
pub struct Landscape;

/// The cells that a new world may hold at a location.
pub open spec fn landscape_cell(dist_from_top: int, dist_from_border: int, dist_from_center: int, c: Cell) -> bool {
    &&& c.photons@ == Set::<Direction>::empty()
    &&& if dist_from_top == 0 {
        c.kind == CellType::Sun
    } else if dist_from_border == 0 {
        c.kind == CellType::Stone
    } else if dist_from_top < RADIUS / 4 {
        c.kind == CellType::Air
    } else if dist_from_center <= 1 {
        c.kind == CellType::Blob
    } else if dist_from_center == 2 {
        c.kind == CellType::Air
    } else {
        c.kind == CellType::Stone || c.kind == CellType::Air
    }
    &&& if c.kind == CellType::Blob {
        200 <= c.energy <= 250
    } else {
        c.energy == 0
    }
}

impl LocationRule<Cell> for Landscape {
    open spec fn gives(&self, loc: Location, c: Cell) -> bool {
        landscape_cell(
            loc.offset().spec_z() + loc.spec_radius(),
            loc.spec_radius() - loc.offset().spec_distance(Cube { x: 0, y: 0 }),
            loc.offset().spec_distance(Cube { x: 0, y: 0 }),
            c,
        )
    }

    open spec fn made(&self, loc: Location, rng: SimRng) -> (Cell, SimRng) {
        let top = loc.offset().spec_z() + loc.spec_radius();
        let d = loc.offset().spec_distance(Cube { x: 0, y: 0 });
        let k: (CellType, SimRng) = if top == 0 {
            (CellType::Sun, rng)
        } else if loc.spec_radius() - d == 0 {
            (CellType::Stone, rng)
        } else if top < RADIUS / 4 {
            (CellType::Air, rng)
        } else if d <= 1 {
            (CellType::Blob, rng)
        } else if d == 2 {
            (CellType::Air, rng)
        } else {
            let s = ratio_draw(rng, 9, 50);
            (if s.0 { CellType::Stone } else { CellType::Air }, s.1)
        };
        if k.0 == CellType::Blob {
            let e = below_u8_draw(k.1, 51);
            (Cell { kind: k.0, energy: (200 + e.0) as u8, photons: DirectionSet::none_spec() }, e.1)
        } else {
            (Cell { kind: k.0, energy: 0, photons: DirectionSet::none_spec() }, k.1)
        }
    }

    fn make(&self, loc: Location, rng: &mut SimRng) -> (r: Cell) {
        let kind = if loc.dist_from_top() == 0 {
            CellType::Sun
        } else if loc.dist_from_border() == 0 {
            CellType::Stone
        } else if loc.dist_from_top() < RADIUS / 4 {
            CellType::Air
        } else {
            let d = loc.dist_from_center();
            if 0 <= d && d <= 1 {
                CellType::Blob
            } else if d == 2 {
                CellType::Air
            } else if random_ratio(rng, 9, 50) {
                CellType::Stone
            } else {
                CellType::Air
            }
        };
        let energy: u8 = match kind {
            CellType::Blob => 200 + random_u8_below(rng, 51),
            _ => 0,
        };
        Cell { kind, energy, photons: DirectionSet::none() }
    }
}

/// Whether `mid` is what the light update (`Rule` through `ca::step_axial`)
/// may make of `cells`.
pub open spec fn light_step(cells: AxialTile<Cell>, mid: AxialTile<Cell>) -> bool {
    &&& mid.well_sized()
    &&& mid.spec_width() == cells.spec_width()
    &&& mid.spec_height() == cells.spec_height()
    &&& forall|q: int, rr: int|
        0 <= q < cells.spec_width() && 0 <= rr < cells.spec_height() && !cells.interior(q, rr)
            ==> is_border_cell(#[trigger] mid.at(q, rr))
    &&& exists|border: Cell, step1: AxialTile<(Cell, ca::Decision)>, moved: AxialTile<Cell>|
        is_border_cell(border) && #[trigger] ca::axial_transacted(&Rule, cells, border, step1, moved)
            && forall|q: int, rr: int|
            cells.interior(q, rr) ==> Rule.step_gives(moved.nh_at(q, rr), #[trigger] mid.at(q, rr))
}

/// Whether `mid`, with the generator left in state `rng2`, is the light
/// update of `cells` from the generator in state `rng`: every interior cell
/// chooses its transaction as `ca::step1_drawn` draws it (cell by cell, row
/// by row), the transactions execute, then every interior cell is updated as
/// `light_drawn` draws it (again row by row).
pub open spec fn light_step_drawn(cells: AxialTile<Cell>, rng: SimRng, mid: AxialTile<Cell>, rng2: SimRng) -> bool {
    exists|step1: AxialTile<(Cell, ca::Decision)>, moved: AxialTile<Cell>|
        #[trigger] ca::axial_transacted(&Rule, cells, Cell::border_spec(), step1, moved) && (forall|q: int, rr: int|
            cells.interior(q, rr) ==> (#[trigger] step1.at(q, rr)).1 == ca::step1_drawn(
                &Rule,
                cells.nh_at(q, rr),
                ca::decide_rng_before(&Rule, cells, rng, q, rr),
            ).0) && (forall|q: int, rr: int|
            cells.interior(q, rr) ==> #[trigger] mid.at(q, rr) == light_drawn(
                moved.nh_at(q, rr),
                ca::update_rng_before(
                    &Rule,
                    moved,
                    ca::decide_rng_before(&Rule, cells, rng, 1, cells.spec_height() - 1),
                    q,
                    rr,
                ),
            ).0) && rng2 == ca::update_rng_before(
            &Rule,
            moved,
            ca::decide_rng_before(&Rule, cells, rng, 1, cells.spec_height() - 1),
            1,
            cells.spec_height() - 1,
        )
}

/// The sunburn world.
pub struct SunburnWorld {
    cells: AxialTile<Cell>,
    rng: SimRng,
}

impl SunburnWorld {
    pub closed spec fn cells_spec(self) -> AxialTile<Cell> {
        self.cells
    }

    pub open spec fn wf(self) -> bool {
        self.cells_spec().well_sized()
    }

    /// A new world of radius `RADIUS`: every cell within the radius is what
    /// `landscape_cell` allows for its location, every other one is border.
    pub fn new() -> (r: SunburnWorld)
        ensures
            r.wf(),
            r.cells_spec().spec_width() == hexmap::side(RADIUS as int),
            r.cells_spec().spec_height() == hexmap::side(RADIUS as int),
            forall|i: int|
                0 <= i < r.cells_spec()@.len() ==> {
                    let loc = hexmap::location_at(
                        RADIUS as int,
                        crate::axial_tile::pos_of_index(hexmap::side(RADIUS as int), i),
                    );
                    if loc.offset().spec_distance(Cube { x: 0, y: 0 }) > RADIUS {
                        is_border_cell(#[trigger] r.cells_spec()@[i])
                    } else {
                        Landscape.gives(loc, r.cells_spec()@[i])
                    }
                },
    {
        let mut rng = fresh_rng();
        assert(radius_ok(RADIUS as int)) by (nonlinear_arith)
            requires
                RADIUS == 15,
        ;
        let cells = hexmap::new_with(RADIUS, Cell::border(), &Landscape, &mut rng);
        SunburnWorld { cells, rng }
    }

    /// One step: the light update of every interior cell (`Rule`, through
    /// `ca::step_axial`), then random pair updates of blobs and air (`Rule2`,
    /// through `independent_pairs::step_axial`). The cells at the edge of the
    /// storage are border afterwards.
    pub fn step(&mut self)
        requires
            old(self).wf(),
        ensures
            final(self).wf(),
            final(self).cells_spec().spec_width() == old(self).cells_spec().spec_width(),
            final(self).cells_spec().spec_height() == old(self).cells_spec().spec_height(),
            forall|q: int, rr: int|
                0 <= q < old(self).cells_spec().spec_width() && 0 <= rr < old(self).cells_spec().spec_height()
                    && !old(self).cells_spec().interior(q, rr) ==> is_border_cell(
                    #[trigger] final(self).cells_spec().at(q, rr),
                ),
            exists|mid: AxialTile<Cell>, ts: Seq<AxialTile<Cell>>|
                #![trigger light_step(old(self).cells_spec(), mid), independent_pairs::pair_trace(&Rule2, mid, final(self).cells_spec(), ts)]
                light_step(old(self).cells_spec(), mid) && ts.len() == mid@.len() / 16 + 1
                    && independent_pairs::pair_trace(&Rule2, mid, final(self).cells_spec(), ts),
            exists|mid: AxialTile<Cell>, g1: SimRng, ts: Seq<AxialTile<Cell>>, gs: Seq<SimRng>|
                #![trigger light_step_drawn(old(self).cells_spec(), old(self).rng_spec(), mid, g1), independent_pairs::pair_draws(&Rule2, ts, gs, g1, final(self).rng_spec())]
                light_step_drawn(old(self).cells_spec(), old(self).rng_spec(), mid, g1) && ts.len() == mid@.len()
                    / 16 + 1 && independent_pairs::pair_trace(&Rule2, mid, final(self).cells_spec(), ts)
                    && independent_pairs::pair_draws(&Rule2, ts, gs, g1, final(self).rng_spec()),
    {
        let ghost rng0 = self.rng;
        let border = Cell::border();
        let lit = ca::step_axial(&self.cells, border, &Rule, &mut self.rng);
        let ghost g1 = self.rng;
        assert(light_step_drawn(self.cells, rng0, lit, g1));
        proof {
            let (step1, moved) = choose|step1: AxialTile<(Cell, ca::Decision)>, moved: AxialTile<Cell>|
                #[trigger] ca::axial_transacted(&Rule, self.cells, border, step1, moved) && forall|q: int, rr: int|
                    self.cells.interior(q, rr) ==> Rule.step_gives(moved.nh_at(q, rr), #[trigger] lit.at(q, rr));
            assert(is_border_cell(border));
            assert(light_step(self.cells, lit));
        }
        let next = independent_pairs::step_axial(&lit, border, &Rule2, &mut self.rng);
        proof {
            let ts = choose|ts: Seq<AxialTile<Cell>>|
                ts.len() == lit@.len() / 16 + 1 && #[trigger] independent_pairs::pair_trace(&Rule2, lit, next, ts);
            assert(light_step(self.cells, lit) && independent_pairs::pair_trace(&Rule2, lit, next, ts));
        }
        self.cells = next;
        proof {
            let ts2 = choose|ts2: Seq<AxialTile<Cell>>|
                ts2.len() == lit@.len() / 16 + 1 && #[trigger] independent_pairs::pair_trace(&Rule2, lit, next, ts2)
                    && exists|gs: Seq<SimRng>| independent_pairs::pair_draws(&Rule2, ts2, gs, g1, self.rng);
            let gs = choose|gs: Seq<SimRng>| independent_pairs::pair_draws(&Rule2, ts2, gs, g1, self.rng);
            assert(light_step_drawn(old(self).cells_spec(), old(self).rng_spec(), lit, g1));
            assert(independent_pairs::pair_trace(&Rule2, lit, self.cells_spec(), ts2));
            assert(independent_pairs::pair_draws(&Rule2, ts2, gs, g1, self.rng_spec()));
        }
    }

}

impl Default for SunburnWorld {
    fn default() -> (r: Self)
        ensures
            r.wf(),
    {
        Self::new()
    }
}


impl SunburnWorld {
    pub closed spec fn rng_spec(self) -> SimRng {
        self.rng
    }

    /// The cells and the generator (to save the state).
    pub fn parts(&self) -> (r: (&AxialTile<Cell>, &SimRng))
        ensures
            *r.0 == self.cells_spec(),
            *r.1 == self.rng_spec(),
    {
        (&self.cells, &self.rng)
    }

    /// A world from saved cells and generator.
    pub fn from_parts(cells: AxialTile<Cell>, rng: SimRng) -> (r: Self)
        requires
            cells.well_sized(),
        ensures
            r.wf(),
            r.cells_spec() == cells,
            r.rng_spec() == rng,
    {
        SunburnWorld { cells, rng }
    }
}

impl HexgridView for SunburnWorld {
    open spec fn viewable(&self) -> bool {
        self.wf()
    }

    open spec fn shows(&self, pos: Cube, r: Option<CellView>) -> bool {
        match self.cells_spec().cell_spec(pos) {
            Some(c) => if c.kind == CellType::Border {
                r is None
            } else {
                r matches Some(v) && v.direction is None && v.cell_type == (match c.kind {
                    CellType::Air => 2u8,
                    CellType::Sun => 5u8,
                    CellType::Blob => 3u8,
                    _ => 4u8,
                }) && v.energy == (if c.kind == CellType::Blob {
                    None
                } else {
                    Some((4 * dir_count(c.photons@)) as u8)
                })
            },
            None => r is None
        }
    }

    /// How the cell at `pos` is rendered; `None` off the map and on its border.
    fn cell_view(&self, pos: Cube) -> (r: Option<CellView>) {
        let cell = match self.cells.cell(pos) {
            Some(c) => c,
            None => return None,
        };
        let cell_type: u8 = match cell.kind {
            CellType::Air => 2,
            CellType::Sun => 5,
            CellType::Blob => 3,
            CellType::Border => return None,
            CellType::Stone => 4,
        };
        let energy = match cell.kind {
            CellType::Blob => None,
            _ => Some(cell.photons.count() * 4),
        };
        Some(CellView { cell_type, direction: None, energy })
    }
}

} // verus!
