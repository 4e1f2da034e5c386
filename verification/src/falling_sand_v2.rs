//! Falling sand, with the mass of each hex held as particles: sand slides
//! down, dust drifts in straight lines.
use vstd::prelude::*;

use crate::axial_tile::{AxialTile, RandomCellRule};
use crate::bit_particles::{bit, resting_bits, shuffle4_spec, swap_bits_spec, BitParticles};
use crate::coords::{has_bit, mask_set, rotated_set, Cube, Direction, DirectionSet, Neighbourhood};
use crate::hexgrid_view::{CellView, HexgridView};
use crate::hexmap::{self, radius_ok, Location, LocationRule};
use crate::rng::{fresh_rng, random_ratio, random_u8, ratio_draw, u32_draw, u8_draw, SimRng};

verus! {

/// Radius of the map.
pub const RING_RADIUS: i32 = 23;

/// What a hex holds.
#[derive(Clone, Copy, Debug, PartialEq, Eq, Structural)]
pub enum Cell {
    Border,
    Wall,
    Air,
    Sand,
    Dust,
}

impl Cell {
    /// Whether the cell blocks moving mass: everything but air.
    pub open spec fn obstacle(self) -> bool {
        !(self is Air)
    }

    pub fn is_obstacle(self) -> (r: bool)
        ensures
            r == self.obstacle(),
    {
        match self {
            Cell::Border | Cell::Wall | Cell::Sand | Cell::Dust => true,
            Cell::Air => false,
        }
    }
}

/// A hex: its cell and its mass.
#[derive(Clone, Copy, Debug)]
pub struct Hex {
    pub cell: Cell,
    pub mass: BitParticles,
}

impl Hex {
    /// The priority with which the hex grows into a neighbour: its mass,
    /// once for sand and twice for dust.
    pub fn grow_prio(self) -> (r: u8)
        ensures
            r == self.mass.particle_count() * (match self.cell {
                Cell::Sand => 1int,
                Cell::Dust => 2int,
                _ => 0int,
            }),
    {
        let factor: u8 = match self.cell {
            Cell::Border => 0,
            Cell::Wall => 0,
            Cell::Air => 0,
            Cell::Sand => 1,
            Cell::Dust => 2,
        };
        self.mass.count() * factor
    }

    /// The hex outside the map: border with two resting particles.
    pub open spec fn border_spec() -> Hex {
        Hex { cell: Cell::Border, mass: BitParticles(192) }
    }

    /// The hex outside the map: border with two resting particles.
    pub fn border() -> (r: Hex)
        ensures
            r.cell == Cell::Border,
            r.mass.value() == 192,
            r == Hex::border_spec(),
    {
        Hex { cell: Cell::Border, mass: BitParticles(0b11000000) }
    }
}

/// Whether mass may pass from a `src` cell to a `dst` cell: only between two
/// sand cells or two dust cells.
pub open spec fn transfer_allowed(src: Cell, dst: Cell) -> bool {
    (src == Cell::Dust && dst == Cell::Dust) || (src == Cell::Sand && dst == Cell::Sand)
}

fn is_mass_transfer_allowed(src: Cell, dst: Cell) -> (r: bool)
    ensures
        r == transfer_allowed(src, dst),
{
    match (src, dst) {
        (Cell::Dust, Cell::Dust) => true,
        (Cell::Sand, Cell::Sand) => true,
        _ => false,
    }
}

/// Whether the exchange with the neighbour in direction `d` is forbidden:
/// mass would pass between cells that do not allow it.
pub open spec fn forbidden(nh: Neighbourhood<Hex>, d: Direction) -> bool {
    let c = nh.center;
    let n = nh.neighbours@[d.idx()];
    let has_out = c.mass.outgoing_set().contains(d);
    let has_in = n.mass.outgoing_set().contains(d.opposite());
    (has_out && !transfer_allowed(c.cell, n.cell)) || (has_in && !transfer_allowed(n.cell, c.cell))
}

/// The moving particles of the center after the exchange: a particle that
/// the neighbour pushes in takes the slot of the one pushed out, unless the
/// exchange is forbidden.
pub open spec fn transferred_set(nh: Neighbourhood<Hex>) -> Set<Direction> {
    Set::new(
        |d: Direction|
            if forbidden(nh, d) {
                nh.center.mass.outgoing_set().contains(d)
            } else {
                nh.neighbours@[d.idx()].mass.outgoing_set().contains(d.opposite())
            },
    )
}

/// The directions from which the center received a particle.
pub open spec fn received_set(nh: Neighbourhood<Hex>) -> Set<Direction> {
    Set::new(
        |d: Direction|
            !forbidden(nh, d) && nh.neighbours@[d.idx()].mass.outgoing_set().contains(d.opposite()),
    )
}

/// The exchange keeps mass: between a hex `a` and its neighbour `b` in
/// direction `d`, the two slots facing each other hold as many particles
/// after the exchange as before.
pub proof fn lemma_exchange_conserves(a: Neighbourhood<Hex>, b: Neighbourhood<Hex>, d: Direction)
    requires
        a.neighbours@[d.idx()] == b.center,
        b.neighbours@[d.opposite().idx()] == a.center,
    ensures
        (if transferred_set(a).contains(d) { 1int } else { 0 }) + (if transferred_set(b).contains(
            d.opposite(),
        ) {
            1int
        } else {
            0
        }) == (if a.center.mass.outgoing_set().contains(d) { 1int } else { 0 }) + (
        if b.center.mass.outgoing_set().contains(d.opposite()) {
            1int
        } else {
            0
        }),
{
    crate::coords::lemma_opposite_involution(d);
}

/// Whether `m` holds the moving particles of `o` and `r` resting ones.
pub open spec fn particles_are(m: BitParticles, o: Set<Direction>, r: int) -> bool {
    m.outgoing_set() == o && m.value() & 192u8 == resting_bits(r as u8)
}

/// The cell of the first neighbour (clockwise from north-west) among the
/// first `k` that pushes mass into the center, or air.
pub open spec fn pusher_upto(nh: Neighbourhood<Hex>, k: int) -> Cell
    decreases k,
{
    if k <= 0 {
        Cell::Air
    } else {
        let prev = pusher_upto(nh, k - 1);
        if exists_pusher_upto(nh, k - 1) {
            prev
        } else if pushes(nh, k - 1) {
            nh.neighbours@[k - 1].cell
        } else {
            prev
        }
    }
}

/// Whether the neighbour at position `i` pushes mass into the center.
pub open spec fn pushes(nh: Neighbourhood<Hex>, i: int) -> bool {
    nh.neighbours@[i].mass.outgoing_set().contains(Direction::from_idx(i).opposite())
}

/// Whether one of the first `k` neighbours pushes mass into the center.
pub open spec fn exists_pusher_upto(nh: Neighbourhood<Hex>, k: int) -> bool {
    exists|i: int| 0 <= i < k && #[trigger] pushes(nh, i)
}

/// Index of `d` as a bit.
pub open spec fn ix(d: Direction) -> u8 {
    d.idx() as u8
}

/// Sand: received mass from north-west or north-east turns downwards, and
/// mass moving down into an obstacle slides to the other side.
pub open spec fn sand_value(nh: Neighbourhood<Hex>, v0: u8) -> u8 {
    let recv = received_set(nh);
    let v1 = if recv.contains(Direction::NorthWest) {
        swap_bits_spec(v0, ix(Direction::NorthWest), ix(Direction::SouthWest))
    } else {
        v0
    };
    let v2 = if recv.contains(Direction::NorthEast) {
        swap_bits_spec(v1, ix(Direction::NorthEast), ix(Direction::SouthEast))
    } else {
        v1
    };
    let blocked1 = has_bit(v2, ix(Direction::SouthEast)) && nh.neighbours@[Direction::SouthEast.idx()].cell.obstacle();
    let blocked2 = has_bit(v2, ix(Direction::SouthWest)) && nh.neighbours@[Direction::SouthWest.idx()].cell.obstacle();
    if blocked1 || blocked2 {
        swap_bits_spec(v2, ix(Direction::SouthEast), ix(Direction::SouthWest))
    } else {
        v2
    }
}

/// Sand falls and never climbs. A particle that sand received from the
/// north-west (or north-east) leaves downwards, to the south-west or the
/// south-east; after mass came in from the north-west (north-east), nothing
/// moves north-west (north-east) unless something was moving south-west
/// (south-east) before. A single particle moving down points into an
/// obstacle only where both hexes below are obstacles; otherwise it slides
/// to the free side. The number of particles is kept.
pub proof fn lemma_sand_falls(nh: Neighbourhood<Hex>, v0: u8)
    ensures
        has_bit(sand_value(nh, v0), ix(Direction::SouthEast)) && !has_bit(
            sand_value(nh, v0),
            ix(Direction::SouthWest),
        ) && nh.neighbours@[Direction::SouthEast.idx()].cell.obstacle() ==> nh.neighbours@[Direction::SouthWest.idx()].cell.obstacle(),
        has_bit(sand_value(nh, v0), ix(Direction::SouthWest)) && !has_bit(
            sand_value(nh, v0),
            ix(Direction::SouthEast),
        ) && nh.neighbours@[Direction::SouthWest.idx()].cell.obstacle() ==> nh.neighbours@[Direction::SouthEast.idx()].cell.obstacle(),
        received_set(nh).contains(Direction::NorthWest) && has_bit(v0, ix(Direction::NorthWest)) ==> has_bit(
            sand_value(nh, v0),
            ix(Direction::SouthWest),
        ) || has_bit(sand_value(nh, v0), ix(Direction::SouthEast)),
        received_set(nh).contains(Direction::NorthEast) && has_bit(v0, ix(Direction::NorthEast)) ==> has_bit(
            sand_value(nh, v0),
            ix(Direction::SouthWest),
        ) || has_bit(sand_value(nh, v0), ix(Direction::SouthEast)),
        received_set(nh).contains(Direction::NorthWest) && !has_bit(v0, ix(Direction::SouthWest)) ==> !has_bit(
            sand_value(nh, v0),
            ix(Direction::NorthWest),
        ),
        received_set(nh).contains(Direction::NorthEast) && !has_bit(v0, ix(Direction::SouthEast)) ==> !has_bit(
            sand_value(nh, v0),
            ix(Direction::NorthEast),
        ),
        crate::bit_particles::popcount8(sand_value(nh, v0)) == crate::bit_particles::popcount8(v0),
{
    let recv = received_set(nh);
    let nw = ix(Direction::NorthWest);
    let ne = ix(Direction::NorthEast);
    let se = ix(Direction::SouthEast);
    let sw = ix(Direction::SouthWest);
    assert(nw == 0u8 && ne == 1u8 && se == 3u8 && sw == 4u8);
    let v1 = if recv.contains(Direction::NorthWest) {
        swap_bits_spec(v0, nw, sw)
    } else {
        v0
    };
    let v2 = if recv.contains(Direction::NorthEast) {
        swap_bits_spec(v1, ne, se)
    } else {
        v1
    };
    crate::bit_particles::lemma_swap_bits(v0, nw, sw);
    crate::bit_particles::lemma_swap_bits(v1, ne, se);
    crate::bit_particles::lemma_swap_bits(v2, se, sw);
    assert(bit(v1, ne) == bit(v0, ne) && bit(v1, se) == bit(v0, se));
    assert(bit(v2, nw) == bit(v1, nw) && bit(v2, sw) == bit(v1, sw));
    assert(bit(swap_bits_spec(v2, se, sw), nw) == bit(v2, nw));
    assert(bit(swap_bits_spec(v2, se, sw), ne) == bit(v2, ne));
}

/// What one step makes of the center of `nh`. After the exchange of mass
/// (`m0`), a hex left without mass becomes what its first pushing neighbour
/// is (air if none); sand slides as `sand_value` states; dust keeps its
/// mass but may turn it at random; other cells keep `m0`.
pub open spec fn step_gives(nh: Neighbourhood<Hex>, out: Hex) -> bool {
    exists|m0: BitParticles|
        particles_are(m0, transferred_set(nh), nh.center.mass.resting_count()) && if m0.particle_count() == 0 {
            out.cell == pusher_upto(nh, 6) && out.mass == m0
        } else {
            out.cell == nh.center.cell && match nh.center.cell {
                Cell::Sand => out.mass.value() == sand_value(nh, m0.value()),
                Cell::Dust => out.mass.particle_count() == m0.particle_count() && dust_gives(nh, m0.value(), out.mass),
                _ => out.mass == m0,
            }
        }
}

/// The exchange of mass with the neighbours: the new particles of the
/// center, and the directions from which it received one.
fn exchange(nh: &Neighbourhood<Hex>) -> (r: (BitParticles, DirectionSet))
    ensures
        particles_are(r.0, transferred_set(*nh), nh.center.mass.resting_count()),
        r.1@ == received_set(*nh),
{
    let center = nh.center;
    let mut transfer_result = DirectionSet::none();
    let mut mass_received = DirectionSet::none();
    let mut i: usize = 0;
    while i < 6
        invariant
            0 <= i <= 6,
            center == nh.center,
            forall|d: Direction|
                #[trigger] transfer_result@.contains(d) == (d.idx() < i && transferred_set(*nh).contains(d)),
            forall|d: Direction|
                #[trigger] mass_received@.contains(d) == (d.idx() < i && received_set(*nh).contains(d)),
        decreases 6 - i,
    {
        let dir = Direction::from_index(i);
        let neigh = nh.neighbours[i];
        let has_outgoing = center.mass.outgoing().contains(dir);
        let has_incoming = neigh.mass.outgoing().contains(dir.neg());
        let forbidden1 = has_outgoing && !is_mass_transfer_allowed(center.cell, neigh.cell);
        let forbidden2 = has_incoming && !is_mass_transfer_allowed(neigh.cell, center.cell);
        if forbidden1 || forbidden2 {
            transfer_result = transfer_result.with(dir, has_outgoing);
            mass_received = mass_received.with(dir, false);
        } else {
            transfer_result = transfer_result.with(dir, has_incoming);
            mass_received = mass_received.with(dir, has_incoming);
        }
        i = i + 1;
    }
    proof {
        assert forall|d: Direction| transfer_result@.contains(d) == transferred_set(*nh).contains(d) by {
            d.lemma_idx_range();
        }
        assert(transfer_result@ =~= transferred_set(*nh));
        assert forall|d: Direction| mass_received@.contains(d) == received_set(*nh).contains(d) by {
            d.lemma_idx_range();
        }
        assert(mass_received@ =~= received_set(*nh));
        crate::bit_particles::lemma_count_split(center.mass);
    }
    let m0 = BitParticles::new(transfer_result, center.mass.resting());
    (m0, mass_received)
}

proof fn lemma_pusher_step(nh: Neighbourhood<Hex>, i: int)
    requires
        0 <= i < 6,
    ensures
        exists_pusher_upto(nh, i + 1) == (exists_pusher_upto(nh, i) || pushes(nh, i)),
{
    if exists_pusher_upto(nh, i + 1) {
        let j = choose|j: int| 0 <= j < i + 1 && #[trigger] pushes(nh, j);
        if j < i {
            assert(exists_pusher_upto(nh, i));
        }
    }
    if exists_pusher_upto(nh, i) {
        let j = choose|j: int| 0 <= j < i && #[trigger] pushes(nh, j);
        assert(pushes(nh, j));
    }
}

/// The cell of the first neighbour that pushes mass into the center (air if none).
fn first_pusher(nh: &Neighbourhood<Hex>) -> (r: Cell)
    ensures
        r == pusher_upto(*nh, 6),
{
    let dirs = nh.iter_dirs();
    let mut prio: u16 = 0;
    let mut cell = Cell::Air;
    let mut i: usize = 0;
    while i < 6
        invariant
            0 <= i <= 6,
            forall|j: int| 0 <= j < 6 ==> #[trigger] dirs@[j] == (Direction::from_idx(j), nh.neighbours@[j]),
            cell == pusher_upto(*nh, i as int),
            prio == (if exists_pusher_upto(*nh, i as int) {
                256u16
            } else {
                0u16
            }),
        decreases 6 - i,
    {
        let (dir, neigh) = dirs[i];
        let pushing = neigh.mass.outgoing().contains(dir.neg());
        let neigh_prio: u16 = if pushing {
            256
        } else {
            0
        };
        proof {
            lemma_pusher_step(*nh, i as int);
        }
        if neigh_prio > prio {
            prio = neigh_prio;
            cell = neigh.cell;
        }
        i = i + 1;
    }
    cell
}

/// Sand slides: see `sand_value`.
fn sand_adjust(nh: &Neighbourhood<Hex>, m0: BitParticles, received: DirectionSet) -> (r: BitParticles)
    requires
        received@ == received_set(*nh),
    ensures
        r.value() == sand_value(*nh, m0.value()),
{
    let mut m = m0;
    if received.contains(Direction::NorthWest) {
        m.swap_directions(Direction::NorthWest, Direction::SouthWest);
    }
    if received.contains(Direction::NorthEast) {
        m.swap_directions(Direction::NorthEast, Direction::SouthEast);
    }
    let blocked1 = m.outgoing().contains(Direction::SouthEast) && nh.neighbours[3].cell.is_obstacle();
    let blocked2 = m.outgoing().contains(Direction::SouthWest) && nh.neighbours[4].cell.is_obstacle();
    if blocked1 || blocked2 {
        m.swap_directions(Direction::SouthEast, Direction::SouthWest);
    }
    m
}

/// Dust's mass after received mass continues straight ahead: the moving
/// particles of opposite directions are exchanged where mass came from one
/// of them.
pub open spec fn dust_ahead(nh: Neighbourhood<Hex>, v: u8) -> u8 {
    let rec = received_set(nh);
    let v1 = if rec.contains(Direction::West) || rec.contains(Direction::East) {
        swap_bits_spec(v, Direction::West.idx() as u8, Direction::East.idx() as u8)
    } else {
        v
    };
    let v2 = if rec.contains(Direction::NorthEast) || rec.contains(Direction::SouthWest) {
        swap_bits_spec(v1, Direction::NorthEast.idx() as u8, Direction::SouthWest.idx() as u8)
    } else {
        v1
    };
    if rec.contains(Direction::NorthWest) || rec.contains(Direction::SouthEast) {
        swap_bits_spec(v2, Direction::NorthWest.idx() as u8, Direction::SouthEast.idx() as u8)
    } else {
        v2
    }
}

/// Whether a moving particle of `m` points at an obstacle around `nh`.
pub open spec fn faces_obstacle(nh: Neighbourhood<Hex>, m: BitParticles) -> bool {
    exists|i: int|
        0 <= i < 6 && m.outgoing_set().contains(Direction::from_idx(i)) && (#[trigger] nh.neighbours@[i]).cell.obstacle()
}

/// Whether `out` is `m` with its moving particles turned by `k` steps.
pub open spec fn turned_by(m: BitParticles, k: int, out: BitParticles) -> bool {
    &&& out.outgoing_set() == rotated_set(m.outgoing_set(), k)
    &&& bit(out.value(), 6) == bit(m.value(), 6)
    &&& bit(out.value(), 7) == bit(m.value(), 7)
}

/// Whether `out` is what dust with the mass `v` (after the exchange) may
/// become: after continuing straight ahead (`dust_ahead`), resting mass is
/// shuffled away (two random bits exchanged); otherwise all mass is
/// shuffled (four exchanges), or the mass stays, or it turns one step either
/// way; it never stays while it faces an obstacle.
pub open spec fn dust_gives(nh: Neighbourhood<Hex>, v: u8, out: BitParticles) -> bool {
    let a = BitParticles(dust_ahead(nh, v));
    if a.resting_count() > 0 {
        exists|rnd: u8| out.value() == #[trigger] swap_bits_spec(a.value(), rnd & 7u8, (rnd >> 4u8) & 7u8)
    } else {
        ||| exists|rnd: u32| out.value() == #[trigger] shuffle4_spec(a.value(), rnd, 4)
        ||| out == a && !faces_obstacle(nh, a)
        ||| turned_by(a, 1, out)
        ||| turned_by(a, -1, out)
    }
}

/// Whether `out`, with the generator left in state `rng2`, is what dust
/// with the mass `v` becomes from the generator in state `rng`: after
/// continuing ahead, resting mass is shuffled away with a drawn byte;
/// otherwise a drawn byte below 8 shuffles all mass with a drawn 32-bit
/// value; otherwise a drawn byte below 40 (or an obstacle ahead) turns the
/// mass one step, clockwise where a further drawn byte is below 128; else
/// the mass stays.
pub open spec fn dust_drawn(nh: Neighbourhood<Hex>, v: u8, rng: SimRng, out: BitParticles, rng2: SimRng) -> bool {
    let a = BitParticles(dust_ahead(nh, v));
    let u = u8_draw(rng);
    if a.resting_count() > 0 {
        out.value() == swap_bits_spec(a.value(), u.0 & 7u8, (u.0 >> 4u8) & 7u8) && rng2 == u.1
    } else if u.0 < 8 {
        let w = u32_draw(u.1);
        out.value() == shuffle4_spec(a.value(), w.0, 4) && rng2 == w.1
    } else {
        let c = u8_draw(u.1);
        if c.0 < 40 || faces_obstacle(nh, a) {
            let t = u8_draw(c.1);
            turned_by(a, if t.0 < 128 {
                1
            } else {
                -1
            }, out) && rng2 == t.1
        } else {
            out == a && rng2 == c.1
        }
    }
}

/// Dust: received mass continues straight ahead; then resting mass is
/// shuffled away, or rarely all mass is shuffled, or else the mass turns at
/// random (always when it faces an obstacle). The mass is kept.
fn dust_step(nh: &Neighbourhood<Hex>, m0: BitParticles, received: DirectionSet, rng: &mut SimRng) -> (r: BitParticles)
    requires
        received@ == received_set(*nh),
    ensures
        r.particle_count() == m0.particle_count(),
        dust_gives(*nh, m0.value(), r),
        dust_drawn(*nh, m0.value(), *old(rng), r, *final(rng)),
{
    let mut m = m0;
    if received.contains(Direction::West) || received.contains(Direction::East) {
        m.swap_directions(Direction::West, Direction::East);
    }
    if received.contains(Direction::NorthEast) || received.contains(Direction::SouthWest) {
        m.swap_directions(Direction::NorthEast, Direction::SouthWest);
    }
    if received.contains(Direction::NorthWest) || received.contains(Direction::SouthEast) {
        m.swap_directions(Direction::NorthWest, Direction::SouthEast);
    }
    let ghost a = m;
    assert(a == BitParticles(dust_ahead(*nh, m0.value())));
    if m.resting() > 0 {
        m.shuffle8_cheap(rng);
    } else if random_u8(rng) < 8 {
        m.shuffle8_cheap_4x(rng);
    } else {
        let out = m.outgoing();
        let mut facing_obstacle = false;
        let mut i: usize = 0;
        while i < 6
            invariant
                0 <= i <= 6,
                out@ == a.outgoing_set(),
                facing_obstacle <==> exists|j: int|
                    0 <= j < i && a.outgoing_set().contains(Direction::from_idx(j)) && (#[trigger] nh.neighbours@[j]).cell.obstacle(),
            decreases 6 - i,
        {
            let d = Direction::from_index(i);
            if out.contains(d) && nh.neighbours[i].cell.is_obstacle() {
                facing_obstacle = true;
            }
            proof {
                if facing_obstacle {
                    if !(exists|j: int|
                        0 <= j < i && a.outgoing_set().contains(Direction::from_idx(j)) && (#[trigger] nh.neighbours@[j]).cell.obstacle()) {
                        assert(a.outgoing_set().contains(Direction::from_idx(i as int)) && nh.neighbours@[i as int].cell.obstacle());
                    }
                }
            }
            i = i + 1;
        }
        if random_u8(rng) < 40 || facing_obstacle {
            if random_u8(rng) < 128 {
                m.rotate(1);
            } else {
                m.rotate(-1);
            }
        }
    }
    m
}

/// Whether `out`, with the generator left in state `rng2`, is what the
/// center of `nh` becomes, given its particles `m0` after the exchange, from
/// the generator in state `rng`: without particles it takes the cell of the
/// first pusher; sand settles (`sand_value`); dust moves as `dust_drawn`
/// draws it; other cells keep their particles. Only dust draws.
pub open spec fn hex_from(nh: Neighbourhood<Hex>, m0: BitParticles, rng: SimRng, out: Hex, rng2: SimRng) -> bool {
    if m0.particle_count() == 0 {
        out.cell == pusher_upto(nh, 6) && out.mass == m0 && rng2 == rng
    } else {
        out.cell == nh.center.cell && match nh.center.cell {
            Cell::Sand => out.mass.value() == sand_value(nh, m0.value()) && rng2 == rng,
            Cell::Dust => dust_drawn(nh, m0.value(), rng, out.mass, rng2),
            _ => out.mass == m0 && rng2 == rng,
        }
    }
}

/// Whether `out`, with the generator left in state `rng2`, is what one step
/// makes of the center of `nh` from the generator in state `rng`.
pub open spec fn hex_drawn(nh: Neighbourhood<Hex>, rng: SimRng, out: Hex, rng2: SimRng) -> bool {
    exists|m0: BitParticles|
        particles_are(m0, transferred_set(nh), nh.center.mass.resting_count()) && #[trigger] hex_from(
            nh,
            m0,
            rng,
            out,
            rng2,
        )
}

/// One step of a hex, and the draws it makes, are fixed by the generator's
/// state.
proof fn lemma_hex_drawn_unique(nh: Neighbourhood<Hex>, rng: SimRng, o1: Hex, g1: SimRng, o2: Hex, g2: SimRng)
    requires
        hex_drawn(nh, rng, o1, g1),
        hex_drawn(nh, rng, o2, g2),
    ensures
        o1 == o2,
        g1 == g2,
{
    let m1 = choose|m0: BitParticles|
        particles_are(m0, transferred_set(nh), nh.center.mass.resting_count()) && #[trigger] hex_from(nh, m0, rng, o1, g1);
    let m2 = choose|m0: BitParticles|
        particles_are(m0, transferred_set(nh), nh.center.mass.resting_count()) && #[trigger] hex_from(nh, m0, rng, o2, g2);
    crate::bit_particles::lemma_value_from_resting(m1.value(), m2.value());
    assert(m1 == m2);
    if m1.particle_count() != 0 && nh.center.cell == Cell::Dust {
        let a = BitParticles(dust_ahead(nh, m1.value()));
        let u = u8_draw(rng);
        if a.resting_count() == 0 && u.0 >= 8 {
            let c = u8_draw(u.1);
            if c.0 < 40 || faces_obstacle(nh, a) {
                crate::bit_particles::lemma_value_from_parts(o1.mass.value(), o2.mass.value());
            }
        }
    }
}

/// The rule of the simulation, as a rule of a cellular automaton.
pub struct FallingSandRule;

impl RandomCellRule<Hex, Hex> for FallingSandRule {

    /// The one outcome of `hex_drawn`.
    open spec fn drawn(&self, nh: Neighbourhood<Hex>, rng: SimRng) -> (Hex, SimRng) {
        choose|p: (Hex, SimRng)| hex_drawn(nh, rng, p.0, p.1)
    }

    open spec fn applicable(&self, nh: Neighbourhood<Hex>) -> bool {
        true
    }

    open spec fn gives(&self, nh: Neighbourhood<Hex>, d: Hex) -> bool {
        step_gives(nh, d)
    }

    fn apply(&self, nh: Neighbourhood<Hex>, rng: &mut SimRng) -> (r: Hex) {
        let ghost rng0 = *rng;
        let (m0, received) = exchange(&nh);
        let r = if m0.count() == 0 {
            let cell = first_pusher(&nh);
            Hex { cell, mass: m0 }
        } else {
            let mass = match nh.center.cell {
                Cell::Sand => sand_adjust(&nh, m0, received),
                Cell::Dust => dust_step(&nh, m0, received, rng),
                _ => m0,
            };
            Hex { cell: nh.center.cell, mass }
        };
        proof {
            assert(hex_from(nh, m0, rng0, r, *rng));
            let w = (r, *rng);
            assert(hex_drawn(nh, rng0, w.0, w.1));
            let p = choose|p: (Hex, SimRng)| hex_drawn(nh, rng0, p.0, p.1);
            lemma_hex_drawn_unique(nh, rng0, p.0, p.1, r, *rng);
        }
        r
    }
}

/// How a new world fills its map: sand in the top rows, a wall at the
/// bottom, and walls, dust and air scattered at random below.
pub struct Scatter;

/// The hexes that a new world may hold at a location.
pub open spec fn scattered_hex(dist_from_top: int, dist_from_bottom: int, h: Hex) -> bool {
    if dist_from_top < 4 {
        h.cell == Cell::Sand && h.mass.value() == 255
    } else if dist_from_bottom < 1 {
        h.cell == Cell::Wall && h.mass.value() == 64
    } else {
        (h.cell == Cell::Wall && h.mass.value() == 64) || (h.cell == Cell::Dust && h.mass.value() == 64)
            || (h.cell == Cell::Air && h.mass.value() == 0)
    }
}

impl LocationRule<Hex> for Scatter {
    open spec fn gives(&self, loc: Location, h: Hex) -> bool {
        scattered_hex(
            loc.offset().spec_z() + loc.spec_radius(),
            loc.spec_radius() - loc.offset().spec_z(),
            h,
        )
    }

    open spec fn made(&self, loc: Location, rng: SimRng) -> (Hex, SimRng) {
        if loc.offset().spec_z() + loc.spec_radius() < 4 {
            (Hex { cell: Cell::Sand, mass: BitParticles(255) }, rng)
        } else if loc.spec_radius() - loc.offset().spec_z() < 1 {
            (Hex { cell: Cell::Wall, mass: BitParticles(64) }, rng)
        } else {
            let w = ratio_draw(rng, 1, 20);
            if w.0 {
                (Hex { cell: Cell::Wall, mass: BitParticles(64) }, w.1)
            } else {
                let d = ratio_draw(w.1, 1, 100);
                if d.0 {
                    (Hex { cell: Cell::Dust, mass: BitParticles(64) }, d.1)
                } else {
                    (Hex { cell: Cell::Air, mass: BitParticles(0) }, d.1)
                }
            }
        }
    }

    fn make(&self, loc: Location, rng: &mut SimRng) -> (r: Hex) {
        if loc.dist_from_top() < 4 {
            Hex { cell: Cell::Sand, mass: BitParticles::full() }
        } else if loc.dist_from_bottom() < 1 || random_ratio(rng, 1, 20) {
            Hex { cell: Cell::Wall, mass: one_resting() }
        } else if random_ratio(rng, 1, 100) {
            Hex { cell: Cell::Dust, mass: one_resting() }
        } else {
            Hex { cell: Cell::Air, mass: BitParticles::empty() }
        }
    }
}

/// One resting particle and no moving one.
fn one_resting() -> (r: BitParticles)
    ensures
        r.value() == 64,
{
    let r = BitParticles::new(DirectionSet::none(), 1);
    proof {
        assert(mask_set(r.value()) == Set::<Direction>::empty());
        crate::bit_particles::lemma_low_bits_of(r.value());
    }
    r
}

/// A falling sand world.
pub struct World {
    hexes: AxialTile<Hex>,
    rng: SimRng,
}

impl World {
    pub closed spec fn hexes_spec(self) -> AxialTile<Hex> {
        self.hexes
    }

    pub open spec fn wf(self) -> bool {
        self.hexes_spec().well_sized()
    }

    /// A new world of radius `RING_RADIUS`, scattered at random: every hex
    /// within the radius is what `scattered_hex` allows for its location,
    /// every other one is border.
    pub fn new() -> (r: World)
        ensures
            r.wf(),
            r.hexes_spec().spec_width() == hexmap::side(RING_RADIUS as int),
            r.hexes_spec().spec_height() == hexmap::side(RING_RADIUS as int),
            forall|i: int|
                0 <= i < r.hexes_spec()@.len() ==> {
                    let loc = hexmap::location_at(
                        RING_RADIUS as int,
                        crate::axial_tile::pos_of_index(hexmap::side(RING_RADIUS as int), i),
                    );
                    if loc.offset().spec_distance(Cube { x: 0, y: 0 }) > RING_RADIUS {
                        #[trigger] r.hexes_spec()@[i] == Hex::border_spec()
                    } else {
                        Scatter.gives(loc, r.hexes_spec()@[i])
                    }
                },
    {
        let mut rng = fresh_rng();
        assert(radius_ok(RING_RADIUS as int)) by (nonlinear_arith)
            requires
                RING_RADIUS == 23,
        ;
        let hexes = hexmap::new_with(RING_RADIUS, Hex::border(), &Scatter, &mut rng);
        World { hexes, rng }
    }

    /// One step: every interior hex changes as `step_gives` states, and
    /// exactly as `hex_drawn` draws it, row by row; the hexes at the edge of
    /// the storage become the border hex (`Hex::border_spec`).
    pub fn step(&mut self)
        requires
            old(self).wf(),
        ensures
            final(self).wf(),
            final(self).hexes_spec().spec_width() == old(self).hexes_spec().spec_width(),
            final(self).hexes_spec().spec_height() == old(self).hexes_spec().spec_height(),
            forall|q: int, rr: int|
                old(self).hexes_spec().interior(q, rr) ==> step_gives(
                    old(self).hexes_spec().nh_at(q, rr),
                    #[trigger] final(self).hexes_spec().at(q, rr),
                ),
            forall|q: int, rr: int|
                0 <= q < old(self).hexes_spec().spec_width() && 0 <= rr < old(
                    self,
                ).hexes_spec().spec_height() && !old(self).hexes_spec().interior(q, rr)
                    ==> #[trigger] final(self).hexes_spec().at(q, rr) == Hex::border_spec(),
            forall|q: int, rr: int|
                old(self).hexes_spec().interior(q, rr) ==> #[trigger] final(self).hexes_spec().at(q, rr)
                    == FallingSandRule.drawn(
                    old(self).hexes_spec().nh_at(q, rr),
                    old(self).hexes_spec().rng_before(&FallingSandRule, old(self).rng_spec(), q, rr),
                ).0,
            final(self).rng_spec() == old(self).hexes_spec().rng_before(
                &FallingSandRule,
                old(self).rng_spec(),
                1,
                old(self).hexes_spec().spec_height() - 1,
            ),
    {
        let next = self.hexes.ca_step_random(Hex::border(), &FallingSandRule, &mut self.rng);
        self.hexes = next;
    }

}

impl Default for World {
    fn default() -> (r: Self)
        ensures
            r.wf(),
    {
        Self::new()
    }
}


impl World {
    pub closed spec fn rng_spec(self) -> SimRng {
        self.rng
    }

    /// The cells and the generator (to save the state).
    pub fn parts(&self) -> (r: (&AxialTile<Hex>, &SimRng))
        ensures
            *r.0 == self.hexes_spec(),
            *r.1 == self.rng_spec(),
    {
        (&self.hexes, &self.rng)
    }

    /// A world from saved cells and generator.
    pub fn from_parts(hexes: AxialTile<Hex>, rng: SimRng) -> (r: Self)
        requires
            hexes.well_sized(),
        ensures
            r.wf(),
            r.hexes_spec() == hexes,
            r.rng_spec() == rng,
    {
        World { hexes, rng }
    }
}

impl HexgridView for World {
    open spec fn viewable(&self) -> bool {
        self.wf()
    }

    open spec fn shows(&self, pos: Cube, r: Option<CellView>) -> bool {
        match self.hexes_spec().cell_spec(pos) {
            Some(h) => if h.cell == Cell::Border {
                r is None
            } else {
                r matches Some(v) && v.direction is None && v.cell_type == (match h.cell {
                    Cell::Air => 0u8,
                    Cell::Wall => 1u8,
                    Cell::Sand => 4u8,
                    _ => 5u8,
                }) && v.energy == (if h.mass.particle_count() == 0 {
                    Some(20u8)
                } else if h.cell == Cell::Sand || h.cell == Cell::Dust {
                    Some(h.mass.particle_count() as u8)
                } else {
                    None
                })
            },
            None => r is None
        }
    }

    /// How the hex at `pos` is rendered; `None` off the map and on its border.
    fn cell_view(&self, pos: Cube) -> (r: Option<CellView>) {
        let hex = match self.hexes.cell(pos) {
            Some(h) => h,
            None => return None,
        };
        let count = hex.mass.count();
        let mut energy = match hex.cell {
            Cell::Border | Cell::Air | Cell::Wall => None,
            Cell::Sand | Cell::Dust => Some(count),
        };
        if count == 0 {
            energy = Some(20);
        }
        let cell_type: u8 = match hex.cell {
            Cell::Border => return None,
            Cell::Air => 0,
            Cell::Wall => 1,
            Cell::Sand => 4,
            Cell::Dust => 5,
        };
        Some(CellView { cell_type, energy, direction: None })
    }
}

} // verus!
