//! The rainfall simulation: vapour drifts through the air while plants,
//! grown from seeds, pass their mass between neighbouring cells.
use vstd::prelude::*;

use super::symmetric_rule::{self, SymmetricRule};
use super::vapour;
use crate::axial_tile::{AxialTile, RandomCellRule};
use crate::bit_particles::{bit, resting_bits, BitParticles};
use crate::coords::{dir_count, mirror_set, Cube, Direction, DirectionSet, Neighbourhood};
use crate::hexgrid_view::{CellView, HexgridView};
use crate::rng::{random_ratio, random_u8, ratio_draw, seed_rng, u8_draw, SimRng};

verus! {

/// Number of plant rules.
pub const MAX_CELL_TYPES: u8 = 4;

/// A plant cell: its rule and its mass.
#[derive(Clone, Copy, Debug)]
pub struct PlantCell {
    pub rule: u8,
    pub mass: BitParticles,
}

/// What a hex holds.
#[derive(Clone, Copy, Debug)]
pub enum Cell {
    Border,
    Air,
    Wall,
    Seed,
    Worker,
    Object1,
    Object2,
    Plant(PlantCell),
}

/// The cell that a tile index of a drawn map stands for: 0 border, 2 wall,
/// 6 air, 10 seed, 13 and 16 the two objects; any other index border.
pub open spec fn map_cell_spec(idx: i32) -> Cell {
    if idx == 2 {
        Cell::Wall
    } else if idx == 6 {
        Cell::Air
    } else if idx == 10 {
        Cell::Seed
    } else if idx == 13 {
        Cell::Object1
    } else if idx == 16 {
        Cell::Object2
    } else {
        Cell::Border
    }
}

/// The cell that the tile index `idx` of a drawn map stands for.
pub fn map_cell(idx: i32) -> (r: Cell)
    ensures
        r == map_cell_spec(idx),
{
    match idx {
        0 => Cell::Border,
        2 => Cell::Wall,
        6 => Cell::Air,
        10 => Cell::Seed,
        13 => Cell::Object1,
        16 => Cell::Object2,
        _ => Cell::Border,
    }
}

impl Cell {
    /// The plant rule of the cell, 255 where it is no plant.
    pub fn rule(&self) -> (r: u8)
        ensures
            r == (match *self {
                Cell::Plant(p) => p.rule,
                _ => 255u8,
            }),
    {
        match self {
            Cell::Plant(p) => p.rule,
            _ => 255,
        }
    }
}

impl PlantCell {
    /// A plant of rule 0 without mass.
    pub fn empty() -> (r: PlantCell)
        ensures
            r.rule == 0,
            r.mass.value() == 0,
    {
        PlantCell { rule: 0, mass: BitParticles::empty() }
    }
}

/// A hex: its cell and the vapour in it.
#[derive(Clone, Copy, Debug)]
pub struct Hex {
    pub cell: Cell,
    pub vapour: BitParticles,
}

impl Hex {
    /// Whether the hex blocks movement: a border, a wall or a plant of rule 3.
    pub fn solid(&self) -> (r: bool)
        ensures
            r == (match self.cell {
                Cell::Border | Cell::Wall => true,
                Cell::Plant(p) => p.rule == 3,
                _ => false,
            }),
    {
        match self.cell {
            Cell::Border | Cell::Wall => true,
            Cell::Plant(p) => p.rule == 3,
            _ => false,
        }
    }

    /// Whether the hex holds air.
    pub fn air(&self) -> (r: bool)
        ensures
            r == (self.cell is Air),
    {
        match self.cell {
            Cell::Air => true,
            _ => false,
        }
    }

    /// The hex outside the map: border without vapour.
    pub open spec fn border_spec() -> Hex {
        Hex { cell: Cell::Border, vapour: BitParticles(0) }
    }

    /// The hex outside the map.
    pub fn border() -> (r: Hex)
        ensures
            r.cell is Border,
            r.vapour.value() == 0,
            r == Hex::border_spec(),
    {
        Hex { cell: Cell::Border, vapour: BitParticles::empty() }
    }
}

/// The parameters shared by all rules.
#[derive(Clone, Copy, Debug)]
pub struct Configuration {
    pub flow_swap: bool,
}

impl Configuration {
    pub fn new_random(_rng: &mut SimRng) -> (r: Self)
        ensures
            !r.flow_swap,
    {
        Configuration { flow_swap: false }
    }

    /// A small change: with a drawn byte below 20, `flow_swap` is drawn anew
    /// (each value with even odds); otherwise nothing changes.
    pub fn mutate(&mut self, rng: &mut SimRng)
        ensures
            exists|draw: u8, coin: bool| #[trigger] old(self).mutated_spec(draw, coin) == *final(self),
            *final(self) == old(self).mutated_spec(
                u8_draw(*old(rng)).0,
                ratio_draw(u8_draw(*old(rng)).1, 1, 2).0,
            ),
            *final(rng) == if u8_draw(*old(rng)).0 < 20 {
                ratio_draw(u8_draw(*old(rng)).1, 1, 2).1
            } else {
                u8_draw(*old(rng)).1
            },
    {
        let draw = random_u8(rng);
        if draw < 20 {
            let coin = random_ratio(rng, 1, 2);
            *self = self.mutated(draw, coin);
        } else {
            proof {
                assert(old(self).mutated_spec(draw, false) == *self);
            }
        }
    }

    /// The configuration after a mutation with the drawn byte `draw` and the
    /// drawn value `coin`.
    pub open spec fn mutated_spec(self, draw: u8, coin: bool) -> Configuration {
        if draw < 20 {
            Configuration { flow_swap: coin }
        } else {
            self
        }
    }

    /// The configuration after a mutation with the drawn byte `draw` and the
    /// drawn value `coin`.
    pub fn mutated(self, draw: u8, coin: bool) -> (r: Configuration)
        ensures
            r == self.mutated_spec(draw, coin),
    {
        if draw < 20 {
            Configuration { flow_swap: coin }
        } else {
            self
        }
    }
}

/// The behaviour of the plants of one rule.
#[derive(Clone, Copy)]
pub struct CellType {
    pub sr: SymmetricRule,
}

/// Whether every plant names one of the rules.
pub open spec fn hex_ok(h: Hex) -> bool {
    h.cell matches Cell::Plant(p) ==> p.rule < MAX_CELL_TYPES
}

/// Whether all hexes of a neighbourhood are `hex_ok`.
pub open spec fn nh_ok(nh: Neighbourhood<Hex>) -> bool {
    &&& hex_ok(nh.center)
    &&& forall|i: int| 0 <= i < 6 ==> hex_ok(#[trigger] nh.neighbours@[i])
}

/// The rule that neighbour `i` would grow into the center: its rule if it is
/// a plant pushing mass towards the center, else 255.
pub open spec fn offered_rule(nh: Neighbourhood<Hex>, i: int) -> u8 {
    match nh.neighbours@[i].cell {
        Cell::Plant(p) => if p.mass.outgoing_set().contains(Direction::from_idx(i).opposite()) {
            p.rule
        } else {
            255u8
        },
        _ => 255u8,
    }
}

/// The lowest rule offered by the first `k` neighbours (255 if none).
pub open spec fn grow_rule_upto(nh: Neighbourhood<Hex>, k: int) -> u8
    decreases k,
{
    if k <= 0 {
        255u8
    } else {
        let m = grow_rule_upto(nh, k - 1);
        let o = offered_rule(nh, k - 1);
        if o < m {
            o
        } else {
            m
        }
    }
}

/// The rule that may grow into the center: the lowest rule that a
/// neighbouring plant offers (255 if none).
pub open spec fn growth_rule_next(nh: Neighbourhood<Hex>) -> u8 {
    grow_rule_upto(nh, 6)
}

/// Whether neighbour `i` is a plant whose mass has a moving particle that
/// steps back onto the center (its step undoes the step from the center to
/// the neighbour).
pub open spec fn pushes_onto_center(nh: Neighbourhood<Hex>, i: int) -> bool {
    nh.neighbours@[i].cell matches Cell::Plant(p) && exists|e: Direction|
        #[trigger] p.mass.outgoing_set().contains(e) && e.dx() == -Direction::from_idx(i).dx() && e.dy()
            == -Direction::from_idx(i).dy()
}

/// A neighbour offers its rule to the center exactly when it is a plant that
/// pushes mass onto the center; anything else offers nothing (255).
pub proof fn lemma_offer_iff_pushing(nh: Neighbourhood<Hex>, i: int)
    requires
        0 <= i < 6,
        nh_ok(nh),
    ensures
        offered_rule(nh, i) != 255 <==> pushes_onto_center(nh, i),
        nh.neighbours@[i].cell matches Cell::Plant(p) ==> (pushes_onto_center(nh, i) ==> offered_rule(nh, i)
            == p.rule),
{
    let d = Direction::from_idx(i);
    assert(hex_ok(nh.neighbours@[i]));
    if let Cell::Plant(p) = nh.neighbours@[i].cell {
        crate::coords::lemma_opposite_involution(d);
        if pushes_onto_center(nh, i) {
            let e = choose|e: Direction|
                #[trigger] p.mass.outgoing_set().contains(e) && e.dx() == -d.dx() && e.dy() == -d.dy();
            crate::coords::lemma_step_undone_only_by_opposite(d, e);
        }
        if p.mass.outgoing_set().contains(d.opposite()) {
            assert(p.mass.outgoing_set().contains(d.opposite()) && d.opposite().dx() == -d.dx()
                && d.opposite().dy() == -d.dy());
        }
    }
}

/// The rule that may grow into the center is the lowest rule among the
/// plants that push mass onto it: no such plant has a lower rule, and unless
/// none pushes (255), one of them has exactly that rule.
pub proof fn lemma_growth_rule_lowest_pusher(nh: Neighbourhood<Hex>)
    requires
        nh_ok(nh),
    ensures
        forall|i: int|
            0 <= i < 6 && #[trigger] pushes_onto_center(nh, i) ==> (nh.neighbours@[i].cell matches Cell::Plant(p)
                && growth_rule_next(nh) <= p.rule),
        growth_rule_next(nh) != 255 ==> exists|i: int|
            0 <= i < 6 && #[trigger] pushes_onto_center(nh, i) && (nh.neighbours@[i].cell matches Cell::Plant(p) && p.rule
                == growth_rule_next(nh)),
{
    lemma_grow_rule_upto(nh, 6);
}

proof fn lemma_grow_rule_upto(nh: Neighbourhood<Hex>, k: int)
    requires
        0 <= k <= 6,
        nh_ok(nh),
    ensures
        forall|i: int|
            0 <= i < k && #[trigger] pushes_onto_center(nh, i) ==> (nh.neighbours@[i].cell matches Cell::Plant(p)
                && grow_rule_upto(nh, k) <= p.rule),
        grow_rule_upto(nh, k) != 255 ==> exists|i: int|
            0 <= i < k && #[trigger] pushes_onto_center(nh, i) && (nh.neighbours@[i].cell matches Cell::Plant(p) && p.rule
                == grow_rule_upto(nh, k)),
    decreases k,
{
    if k > 0 {
        lemma_grow_rule_upto(nh, k - 1);
        lemma_offer_iff_pushing(nh, k - 1);
        if grow_rule_upto(nh, k) != 255 && offered_rule(nh, k - 1) >= grow_rule_upto(nh, k - 1) {
            let i = choose|i: int|
                0 <= i < k - 1 && #[trigger] pushes_onto_center(nh, i) && (nh.neighbours@[i].cell matches Cell::Plant(
                    p,
                ) && p.rule == grow_rule_upto(nh, k - 1));
            assert(0 <= i < k && pushes_onto_center(nh, i));
        }
    }
}

/// The vapour that moved into the center: the particles of the neighbours
/// that moved towards it, and its own resting ones.
pub open spec fn moved_vapour(nh: Neighbourhood<Hex>, v: BitParticles) -> bool {
    &&& bit(v.value(), 6) == bit(nh.center.vapour.value(), 6)
    &&& bit(v.value(), 7) == bit(nh.center.vapour.value(), 7)
    &&& forall|d: Direction|
        #[trigger] v.outgoing_set().contains(d) == nh.neighbours@[d.opposite().idx()].vapour.outgoing_set().contains(d)
}

/// Whether vapour is reflected in a cell (rather than drifting as in air).
pub open spec fn reflects(c: Cell) -> bool {
    match c {
        Cell::Border | Cell::Wall => true,
        Cell::Plant(p) => p.rule == 2,
        _ => false,
    }
}

/// The vapour of the center after it moved and was reflected or drifted.
pub open spec fn processed_vapour(nh: Neighbourhood<Hex>, v: BitParticles) -> bool {
    exists|m: BitParticles|
        moved_vapour(nh, m) && if reflects(nh.center.cell) {
            v.outgoing_set() == mirror_set(m.outgoing_set()) && bit(v.value(), 6) == bit(m.value(), 6)
                && bit(v.value(), 7) == bit(m.value(), 7)
        } else {
            exists|rnd_rest: u8, shuffle: Option<u8>, rnd_bias: u8|
                #[trigger] vapour::air_rules_result(m, rnd_rest, shuffle, rnd_bias, v)
        }
}

/// Whether `v`, with the generator left in state `rng2`, is the vapour of
/// the center after it moved and was reflected (drawing nothing) or drifted
/// with the draws `vapour::air_draws` from the generator in state `rng`.
pub open spec fn processed_vapour_drawn(nh: Neighbourhood<Hex>, v: BitParticles, rng: SimRng, rng2: SimRng) -> bool {
    exists|m: BitParticles|
        moved_vapour(nh, m) && if reflects(nh.center.cell) {
            &&& v.outgoing_set() == mirror_set(m.outgoing_set())
            &&& bit(v.value(), 6) == bit(m.value(), 6)
            &&& bit(v.value(), 7) == bit(m.value(), 7)
            &&& rng2 == rng
        } else {
            &&& vapour::air_rules_result(
                m,
                vapour::air_draws(rng).0,
                vapour::air_draws(rng).1,
                vapour::air_draws(rng).2,
                v,
            )
            &&& rng2 == vapour::air_draws(rng).3
        }
}

/// Number of moving vapour particles of the first `k` neighbours.
pub open spec fn vapour_upto(nh: Neighbourhood<Hex>, k: int) -> int
    decreases k,
{
    if k <= 0 {
        0
    } else {
        vapour_upto(nh, k - 1) + dir_count(nh.neighbours@[k - 1].vapour.outgoing_set())
    }
}

/// The mass of a neighbour as a plant of rule `rule` sees it: present only
/// for plants of the same rule.
pub open spec fn mass_view(h: Hex, rule: u8) -> Option<BitParticles> {
    match h.cell {
        Cell::Plant(p) => if p.rule == rule {
            Some(p.mass)
        } else {
            None
        },
        _ => None,
    }
}

/// The mass of the center plant `p` after step 1 of its rule (the exchange
/// with the neighbouring plants of the same rule).
pub open spec fn transferred_mass(rules: [CellType; 4], nh: Neighbourhood<Hex>, p: PlantCell, m: BitParticles) -> bool {
    let sr = rules@[p.rule as int].sr;
    &&& m.resting_count() == p.mass.resting_count()
    &&& m.value() & 192u8 == resting_bits(p.mass.resting_count() as u8)
    &&& forall|d: Direction|
        #[trigger] m.outgoing_set().contains(d) == sr.transfer_bit(
            p.mass,
            mass_view(nh.neighbours@[d.idx()], p.rule),
            d,
        )
}

/// What becomes of the center plant `p`, given its mass `m1` after step 1
/// and its vapour `v1`: its mass is shuffled without changing the number of
/// particles; a plant without mass is replaced by what a neighbour grows
/// (air if none); a plant of rule 2 next to vapour fills up with resting
/// particles and may use up its vapour.
pub open spec fn plant_outcome(
    rules: [CellType; 4],
    nh: Neighbourhood<Hex>,
    p: PlantCell,
    m1: BitParticles,
    v1: BitParticles,
    out: Hex,
) -> bool {
    exists|m2: BitParticles|
        m2.particle_count() == m1.particle_count() && rules[p.rule as int].sr.shuffled(m1, m2) && {
            let dead = m1.particle_count() == 0;
            let rule = if dead {
                growth_rule_next(nh)
            } else {
                p.rule
            };
            let mass = if dead {
                BitParticles(0)
            } else {
                m2
            };
            let harvest = rule == 2 && vapour_upto(nh, 6) > 0 && mass.resting_count() < 2;
            let mass2 = if harvest {
                BitParticles((mass.value() & 63u8) | resting_bits(2))
            } else {
                mass
            };
            &&& out.cell == (if rule == 255 {
                Cell::Air
            } else {
                Cell::Plant(PlantCell { rule, mass: mass2 })
            })
            &&& (out.vapour == v1 || (harvest && out.vapour == BitParticles(v1.value() & 192u8)))
        }
}

/// The draws of the center plant `p` from the generator in state `rng`,
/// given its mass `m1` after step 1 and its vapour `v1`, with `out` the new
/// hex and `rng2` the generator's next state: its mass `m2` is shuffled with
/// the outcomes `shuffle2_draws` of its rule; a plant of rule 2 that
/// harvests then draws a byte, and uses up its moving vapour where it is
/// below 20.
pub open spec fn plant_draws(
    rules: [CellType; 4],
    nh: Neighbourhood<Hex>,
    p: PlantCell,
    m1: BitParticles,
    v1: BitParticles,
    out: Hex,
    rng: SimRng,
    rng2: SimRng,
) -> bool {
    let ch = rules[p.rule as int].sr.shuffle2_draws(rng);
    exists|m2: BitParticles|
        #[trigger] symmetric_rule::shuffle2_result(m1, ch.0, ch.1, ch.2, ch.3, m2) && plant_from(
            nh,
            p,
            m2,
            v1,
            ch.4,
            out,
            rng2,
        )
}

/// Whether `out`, with the generator left in state `rng2`, is what the plant
/// `p` with vapour `v1` becomes once its mass was shuffled into `m2`, the
/// generator then in state `rng`: a plant without mass is replaced by what
/// a neighbour grows (air if none); a plant of rule 2 next to vapour fills
/// up with resting particles and draws a byte, using up its moving vapour
/// where that is below 20.
pub open spec fn plant_from(nh: Neighbourhood<Hex>, p: PlantCell, m2: BitParticles, v1: BitParticles, rng: SimRng, out: Hex, rng2: SimRng) -> bool {
    let dead = m2.particle_count() == 0;
    let rule = if dead {
        growth_rule_next(nh)
    } else {
        p.rule
    };
    let mass = if dead {
        BitParticles(0)
    } else {
        m2
    };
    let harvest = rule == 2 && vapour_upto(nh, 6) > 0 && mass.resting_count() < 2;
    let b = u8_draw(rng);
    &&& out.cell == (if rule == 255 {
        Cell::Air
    } else {
        Cell::Plant(
            PlantCell {
                rule,
                mass: if harvest {
                    BitParticles((mass.value() & 63u8) | resting_bits(2))
                } else {
                    mass
                },
            },
        )
    })
    &&& out.vapour == (if harvest && b.0 < 20 {
        BitParticles(v1.value() & 192u8)
    } else {
        v1
    })
    &&& rng2 == (if harvest {
        b.1
    } else {
        rng
    })
}

/// What one step makes of the center hex of `nh`.
pub open spec fn step_gives(rules: [CellType; 4], nh: Neighbourhood<Hex>, out: Hex) -> bool {
    exists|v1: BitParticles|
        processed_vapour(nh, v1) && match nh.center.cell {
            Cell::Plant(p) => exists|m1: BitParticles|
                transferred_mass(rules, nh, p, m1) && plant_outcome(rules, nh, p, m1, v1, out),
            Cell::Air => out.vapour == v1 && out.cell == (if growth_rule_next(nh) < 255 {
                Cell::Plant(PlantCell { rule: growth_rule_next(nh), mass: BitParticles(0) })
            } else {
                Cell::Air
            }),
            Cell::Seed => out.vapour == v1 && out.cell == Cell::Plant(
                PlantCell { rule: 1, mass: BitParticles(255) },
            ),
            c => out.vapour == v1 && out.cell == c,
        }
}

/// The rule that grows is 255 or one of the rules.
proof fn lemma_grow_rule_ok(nh: Neighbourhood<Hex>, k: int)
    requires
        nh_ok(nh),
        k <= 6,
    ensures
        grow_rule_upto(nh, k) == 255 || grow_rule_upto(nh, k) < MAX_CELL_TYPES,
    decreases k,
{
    if k > 0 {
        lemma_grow_rule_ok(nh, k - 1);
        assert(hex_ok(nh.neighbours@[k - 1]));
    }
}

/// The lowest rule that a neighbouring plant offers to grow into the center.
fn growth_rule(nh: &Neighbourhood<Hex>) -> (r: u8)
    ensures
        r == growth_rule_next(*nh),
{
    let dirs = nh.iter_dirs();
    let mut rule: u8 = 255;
    let mut i: usize = 0;
    while i < 6
        invariant
            0 <= i <= 6,
            forall|j: int| 0 <= j < 6 ==> #[trigger] dirs@[j] == (Direction::from_idx(j), nh.neighbours@[j]),
            rule == grow_rule_upto(*nh, i as int),
        decreases 6 - i,
    {
        let (dir, neigh) = dirs[i];
        let offered: u8 = match neigh.cell {
            Cell::Plant(p) => if p.mass.outgoing().contains(dir.neg()) {
                p.rule
            } else {
                255
            },
            _ => 255,
        };
        if offered < rule {
            rule = offered;
        }
        i = i + 1;
    }
    rule
}

/// Number of moving vapour particles in the neighbours.
fn vapour_available(nh: &Neighbourhood<Hex>) -> (r: i32)
    ensures
        r == vapour_upto(*nh, 6),
{
    let mut n: i32 = 0;
    let mut i: usize = 0;
    while i < 6
        invariant
            0 <= i <= 6,
            n == vapour_upto(*nh, i as int),
            0 <= n <= 6 * i,
        decreases 6 - i,
    {
        let c = nh.neighbours[i].vapour.outgoing().count();
        n = n + c as i32;
        i = i + 1;
    }
    n
}

/// The vapour of the center, after it moved one step and was reflected (in
/// walls, borders and plants of rule 2) or drifted (elsewhere).
fn process_vapour(nh: &Neighbourhood<Hex>, rng: &mut SimRng) -> (v: BitParticles)
    ensures
        processed_vapour(*nh, v),
        processed_vapour_drawn(*nh, v, *old(rng), *final(rng)),
{
    let vn = Neighbourhood {
        center: nh.center.vapour,
        neighbours: [
            nh.neighbours[0].vapour,
            nh.neighbours[1].vapour,
            nh.neighbours[2].vapour,
            nh.neighbours[3].vapour,
            nh.neighbours[4].vapour,
            nh.neighbours[5].vapour,
        ],
    };
    assert(forall|i: int| 0 <= i < 6 ==> vn.neighbours@[i] == nh.neighbours@[i].vapour);
    let mut v = vapour::step(vn);
    let ghost m = v;
    assert(moved_vapour(*nh, m));
    let reflecting = match nh.center.cell {
        Cell::Border | Cell::Wall => true,
        Cell::Plant(p) => p.rule == 2,
        _ => false,
    };
    if reflecting {
        v.reflect_all();
    } else {
        vapour::apply_air_rules(&mut v, rng);
    }
    v
}

/// The masses of the neighbours as the plant `p` sees them.
fn mass_neighbourhood(nh: &Neighbourhood<Hex>, p: PlantCell) -> (r: Neighbourhood<Option<BitParticles>>)
    ensures
        r.center == Some(p.mass),
        forall|i: int| 0 <= i < 6 ==> #[trigger] r.neighbours@[i] == mass_view(nh.neighbours@[i], p.rule),
{
    let r = Neighbourhood {
        center: Some(p.mass),
        neighbours: [
            mass_of(nh.neighbours[0], p.rule),
            mass_of(nh.neighbours[1], p.rule),
            mass_of(nh.neighbours[2], p.rule),
            mass_of(nh.neighbours[3], p.rule),
            mass_of(nh.neighbours[4], p.rule),
            mass_of(nh.neighbours[5], p.rule),
        ],
    };
    assert(forall|i: int| 0 <= i < 6 ==> #[trigger] r.neighbours@[i] == mass_view(nh.neighbours@[i], p.rule));
    r
}

fn mass_of(h: Hex, rule: u8) -> (r: Option<BitParticles>)
    ensures
        r == mass_view(h, rule),
{
    match h.cell {
        Cell::Plant(p) => if p.rule == rule {
            Some(p.mass)
        } else {
            None
        },
        _ => None,
    }
}

/// The step of a plant cell `p` whose vapour is already `v1`.
fn plant_step(rules: &[CellType; 4], nh: &Neighbourhood<Hex>, p: PlantCell, v1: BitParticles, rng: &mut SimRng) -> (out: Hex)
    requires
        p.rule < MAX_CELL_TYPES,
    ensures
        exists|m1: BitParticles| transferred_mass(*rules, *nh, p, m1) && plant_outcome(*rules, *nh, p, m1, v1, out),
        exists|m1: BitParticles|
            transferred_mass(*rules, *nh, p, m1) && #[trigger] plant_draws(*rules, *nh, p, m1, v1, out, *old(rng), *final(rng)),
{
    let ghost rng0 = *rng;
    let growth_rule_next = growth_rule(nh);
    let view = mass_neighbourhood(nh, p);
    let rule = &rules[p.rule as usize];
    let m1 = rule.sr.step1_transfer(view);
    assert(transferred_mass(*rules, *nh, p, m1));
    let mut mass = m1;
    rule.sr.step2_shuffle(&mut mass, rng);
    let ghost m2 = mass;
    let mut next_plant = PlantCell { rule: p.rule, mass };
    if mass.count() == 0 {
        next_plant = PlantCell { rule: growth_rule_next, mass: BitParticles::empty() };
    }
    let mut vapour = v1;
    let ghost before = next_plant;
    if next_plant.rule == 2 {
        let available = vapour_available(nh);
        if available > 0 && next_plant.mass.resting() < 2 {
            next_plant.mass.set_resting(2);
            if random_u8(rng) < 20 {
                vapour.set_outgoing(DirectionSet::none());
                proof {
                    assert((v1.value() & 192u8) | 0u8 == v1.value() & 192u8) by (bit_vector);
                }
            }
        }
    }
    let cell = if next_plant.rule == 255 {
        Cell::Air
    } else {
        Cell::Plant(next_plant)
    };
    let out = Hex { cell, vapour };
    assert(plant_outcome(*rules, *nh, p, m1, v1, out));
    assert(symmetric_rule::shuffle2_result(
        m1,
        rule.sr.shuffle2_draws(rng0).0,
        rule.sr.shuffle2_draws(rng0).1,
        rule.sr.shuffle2_draws(rng0).2,
        rule.sr.shuffle2_draws(rng0).3,
        m2,
    ));
    assert(plant_draws(*rules, *nh, p, m1, v1, out, rng0, *rng));
    out
}

/// Whether `out`, with the generator left in state `rng2`, is what one step
/// makes of the center of `nh` from the generator in state `rng`, given its
/// vapour `v1` after moving (drawn up to state `g1`): a plant as
/// `plant_draws` says; air grows, a seed sprouts, other cells stay, drawing
/// nothing more.
pub open spec fn cell_drawn(rules: [CellType; 4], nh: Neighbourhood<Hex>, v1: BitParticles, g1: SimRng, out: Hex, rng2: SimRng) -> bool {
    match nh.center.cell {
        Cell::Plant(p) => exists|m1: BitParticles|
            transferred_mass(rules, nh, p, m1) && #[trigger] plant_draws(rules, nh, p, m1, v1, out, g1, rng2),
        Cell::Air => out.vapour == v1 && out.cell == (if growth_rule_next(nh) < 255 {
            Cell::Plant(PlantCell { rule: growth_rule_next(nh), mass: BitParticles(0) })
        } else {
            Cell::Air
        }) && rng2 == g1,
        Cell::Seed => out.vapour == v1 && out.cell == Cell::Plant(PlantCell { rule: 1, mass: BitParticles(255) })
            && rng2 == g1,
        c => out.vapour == v1 && out.cell == c && rng2 == g1,
    }
}

/// Whether `out`, with the generator left in state `rng2`, is what one step
/// makes of the center of `nh` from the generator in state `rng`: the
/// vapour moves and drifts (`processed_vapour_drawn`), then the cell
/// changes (`cell_drawn`).
pub open spec fn rain_drawn(rules: [CellType; 4], nh: Neighbourhood<Hex>, rng: SimRng, out: Hex, rng2: SimRng) -> bool {
    exists|v1: BitParticles, g1: SimRng|
        #[trigger] processed_vapour_drawn(nh, v1, rng, g1) && cell_drawn(rules, nh, v1, g1, out, rng2)
}

/// The vapour after moving and drifting, and the draws it takes, are fixed
/// by the generator's state.
proof fn lemma_vapour_unique(nh: Neighbourhood<Hex>, rng: SimRng, v1: BitParticles, g1: SimRng, v2: BitParticles, g2: SimRng)
    requires
        processed_vapour_drawn(nh, v1, rng, g1),
        processed_vapour_drawn(nh, v2, rng, g2),
    ensures
        v1 == v2,
        g1 == g2,
{
    let m1 = choose|m: BitParticles|
        moved_vapour(nh, m) && if reflects(nh.center.cell) {
            &&& v1.outgoing_set() == mirror_set(m.outgoing_set())
            &&& bit(v1.value(), 6) == bit(m.value(), 6)
            &&& bit(v1.value(), 7) == bit(m.value(), 7)
            &&& g1 == rng
        } else {
            &&& vapour::air_rules_result(
                m,
                vapour::air_draws(rng).0,
                vapour::air_draws(rng).1,
                vapour::air_draws(rng).2,
                v1,
            )
            &&& g1 == vapour::air_draws(rng).3
        };
    let m2 = choose|m: BitParticles|
        moved_vapour(nh, m) && if reflects(nh.center.cell) {
            &&& v2.outgoing_set() == mirror_set(m.outgoing_set())
            &&& bit(v2.value(), 6) == bit(m.value(), 6)
            &&& bit(v2.value(), 7) == bit(m.value(), 7)
            &&& g2 == rng
        } else {
            &&& vapour::air_rules_result(
                m,
                vapour::air_draws(rng).0,
                vapour::air_draws(rng).1,
                vapour::air_draws(rng).2,
                v2,
            )
            &&& g2 == vapour::air_draws(rng).3
        };
    assert(m1.outgoing_set() =~= m2.outgoing_set());
    crate::bit_particles::lemma_value_from_parts(m1.value(), m2.value());
    assert(m1 == m2);
    crate::bit_particles::lemma_value_from_parts(v1.value(), v2.value());
}

/// A plant's step, and the draws it takes, are fixed by the generator's state.
proof fn lemma_cell_unique(
    rules: [CellType; 4],
    nh: Neighbourhood<Hex>,
    v1: BitParticles,
    g1: SimRng,
    o1: Hex,
    r1: SimRng,
    o2: Hex,
    r2: SimRng,
)
    requires
        cell_drawn(rules, nh, v1, g1, o1, r1),
        cell_drawn(rules, nh, v1, g1, o2, r2),
    ensures
        o1 == o2,
        r1 == r2,
{
    match nh.center.cell {
        Cell::Plant(p) => {
            let m1 = choose|m1: BitParticles|
                transferred_mass(rules, nh, p, m1) && #[trigger] plant_draws(rules, nh, p, m1, v1, o1, g1, r1);
            let n1 = choose|m1: BitParticles|
                transferred_mass(rules, nh, p, m1) && #[trigger] plant_draws(rules, nh, p, m1, v1, o2, g1, r2);
            assert(m1.outgoing_set() =~= n1.outgoing_set());
            crate::bit_particles::lemma_value_from_resting(m1.value(), n1.value());
            assert(m1 == n1);
            let ch = rules[p.rule as int].sr.shuffle2_draws(g1);
            let a = choose|m2: BitParticles|
                #[trigger] symmetric_rule::shuffle2_result(m1, ch.0, ch.1, ch.2, ch.3, m2) && plant_from(
                    nh,
                    p,
                    m2,
                    v1,
                    ch.4,
                    o1,
                    r1,
                );
            let b = choose|m2: BitParticles|
                #[trigger] symmetric_rule::shuffle2_result(m1, ch.0, ch.1, ch.2, ch.3, m2) && plant_from(
                    nh,
                    p,
                    m2,
                    v1,
                    ch.4,
                    o2,
                    r2,
                );
            symmetric_rule::lemma_shuffle2_unique(m1, ch.0, ch.1, ch.2, ch.3, a, b);
        },
        _ => {},
    }
}

/// The rules of the plants, as a rule of a cellular automaton.
impl RandomCellRule<Hex, Hex> for [CellType; 4] {

    /// The one outcome of `rain_drawn`.
    open spec fn drawn(&self, nh: Neighbourhood<Hex>, rng: SimRng) -> (Hex, SimRng) {
        choose|p: (Hex, SimRng)| rain_drawn(*self, nh, rng, p.0, p.1)
    }

    open spec fn applicable(&self, nh: Neighbourhood<Hex>) -> bool {
        nh_ok(nh)
    }

    open spec fn gives(&self, nh: Neighbourhood<Hex>, d: Hex) -> bool {
        step_gives(*self, nh, d) && hex_ok(d)
    }

    fn apply(&self, nh: Neighbourhood<Hex>, rng: &mut SimRng) -> (r: Hex) {
        let ghost rng0 = *rng;
        let v1 = process_vapour(&nh, rng);
        let ghost g1 = *rng;
        proof {
            lemma_grow_rule_ok(nh, 6);
        }
        let r = match nh.center.cell {
            Cell::Plant(p) => plant_step(self, &nh, p, v1, rng),
            Cell::Air => {
                let g = growth_rule(&nh);
                if g < 255 {
                    Hex { cell: Cell::Plant(PlantCell { rule: g, mass: BitParticles::empty() }), vapour: v1 }
                } else {
                    Hex { cell: Cell::Air, vapour: v1 }
                }
            },
            Cell::Seed => Hex {
                cell: Cell::Plant(PlantCell { rule: 1, mass: BitParticles::full() }),
                vapour: v1,
            },
            c => Hex { cell: c, vapour: v1 },
        };
        proof {
            assert(cell_drawn(*self, nh, v1, g1, r, *rng));
            assert(rain_drawn(*self, nh, rng0, r, *rng));
            let w = (r, *rng);
            assert(rain_drawn(*self, nh, rng0, w.0, w.1));
            let p = choose|p: (Hex, SimRng)| rain_drawn(*self, nh, rng0, p.0, p.1);
            let (v2, g2) = choose|v2: BitParticles, g2: SimRng|
                #[trigger] processed_vapour_drawn(nh, v2, rng0, g2) && cell_drawn(*self, nh, v2, g2, p.0, p.1);
            lemma_vapour_unique(nh, rng0, v1, g1, v2, g2);
            lemma_cell_unique(*self, nh, v1, g1, r, *rng, p.0, p.1);
        }
        r
    }
}

/// Whether a hex holds a plant.
pub open spec fn is_plant(h: Hex) -> bool {
    h.cell is Plant
}

/// Whether a hex holds a plant.
pub fn hex_is_plant(h: Hex) -> (r: bool)
    ensures
        r == is_plant(h),
{
    match h.cell {
        Cell::Plant(_) => true,
        _ => false,
    }
}

/// Number of plants.
pub open spec fn count_plants(s: Seq<Hex>) -> int
    decreases s.len(),
{
    if s.len() == 0 {
        0
    } else {
        count_plants(s.drop_last()) + if is_plant(s.last()) {
            1int
        } else {
            0
        }
    }
}

/// Whether every hex of the tile is `hex_ok`.
pub open spec fn tile_ok(t: AxialTile<Hex>) -> bool {
    forall|q: int, r: int| 0 <= q < t.spec_width() && 0 <= r < t.spec_height() ==> hex_ok(#[trigger] t.at(q, r))
}

/// The color category in which a cell is rendered.
pub open spec fn view_type(c: Cell) -> u8 {
    match c {
        Cell::Border => 255u8,
        Cell::Air => 2u8,
        Cell::Wall => 4u8,
        Cell::Seed => 5u8,
        Cell::Worker => 0u8,
        Cell::Object1 => 3u8,
        Cell::Object2 => 1u8,
        Cell::Plant(p) => if p.rule == 0 {
            3u8
        } else if p.rule == 2 {
            5u8
        } else if p.rule == 3 {
            4u8
        } else {
            1u8
        },
    }
}

/// The brightness in which a hex is rendered: its plant mass (16 for a plant
/// without mass) plus twice its moving vapour, saturated.
pub open spec fn view_energy(h: Hex) -> int {
    let plant = match h.cell {
        Cell::Plant(p) => if p.mass.particle_count() == 0 {
            16
        } else {
            p.mass.particle_count()
        },
        _ => 0,
    };
    let e = plant + 2 * dir_count(h.vapour.outgoing_set());
    if e > 255 {
        255
    } else {
        e
    }
}

/// The rainfall simulation.
pub struct RainfallSim {
    hexes: AxialTile<Hex>,
    rng: SimRng,
    config: Configuration,
    rules: [CellType; 4],
}

impl RainfallSim {
    pub closed spec fn hexes_spec(self) -> AxialTile<Hex> {
        self.hexes
    }

    pub closed spec fn rules_spec(self) -> [CellType; 4] {
        self.rules
    }

    pub closed spec fn config_spec(self) -> Configuration {
        self.config
    }

    pub closed spec fn rng_spec(self) -> SimRng {
        self.rng
    }

    /// What every simulation keeps: plants name one of the rules.
    pub open spec fn wf(self) -> bool {
        self.hexes_spec().well_sized() && tile_ok(self.hexes_spec())
    }

    /// A simulation on the map `cells` (each cell without vapour), with the
    /// given generator, configuration and rules; `None` where a plant of the
    /// map names no rule.
    pub fn new_with_map(cells: &AxialTile<Cell>, rng: SimRng, config: Configuration, rules: [CellType; 4]) -> (r: Option<Self>)
        requires
            cells.well_sized(),
        ensures
            r is None <==> exists|i: int|
                0 <= i < cells@.len() && (#[trigger] cells@[i] matches Cell::Plant(p) && p.rule >= MAX_CELL_TYPES),
            r matches Some(sim) ==> {
                &&& sim.wf()
                &&& sim.rules_spec() == rules
                &&& sim.config_spec() == config
                &&& sim.rng_spec() == rng
                &&& sim.hexes_spec().spec_width() == cells.spec_width()
                &&& sim.hexes_spec().spec_height() == cells.spec_height()
                &&& sim.hexes_spec()@.len() == cells@.len()
                &&& forall|i: int|
                    0 <= i < cells@.len() ==> #[trigger] sim.hexes_spec()@[i] == (Hex {
                        cell: cells@[i],
                        vapour: BitParticles(0),
                    })
            },
    {
        let src = cells.iter_cells();
        let mut data: Vec<Hex> = Vec::new();
        let mut i: usize = 0;
        while i < src.len()
            invariant
                src@ == cells@,
                0 <= i <= src@.len(),
                data@.len() == i,
                forall|j: int| 0 <= j < i ==> #[trigger] data@[j] == (Hex { cell: src@[j], vapour: BitParticles(0) }),
                forall|j: int| 0 <= j < i ==> hex_ok(#[trigger] data@[j]),
            decreases src@.len() - i,
        {
            let cell = src[i];
            match cell {
                Cell::Plant(p) => {
                    if p.rule >= MAX_CELL_TYPES {
                        return None;
                    }
                },
                _ => {},
            }
            data.push(Hex { cell, vapour: BitParticles::empty() });
            i = i + 1;
        }
        let hexes = AxialTile::new_internal(cells.width(), cells.height(), data);
        proof {
            assert forall|q: int, rr: int|
                0 <= q < hexes.spec_width() && 0 <= rr < hexes.spec_height() implies hex_ok(#[trigger] hexes.at(q, rr)) by {
                crate::axial_tile::lemma_index_bound(hexes.spec_width(), hexes.spec_height(), q, rr);
            }
            assert forall|i: int| 0 <= i < cells@.len() implies !(#[trigger] cells@[i] matches Cell::Plant(p)
                && p.rule >= MAX_CELL_TYPES) by {
                assert(hex_ok(data@[i]));
            }
        }
        Some(RainfallSim { hexes, rng, config, rules })
    }

    /// Replace the generator by one seeded with `seed`.
    pub fn re_seed(&mut self, seed: u64)
        ensures
            final(self).rng_spec() == crate::rng::seeded(seed),
            final(self).hexes_spec() == old(self).hexes_spec(),
            final(self).rules_spec() == old(self).rules_spec(),
            final(self).config_spec() == old(self).config_spec(),
    {
        self.rng = seed_rng(seed);
    }

    /// One step: every interior hex changes as `step_gives` states, and
    /// exactly as `rain_drawn` draws it, row by row; the
    /// hexes at the edge of the storage become the border hex
    /// (`Hex::border_spec`: border, no vapour).
    pub fn step(&mut self)
        requires
            old(self).wf(),
        ensures
            final(self).wf(),
            final(self).rules_spec() == old(self).rules_spec(),
            final(self).config_spec() == old(self).config_spec(),
            final(self).hexes_spec().spec_width() == old(self).hexes_spec().spec_width(),
            final(self).hexes_spec().spec_height() == old(self).hexes_spec().spec_height(),
            forall|q: int, rr: int|
                old(self).hexes_spec().interior(q, rr) ==> step_gives(
                    old(self).rules_spec(),
                    old(self).hexes_spec().nh_at(q, rr),
                    #[trigger] final(self).hexes_spec().at(q, rr),
                ),
            forall|q: int, rr: int|
                0 <= q < old(self).hexes_spec().spec_width() && 0 <= rr < old(
                    self,
                ).hexes_spec().spec_height() && !old(self).hexes_spec().interior(q, rr)
                    ==> #[trigger] final(self).hexes_spec().at(q, rr) == Hex::border_spec(),
            forall|q: int, rr: int|
                old(self).hexes_spec().interior(q, rr) ==> #[trigger] final(self).hexes_spec().at(q, rr)
                    == old(self).rules_spec().drawn(
                    old(self).hexes_spec().nh_at(q, rr),
                    old(self).hexes_spec().rng_before(&old(self).rules_spec(), old(self).rng_spec(), q, rr),
                ).0,
            final(self).rng_spec() == old(self).hexes_spec().rng_before(
                &old(self).rules_spec(),
                old(self).rng_spec(),
                1,
                old(self).hexes_spec().spec_height() - 1,
            ),
    {
        proof {
            assert forall|q: int, rr: int| self.hexes.interior(q, rr) implies self.rules.applicable(
                #[trigger] self.hexes.nh_at(q, rr),
            ) by {
                self.hexes.lemma_nh_exists(q, rr);
                let nh = self.hexes.nh_at(q, rr);
                assert(hex_ok(self.hexes.at(q, rr)));
                assert forall|i: int| 0 <= i < 6 implies hex_ok(#[trigger] nh.neighbours@[i]) by {
                    let d = Direction::from_idx(i);
                    assert(hex_ok(self.hexes.at(q + d.dx(), rr + crate::axial_tile::dz(d))));
                }
            }
        }
        let next = self.hexes.ca_step_random(Hex::border(), &self.rules, &mut self.rng);
        self.hexes = next;
    }

    /// Number of plant cells (the size of the plants).
    pub fn plant_count(&self) -> (r: i32)
        requires
            self.wf(),
        ensures
            r == count_plants(self.hexes_spec()@),
    {
        let cells = self.hexes.iter_cells();
        let mut n: i32 = 0;
        let mut i: usize = 0;
        while i < cells.len()
            invariant
                cells@ == self.hexes@,
                self.hexes.well_sized(),
                0 <= i <= cells@.len(),
                n == count_plants(cells@.subrange(0, i as int)),
                0 <= n <= i,
            decreases cells@.len() - i,
        {
            proof {
                assert(cells@.subrange(0, i as int + 1).drop_last() =~= cells@.subrange(0, i as int));
            }
            if hex_is_plant(cells[i]) {
                n = n + 1;
            }
            i = i + 1;
        }
        proof {
            assert(cells@.subrange(0, cells@.len() as int) =~= cells@);
        }
        n
    }

    /// Number of edges between plant and non-plant cells.
    pub fn plant_edges(&self) -> (r: i32)
        requires
            self.wf(),
            3 * ((self.hexes_spec().spec_height() - 2) * (self.hexes_spec().spec_width() - 2)) <= i32::MAX,
        ensures
            r == self.hexes_spec().edge_count(|h: Hex| crate::axial_tile::pred_of(hex_is_plant, h)),
    {
        self.hexes.count_edges(hex_is_plant)
    }
}


impl RainfallSim {
    /// The map, the generator, the configuration and the rules (to save the state).
    pub fn parts(&self) -> (r: (&AxialTile<Hex>, &SimRng, &Configuration, &[CellType; 4]))
        ensures
            *r.0 == self.hexes_spec(),
            *r.1 == self.rng_spec(),
            *r.2 == self.config_spec(),
            *r.3 == self.rules_spec(),
    {
        (&self.hexes, &self.rng, &self.config, &self.rules)
    }

    /// A simulation from saved parts; `None` where a plant names a rule that
    /// does not exist.
    pub fn from_parts(hexes: AxialTile<Hex>, rng: SimRng, config: Configuration, rules: [CellType; 4]) -> (r:
        Option<Self>)
        requires
            hexes.well_sized(),
        ensures
            r is Some <==> forall|i: int| 0 <= i < hexes@.len() ==> hex_ok(#[trigger] hexes@[i]),
            r matches Some(sim) ==> sim.wf() && sim.hexes_spec() == hexes && sim.rng_spec() == rng
                && sim.config_spec() == config && sim.rules_spec() == rules,
    {
        let cells = hexes.iter_cells();
        let mut k: usize = 0;
        while k < cells.len()
            invariant
                cells@ == hexes@,
                0 <= k <= cells@.len(),
                forall|a: int| 0 <= a < k ==> hex_ok(#[trigger] cells@[a]),
            decreases cells@.len() - k,
        {
            match cells[k].cell {
                Cell::Plant(p) => {
                    if p.rule >= MAX_CELL_TYPES {
                        return None;
                    }
                },
                _ => {},
            }
            k = k + 1;
        }
        proof {
            assert forall|q: int, rr: int|
                0 <= q < hexes.spec_width() && 0 <= rr < hexes.spec_height() implies hex_ok(#[trigger] hexes.at(q, rr)) by {
                crate::axial_tile::lemma_index_bound(hexes.spec_width(), hexes.spec_height(), q, rr);
            }
        }
        Some(RainfallSim { hexes, rng, config, rules })
    }
}

impl HexgridView for RainfallSim {
    open spec fn viewable(&self) -> bool {
        self.wf()
    }

    open spec fn shows(&self, pos: Cube, r: Option<CellView>) -> bool {
        match self.hexes_spec().cell_spec(pos) {
            Some(h) => if h.cell is Border {
                r is None
            } else {
                r matches Some(v) && v.cell_type == view_type(h.cell) && v.energy == Some(
                    view_energy(h) as u8,
                ) && v.direction is None
            },
            None => r is None
        }
    }

    /// How the hex at `pos` is rendered; `None` off the map and on its border.
    fn cell_view(&self, pos: Cube) -> (r: Option<CellView>) {
        let hex = match self.hexes.cell(pos) {
            Some(h) => h,
            None => return None,
        };
        let cell_type: u8 = match hex.cell {
            Cell::Border => return None,
            Cell::Air => 2,
            Cell::Wall => 4,
            Cell::Seed => 5,
            Cell::Worker => 0,
            Cell::Object1 => 3,
            Cell::Object2 => 1,
            Cell::Plant(p) => match p.rule {
                0 => 3,
                2 => 5,
                3 => 4,
                _ => 1,
            },
        };
        let energy_vapour: u8 = hex.vapour.outgoing().count() * 2;
        let energy_plant: u8 = match hex.cell {
            Cell::Plant(p) => {
                let n = p.mass.count();
                if n == 0 {
                    16
                } else {
                    n
                }
            },
            _ => 0,
        };
        Some(CellView { cell_type, energy: Some(energy_plant.saturating_add(energy_vapour)), direction: None })
    }
}

/// A saved state is always accepted back: the parts of every well-formed
/// simulation pass the check of `RainfallSim::from_parts`, so restoring them
/// gives the same simulation.
pub proof fn lemma_saved_parts_restore(sim: RainfallSim)
    requires
        sim.wf(),
    ensures
        forall|i: int| 0 <= i < sim.hexes_spec()@.len() ==> hex_ok(#[trigger] sim.hexes_spec()@[i]),
{
    let t = sim.hexes_spec();
    assert forall|i: int| 0 <= i < t@.len() implies hex_ok(#[trigger] t@[i]) by {
        crate::axial_tile::lemma_at_index(t, i);
    }
}

} // verus!
