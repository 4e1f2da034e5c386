//! The hive map: vapour moves through the air and is reflected by walls.
use vstd::prelude::*;

use crate::axial_tile::{AxialTile, RandomCellRule};
use crate::bit_particles::{bit, BitParticles};
use crate::coords::{dir_count, mask_set, mirror_set, Cube, Direction, DirectionSet, Neighbourhood};
use crate::hexgrid_view::{CellView, HexgridView};
use crate::rainfall::vapour;
use crate::rng::SimRng;

verus! {

/// What a hex holds.
#[derive(Clone, Copy, PartialEq, Eq, Debug, Structural)]
pub enum Cell {
    Border,
    Air,
    Wall,
    Seed,
    Worker,
    Object1,
    Object2,
}

/// A hex: its cell and its vapour.
#[derive(Clone, Copy, Debug)]
pub struct Hex {
    pub cell: Cell,
    pub vapour: BitParticles,
}

/// The vapour of the center after it moved and was reflected (borders and
/// walls) or drifted (elsewhere).
pub open spec fn hive_vapour(nh: Neighbourhood<Hex>, v: BitParticles) -> bool {
    exists|m: BitParticles|
        {
            &&& bit(m.value(), 6) == bit(nh.center.vapour.value(), 6)
            &&& bit(m.value(), 7) == bit(nh.center.vapour.value(), 7)
            &&& forall|d: Direction|
                #[trigger] m.outgoing_set().contains(d) == nh.neighbours@[d.opposite().idx()].vapour.outgoing_set().contains(d)
        } && if nh.center.cell == Cell::Border || nh.center.cell == Cell::Wall {
            v.outgoing_set() == mirror_set(m.outgoing_set()) && bit(v.value(), 6) == bit(m.value(), 6)
                && bit(v.value(), 7) == bit(m.value(), 7)
        } else {
            exists|rnd_rest: u8, shuffle: Option<u8>, rnd_bias: u8|
                #[trigger] vapour::air_rules_result(m, rnd_rest, shuffle, rnd_bias, v)
        }
}

/// Whether `m` is the vapour that moved into the center of `nh`: the
/// particles of the neighbours that moved towards it, and its own resting ones.
pub open spec fn hive_moved(nh: Neighbourhood<Hex>, m: BitParticles) -> bool {
    &&& bit(m.value(), 6) == bit(nh.center.vapour.value(), 6)
    &&& bit(m.value(), 7) == bit(nh.center.vapour.value(), 7)
    &&& forall|d: Direction|
        #[trigger] m.outgoing_set().contains(d) == nh.neighbours@[d.opposite().idx()].vapour.outgoing_set().contains(d)
}

/// Whether `v`, with the generator left in state `rng2`, is what the vapour
/// `m` that moved into the center becomes from the generator in state `rng`:
/// reflected by borders and walls (drawing nothing), elsewhere drifting with
/// the draws `vapour::air_draws`.
pub open spec fn hive_vapour_from(nh: Neighbourhood<Hex>, m: BitParticles, rng: SimRng, v: BitParticles, rng2: SimRng) -> bool {
    if nh.center.cell == Cell::Border || nh.center.cell == Cell::Wall {
        &&& v.outgoing_set() == mirror_set(m.outgoing_set())
        &&& bit(v.value(), 6) == bit(m.value(), 6)
        &&& bit(v.value(), 7) == bit(m.value(), 7)
        &&& rng2 == rng
    } else {
        &&& vapour::air_rules_result(
            m,
            vapour::air_draws(rng).0,
            vapour::air_draws(rng).1,
            vapour::air_draws(rng).2,
            v,
        )
        &&& rng2 == vapour::air_draws(rng).3
    }
}

/// Whether `out`, with the generator left in state `rng2`, is what one step
/// makes of the center of `nh` from the generator in state `rng`.
pub open spec fn hive_drawn(nh: Neighbourhood<Hex>, rng: SimRng, out: Hex, rng2: SimRng) -> bool {
    out.cell == nh.center.cell && exists|m: BitParticles|
        hive_moved(nh, m) && #[trigger] hive_vapour_from(nh, m, rng, out.vapour, rng2)
}

/// A step of a hex, and the draws it makes, are fixed by the generator's state.
proof fn lemma_hive_drawn_unique(nh: Neighbourhood<Hex>, rng: SimRng, o1: Hex, g1: SimRng, o2: Hex, g2: SimRng)
    requires
        hive_drawn(nh, rng, o1, g1),
        hive_drawn(nh, rng, o2, g2),
    ensures
        o1 == o2,
        g1 == g2,
{
    let m1 = choose|m: BitParticles| hive_moved(nh, m) && #[trigger] hive_vapour_from(nh, m, rng, o1.vapour, g1);
    let m2 = choose|m: BitParticles| hive_moved(nh, m) && #[trigger] hive_vapour_from(nh, m, rng, o2.vapour, g2);
    assert(m1.outgoing_set() =~= m2.outgoing_set());
    crate::bit_particles::lemma_value_from_parts(m1.value(), m2.value());
    assert(m1 == m2);
    crate::bit_particles::lemma_value_from_parts(o1.vapour.value(), o2.vapour.value());
}

/// The step of the hive, as a rule of a cellular automaton.
pub struct HiveRule;

impl RandomCellRule<Hex, Hex> for HiveRule {

    /// The one outcome of `hive_drawn`.
    open spec fn drawn(&self, nh: Neighbourhood<Hex>, rng: SimRng) -> (Hex, SimRng) {
        choose|p: (Hex, SimRng)| hive_drawn(nh, rng, p.0, p.1)
    }

    open spec fn applicable(&self, nh: Neighbourhood<Hex>) -> bool {
        true
    }

    open spec fn gives(&self, nh: Neighbourhood<Hex>, d: Hex) -> bool {
        d.cell == nh.center.cell && hive_vapour(nh, d.vapour)
    }

    fn apply(&self, nh: Neighbourhood<Hex>, rng: &mut SimRng) -> (r: Hex) {
        let vn = Neighbourhood {
            center: nh.center.vapour,
            neighbours: [
                nh.neighbours[0].vapour,
                nh.neighbours[1].vapour,
                nh.neighbours[2].vapour,
                nh.neighbours[3].vapour,
                nh.neighbours[4].vapour,
                nh.neighbours[5].vapour,
            ],
        };
        assert(forall|i: int| 0 <= i < 6 ==> vn.neighbours@[i] == nh.neighbours@[i].vapour);
        let ghost rng0 = *rng;
        let mut v = vapour::step(vn);
        let ghost m = v;
        match nh.center.cell {
            Cell::Border | Cell::Wall => v.reflect_all(),
            _ => vapour::apply_air_rules(&mut v, rng),
        }
        let r = Hex { cell: nh.center.cell, vapour: v };
        proof {
            assert(hive_moved(nh, m));
            assert(hive_vapour_from(nh, m, rng0, r.vapour, *rng));
            let w = (r, *rng);
            assert(hive_drawn(nh, rng0, w.0, w.1));
            let p = choose|p: (Hex, SimRng)| hive_drawn(nh, rng0, p.0, p.1);
            lemma_hive_drawn_unique(nh, rng0, p.0, p.1, r, *rng);
        }
        r
    }
}

/// The hive simulation.
pub struct HiveSim {
    hexes: AxialTile<Hex>,
    rng: SimRng,
}

impl HiveSim {
    pub closed spec fn hexes_spec(self) -> AxialTile<Hex> {
        self.hexes
    }

    pub open spec fn wf(self) -> bool {
        self.hexes_spec().well_sized()
    }

    /// A simulation on the map `cells`: air starts with one particle moving
    /// west, every other cell without vapour.
    pub fn new_with_map(cells: &AxialTile<Cell>, rng: SimRng) -> (r: HiveSim)
        requires
            cells.well_sized(),
        ensures
            r.wf(),
            r.hexes_spec().spec_width() == cells.spec_width(),
            r.hexes_spec().spec_height() == cells.spec_height(),
            r.hexes_spec()@.len() == cells@.len(),
            forall|i: int|
                0 <= i < cells@.len() ==> (#[trigger] r.hexes_spec()@[i]).cell == cells@[i] && (if cells@[i]
                    == Cell::Air {
                    r.hexes_spec()@[i].vapour.outgoing_set() == Set::<Direction>::empty().insert(
                        Direction::West,
                    ) && r.hexes_spec()@[i].vapour.resting_count() == 0
                } else {
                    r.hexes_spec()@[i].vapour.value() == 0
                }),
    {
        let mut vapour_init = BitParticles::empty();
        vapour_init.set_outgoing(DirectionSet::single(Direction::West));
        let src = cells.iter_cells();
        let mut data: Vec<Hex> = Vec::new();
        let mut i: usize = 0;
        while i < src.len()
            invariant
                src@ == cells@,
                0 <= i <= src@.len(),
                data@.len() == i,
                vapour_init.outgoing_set() == Set::<Direction>::empty().insert(Direction::West),
                vapour_init.resting_count() == 0,
                forall|k: int|
                    0 <= k < i ==> (#[trigger] data@[k]).cell == src@[k] && (if src@[k] == Cell::Air {
                        data@[k].vapour == vapour_init
                    } else {
                        data@[k].vapour.value() == 0
                    }),
            decreases src@.len() - i,
        {
            let cell = src[i];
            let vapour = if cell == Cell::Air {
                vapour_init
            } else {
                BitParticles::empty()
            };
            data.push(Hex { cell, vapour });
            i = i + 1;
        }
        HiveSim { hexes: AxialTile::new_internal(cells.width(), cells.height(), data), rng }
    }

    /// One step: every interior hex keeps its cell and its vapour changes as
    /// `hive_vapour` states; the hexes at the edge of the storage become
    /// border without vapour.
    pub fn step(&mut self)
        requires
            old(self).wf(),
        ensures
            final(self).wf(),
            final(self).hexes_spec().spec_width() == old(self).hexes_spec().spec_width(),
            final(self).hexes_spec().spec_height() == old(self).hexes_spec().spec_height(),
            forall|q: int, rr: int|
                old(self).hexes_spec().interior(q, rr) ==> HiveRule.gives(
                    old(self).hexes_spec().nh_at(q, rr),
                    #[trigger] final(self).hexes_spec().at(q, rr),
                ),
            forall|q: int, rr: int|
                0 <= q < old(self).hexes_spec().spec_width() && 0 <= rr < old(self).hexes_spec().spec_height()
                    && !old(self).hexes_spec().interior(q, rr) ==> (#[trigger] final(self).hexes_spec().at(
                    q,
                    rr,
                )).cell == Cell::Border && final(self).hexes_spec().at(q, rr).vapour.value() == 0,
            forall|q: int, rr: int|
                old(self).hexes_spec().interior(q, rr) ==> #[trigger] final(self).hexes_spec().at(q, rr)
                    == HiveRule.drawn(
                    old(self).hexes_spec().nh_at(q, rr),
                    old(self).hexes_spec().rng_before(&HiveRule, old(self).rng_spec(), q, rr),
                ).0,
            final(self).rng_spec() == old(self).hexes_spec().rng_before(
                &HiveRule,
                old(self).rng_spec(),
                1,
                old(self).hexes_spec().spec_height() - 1,
            ),
    {
        let border = Hex { cell: Cell::Border, vapour: BitParticles::empty() };
        let next = self.hexes.ca_step_random(border, &HiveRule, &mut self.rng);
        self.hexes = next;
    }

}


impl HiveSim {
    pub closed spec fn rng_spec(self) -> SimRng {
        self.rng
    }

    /// The cells and the generator (to save the state).
    pub fn parts(&self) -> (r: (&AxialTile<Hex>, &SimRng))
        ensures
            *r.0 == self.hexes_spec(),
            *r.1 == self.rng_spec(),
    {
        (&self.hexes, &self.rng)
    }

    /// A world from saved cells and generator.
    pub fn from_parts(hexes: AxialTile<Hex>, rng: SimRng) -> (r: Self)
        requires
            hexes.well_sized(),
        ensures
            r.wf(),
            r.hexes_spec() == hexes,
            r.rng_spec() == rng,
    {
        HiveSim { hexes, rng }
    }
}

impl HexgridView for HiveSim {
    open spec fn viewable(&self) -> bool {
        self.wf()
    }

    open spec fn shows(&self, pos: Cube, r: Option<CellView>) -> bool {
        match self.hexes_spec().cell_spec(pos) {
            Some(h) => if h.cell == Cell::Border {
                r is None
            } else {
                r matches Some(v) && v.direction is None && v.energy == Some(
                    (2 * dir_count(h.vapour.outgoing_set())) as u8,
                ) && v.cell_type == (match h.cell {
                    Cell::Air => 2u8,
                    Cell::Wall => 4u8,
                    Cell::Seed => 5u8,
                    Cell::Worker => 0u8,
                    Cell::Object1 => 3u8,
                    _ => 1u8,
                })
            },
            None => r is None
        }
    }

    /// How the hex at `pos` is rendered, with its moving vapour as the
    /// brightness; `None` off the map and on its border.
    fn cell_view(&self, pos: Cube) -> (r: Option<CellView>) {
        let hex = match self.hexes.cell(pos) {
            Some(h) => h,
            None => return None,
        };
        let cell_type: u8 = match hex.cell {
            Cell::Border => return None,
            Cell::Air => 2,
            Cell::Wall => 4,
            Cell::Seed => 5,
            Cell::Worker => 0,
            Cell::Object1 => 3,
            Cell::Object2 => 1,
        };
        Some(CellView { cell_type, energy: Some(hex.vapour.outgoing().count() * 2), direction: None })
    }
}

} // verus!
