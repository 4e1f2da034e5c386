//! Growth: cells grow into empty neighbours and pass energy along their
//! connections, by rules drawn at random.
use vstd::prelude::*;

use crate::axial_tile::{lemma_index_bound, tile_index, AxialTile, CellRule};
use crate::coords::{Angle, Cube, Direction, DirectionSet, Neighbourhood};
use crate::hexgrid_view::{saturate_u8, CellView, HexgridView};
use crate::hexmap::{self, location_at, radius_ok, side, Location, LocationRule};
use crate::rng::{below_u8_draw, random_seed, random_u8_below, seed_rng, SimRng};

verus! {

/// Radius of the map.
pub const RADIUS: i32 = 21;

/// Number of rules a simulation holds; rule 0 is the empty cell.
pub const MAX_CELL_TYPES: u8 = 8;

/// Energy a cell needs before it can grow into a neighbour.
pub const GROWTH_REQUIREMENT: u16 = 12;

/// The parameters of a growth simulation.
#[derive(Clone, Copy, Debug)]
pub struct Configuration {
    pub initial_energy: u16,
    pub cell_types: u8,
}

impl Default for Configuration {
    fn default() -> (r: Self)
        ensures
            r.initial_energy == 8000,
            r.cell_types == 6,
    {
        Configuration { initial_energy: 8000, cell_types: 6 }
    }
}

/// A cell of the map.
#[derive(Clone, Copy, Debug)]
pub struct Cell {
    pub rule: u8,
    pub connections: DirectionSet,
    pub energy: u16,
}

impl Cell {
    /// The empty cell.
    pub fn empty() -> (r: Cell)
        ensures
            r.rule == 0,
            r.energy == 0,
            r.connections@ == Set::<Direction>::empty(),
            r.connections == DirectionSet::none_spec(),
    {
        Cell { rule: 0, energy: 0, connections: DirectionSet::none() }
    }
}

/// The behaviour of cells of one rule.
#[derive(Clone, Copy, Debug)]
pub struct CellType {
    /// Energy passed along a connection, by the connections behind it.
    pub flow: [u8; 8],
    /// Rule of the cell grown in a direction, by the connections behind it.
    pub growth: [u8; 8],
}

/// Index into a table of a rule: the connections behind `dir` (right-back,
/// back, left-back), read as the bits of a number.
pub open spec fn conn_index(conn: Set<Direction>, dir: Direction) -> int {
    (if conn.contains(dir.turned(Angle::RightBack)) {
        4int
    } else {
        0
    }) + (if conn.contains(dir.turned(Angle::Back)) {
        2int
    } else {
        0
    }) + (if conn.contains(dir.turned(Angle::LeftBack)) {
        1int
    } else {
        0
    })
}

impl CellType {
    /// The rule of the cell grown in direction `dir`.
    pub open spec fn grow_type_spec(self, conn: Set<Direction>, dir: Direction) -> u8 {
        self.growth@[conn_index(conn, dir)]
    }

    /// The energy passed in direction `dir`.
    pub open spec fn flow_spec(self, conn: Set<Direction>, dir: Direction) -> u8 {
        self.flow@[conn_index(conn, dir)]
    }

    /// A rule that neither grows nor passes energy.
    pub fn new_inert() -> (r: Self)
        ensures
            forall|i: int| 0 <= i < 8 ==> r.flow@[i] == 0 && r.growth@[i] == 0,
    {
        CellType { flow: [0;8], growth: [0;8] }
    }

    /// A rule drawn at random: flows from `0..=4`, grown rules from
    /// `0..config.cell_types`.
    pub fn new_random(rng: &mut SimRng, config: &Configuration) -> (r: Self)
        requires
            config.cell_types > 0,
        ensures
            forall|i: int| 0 <= i < 8 ==> r.flow@[i] <= 4 && r.growth@[i] < config.cell_types,
            r.flow@ == below_drawn(*old(rng), 5, 8).0,
            r.growth@ == below_drawn(below_drawn(*old(rng), 5, 8).1, config.cell_types, 8).0,
            *final(rng) == below_drawn(below_drawn(*old(rng), 5, 8).1, config.cell_types, 8).1,
    {
        let flow = draw8(rng, 5);
        let growth = draw8(rng, config.cell_types);
        CellType { flow, growth }
    }

    fn table_index(connections: DirectionSet, dir: Direction) -> (r: usize)
        ensures
            r == conn_index(connections@, dir),
            r < 8,
    {
        let c1: usize = if connections.contains(dir.add_angle(Angle::RightBack)) {
            1
        } else {
            0
        };
        let c2: usize = if connections.contains(dir.add_angle(Angle::Back)) {
            1
        } else {
            0
        };
        let c3: usize = if connections.contains(dir.add_angle(Angle::LeftBack)) {
            1
        } else {
            0
        };
        c1 * 4 + c2 * 2 + c3
    }

    /// The rule of the cell grown in direction `growth_dir`.
    pub fn grow_type(&self, connections: DirectionSet, growth_dir: Direction) -> (r: u8)
        ensures
            r == self.grow_type_spec(connections@, growth_dir),
    {
        self.growth[Self::table_index(connections, growth_dir)]
    }

    /// The energy passed in direction `flow_dir`.
    pub fn flow(&self, connections: DirectionSet, flow_dir: Direction) -> (r: u8)
        ensures
            r == self.flow_spec(connections@, flow_dir),
    {
        self.flow[Self::table_index(connections, flow_dir)]
    }
}

/// The first `k` values drawn from `0..n` one after the other from the
/// generator in state `rng`, and the generator's next state.
pub open spec fn below_drawn(rng: SimRng, n: u8, k: nat) -> (Seq<u8>, SimRng)
    decreases k,
{
    if k == 0 {
        (Seq::empty(), rng)
    } else {
        let prev = below_drawn(rng, n, (k - 1) as nat);
        let d = below_u8_draw(prev.1, n);
        (prev.0.push(d.0), d.1)
    }
}

/// Eight values, each drawn from `0..n`.
fn draw8(rng: &mut SimRng, n: u8) -> (r: [u8; 8])
    requires
        n > 0,
    ensures
        forall|i: int| 0 <= i < 8 ==> r@[i] < n,
        r@ == below_drawn(*old(rng), n, 8).0,
        *final(rng) == below_drawn(*old(rng), n, 8).1,
{
    let ghost r0 = *rng;
    let a0 = random_u8_below(rng, n);
    let a1 = random_u8_below(rng, n);
    let a2 = random_u8_below(rng, n);
    let a3 = random_u8_below(rng, n);
    let a4 = random_u8_below(rng, n);
    let a5 = random_u8_below(rng, n);
    let a6 = random_u8_below(rng, n);
    let a7 = random_u8_below(rng, n);
    let r = [a0, a1, a2, a3, a4, a5, a6, a7];
    assert(forall|i: int| 0 <= i < 8 ==> r@[i] < n);
    proof {
        reveal_with_fuel(below_drawn, 9);
        assert(r@ =~= seq![a0, a1, a2, a3, a4, a5, a6, a7]);
        assert(below_drawn(r0, n, 8).0 =~= seq![a0, a1, a2, a3, a4, a5, a6, a7]);
    }
    r
}

/// Whether a cell names one of the rules.
pub open spec fn cell_ok(c: Option<Cell>) -> bool {
    c matches Some(x) ==> x.rule < MAX_CELL_TYPES
}

/// Whether every rule grows only cells of rules that exist.
pub open spec fn rules_ok(rules: [CellType; 8]) -> bool {
    forall|i: int, j: int| 0 <= i < 8 && 0 <= j < 8 ==> #[trigger] rules@[i].growth@[j] < MAX_CELL_TYPES
}

/// Whether all cells of a neighbourhood name one of the rules.
pub open spec fn nh_ok(nh: Neighbourhood<Option<Cell>>) -> bool {
    &&& cell_ok(nh.center)
    &&& forall|i: int| 0 <= i < 6 ==> cell_ok(#[trigger] nh.neighbours@[i])
}

/// Whether the center and all neighbours hold a cell.
pub open spec fn all_some(nh: Neighbourhood<Option<Cell>>) -> bool {
    nh.center is Some && forall|i: int| 0 <= i < 6 ==> (#[trigger] nh.neighbours@[i]) is Some
}

/// The rule that the neighbour at position `i` would grow into the center.
pub open spec fn neigh_grow(rules: [CellType; 8], ns: Seq<Cell>, i: int) -> u8 {
    rules@[ns[i].rule as int].grow_type_spec(ns[i].connections@, Direction::from_idx(i).opposite())
}

/// The highest rule that one of the first `k` neighbours would grow (0 if none).
pub open spec fn max_grow_upto(rules: [CellType; 8], ns: Seq<Cell>, k: int) -> u8
    decreases k,
{
    if k <= 0 {
        0
    } else {
        let m = max_grow_upto(rules, ns, k - 1);
        let g = neigh_grow(rules, ns, k - 1);
        if g > m {
            g
        } else {
            m
        }
    }
}

/// The rule that grows into an empty center: the highest that a neighbour offers.
pub open spec fn grow_target(rules: [CellType; 8], ns: Seq<Cell>) -> u8 {
    max_grow_upto(rules, ns, 6)
}

/// The directions of the neighbours that offer the rule that grows.
pub open spec fn grow_sources(rules: [CellType; 8], ns: Seq<Cell>) -> Set<Direction> {
    Set::new(|d: Direction| neigh_grow(rules, ns, d.idx()) == grow_target(rules, ns))
}

/// Whether a neighbour that offers the rule that grows has the energy to grow it.
pub open spec fn grow_allowed(rules: [CellType; 8], ns: Seq<Cell>) -> bool {
    exists|i: int|
        0 <= i < 6 && neigh_grow(rules, ns, i) == grow_target(rules, ns) && (#[trigger] ns[i]).energy
            >= GROWTH_REQUIREMENT
}

/// Energy passed along the connection between `c` and its neighbour `n` in
/// direction `d`: the smaller of what each side offers.
pub open spec fn pair_flow(rules: [CellType; 8], c: Cell, n: Cell, d: Direction) -> int {
    let f1 = rules@[c.rule as int].flow_spec(c.connections@, d.opposite());
    let f2 = rules@[n.rule as int].flow_spec(n.connections@, d);
    if f1 < f2 {
        f1 as int
    } else {
        f2 as int
    }
}

/// Energy that `c` gains from its neighbour `n` in direction `d` (negative
/// when it loses energy): it flows from the richer to the poorer cell, and
/// only when the richer cell could pass that much to all six neighbours.
pub open spec fn pair_transfer(rules: [CellType; 8], c: Cell, n: Cell, d: Direction) -> int {
    let f = pair_flow(rules, c, n, d);
    if c.energy > n.energy {
        if c.energy >= f * 6 {
            -f
        } else {
            0
        }
    } else if n.energy > c.energy {
        if n.energy >= f * 6 {
            f
        } else {
            0
        }
    } else {
        0
    }
}

/// Energy that `c` gains from its first `k` neighbours.
pub open spec fn transfer_upto(rules: [CellType; 8], c: Cell, ns: Seq<Cell>, k: int) -> int
    decreases k,
{
    if k <= 0 {
        0
    } else {
        transfer_upto(rules, c, ns, k - 1) + pair_transfer(rules, c, ns[k - 1], Direction::from_idx(k - 1))
    }
}

/// The energy of `c` after one step, saturated at the largest `u16`.
pub open spec fn new_energy(rules: [CellType; 8], c: Cell, ns: Seq<Cell>) -> int {
    let e = c.energy + transfer_upto(rules, c, ns, 6);
    if e > 0xFFFF {
        0xFFFF
    } else {
        e
    }
}

/// The cells of a neighbourhood whose cells are all present.
pub open spec fn unwrapped(nh: Neighbourhood<Option<Cell>>) -> Seq<Cell> {
    nh.neighbours@.map_values(|o: Option<Cell>| o.unwrap())
}

/// What one step makes of the center of `nh`: unchanged at the edge of the
/// map; an empty cell is grown into when a neighbour can; any other cell
/// only exchanges energy with its neighbours.
pub open spec fn step_gives(rules: [CellType; 8], nh: Neighbourhood<Option<Cell>>, out: Option<Cell>) -> bool {
    if !all_some(nh) {
        out == nh.center
    } else {
        let c = nh.center.unwrap();
        let ns = unwrapped(nh);
        if c.rule == 0 {
            if grow_allowed(rules, ns) {
                out matches Some(o) && o.rule == grow_target(rules, ns) && o.energy == 0
                    && o.connections@ == grow_sources(rules, ns)
            } else {
                out == nh.center
            }
        } else {
            out matches Some(o) && o.rule == c.rule && o.connections == c.connections && o.energy
                == new_energy(rules, c, ns)
        }
    }
}

/// Energy passes between two neighbours in equal and opposite amounts: what
/// one cell gains from the other, the other loses to it.
pub proof fn lemma_transfer_antisymmetric(rules: [CellType; 8], c: Cell, n: Cell, d: Direction)
    ensures
        pair_transfer(rules, c, n, d) == -pair_transfer(rules, n, c, d.opposite()),
{
    crate::coords::lemma_opposite_involution(d);
}

/// Energy flows downhill: a cell never gains from a poorer neighbour nor
/// loses to a richer one, two cells of equal energy exchange nothing, and no
/// more passes either way than the connection between them carries. A cell
/// gives a neighbour at most a sixth of its energy, so that it could give as
/// much to all six.
pub proof fn lemma_energy_flows_downhill(rules: [CellType; 8], c: Cell, n: Cell, d: Direction)
    ensures
        c.energy > n.energy ==> pair_transfer(rules, c, n, d) <= 0,
        n.energy > c.energy ==> pair_transfer(rules, c, n, d) >= 0,
        c.energy == n.energy ==> pair_transfer(rules, c, n, d) == 0,
        -pair_flow(rules, c, n, d) <= pair_transfer(rules, c, n, d) <= pair_flow(rules, c, n, d),
        6 * pair_transfer(rules, c, n, d) >= -c.energy,
        6 * pair_transfer(rules, c, n, d) <= n.energy,
{
}

/// In one step a cell at least as rich as each of its six neighbours does
/// not gain energy, and a cell no richer than any of them does not lose any.
pub proof fn lemma_richest_does_not_gain(rules: [CellType; 8], c: Cell, ns: Seq<Cell>)
    requires
        ns.len() == 6,
    ensures
        (forall|i: int| 0 <= i < 6 ==> c.energy >= (#[trigger] ns[i]).energy) ==> new_energy(rules, c, ns)
            <= c.energy,
        (forall|i: int| 0 <= i < 6 ==> c.energy <= (#[trigger] ns[i]).energy) ==> new_energy(rules, c, ns)
            >= c.energy,
{
    if forall|i: int| 0 <= i < 6 ==> c.energy >= (#[trigger] ns[i]).energy {
        lemma_no_gain_upto(rules, c, ns, 6);
    }
    if forall|i: int| 0 <= i < 6 ==> c.energy <= (#[trigger] ns[i]).energy {
        lemma_no_loss_upto(rules, c, ns, 6);
    }
}

proof fn lemma_no_gain_upto(rules: [CellType; 8], c: Cell, ns: Seq<Cell>, k: int)
    requires
        0 <= k <= 6,
        forall|i: int| 0 <= i < 6 ==> c.energy >= (#[trigger] ns[i]).energy,
    ensures
        transfer_upto(rules, c, ns, k) <= 0,
    decreases k,
{
    if k > 0 {
        lemma_no_gain_upto(rules, c, ns, k - 1);
        lemma_energy_flows_downhill(rules, c, ns[k - 1], Direction::from_idx(k - 1));
    }
}

proof fn lemma_no_loss_upto(rules: [CellType; 8], c: Cell, ns: Seq<Cell>, k: int)
    requires
        0 <= k <= 6,
        forall|i: int| 0 <= i < 6 ==> c.energy <= (#[trigger] ns[i]).energy,
    ensures
        transfer_upto(rules, c, ns, k) >= 0,
    decreases k,
{
    if k > 0 {
        lemma_no_loss_upto(rules, c, ns, k - 1);
        lemma_energy_flows_downhill(rules, c, ns[k - 1], Direction::from_idx(k - 1));
    }
}

/// A cell never passes on more energy than it has: its energy plus what it
/// gains from its six neighbours is never negative.
pub proof fn lemma_energy_nonnegative(rules: [CellType; 8], c: Cell, ns: Seq<Cell>)
    ensures
        c.energy + transfer_upto(rules, c, ns, 6) >= 0,
{
    lemma_outflow_bound(rules, c, ns, 6);
}

proof fn lemma_outflow_bound(rules: [CellType; 8], c: Cell, ns: Seq<Cell>, k: int)
    requires
        0 <= k <= 6,
    ensures
        6 * transfer_upto(rules, c, ns, k) >= -k * c.energy,
    decreases k,
{
    if k > 0 {
        lemma_outflow_bound(rules, c, ns, k - 1);
        assert(-(k - 1) * c.energy - c.energy == -k * c.energy) by (nonlinear_arith);
    }
}

/// Cells never die: a step keeps the rule of every cell that is not empty,
/// and keeps every cell at the edge of the map.
pub proof fn lemma_cells_persist(rules: [CellType; 8], nh: Neighbourhood<Option<Cell>>, out: Option<Cell>)
    requires
        step_gives(rules, nh, out),
    ensures
        (nh.center matches Some(c) && c.rule != 0) ==> (out matches Some(o) && o.rule == nh.center->0.rule),
        !all_some(nh) ==> out == nh.center,
{
}

/// The rules of a growth simulation, as a rule of a cellular automaton.
impl CellRule<Option<Cell>, Option<Cell>> for [CellType; 8] {
    open spec fn applicable(&self, nh: Neighbourhood<Option<Cell>>) -> bool {
        rules_ok(*self) && nh_ok(nh)
    }

    open spec fn gives(&self, nh: Neighbourhood<Option<Cell>>, d: Option<Cell>) -> bool {
        step_gives(*self, nh, d) && cell_ok(d)
    }

    fn apply(&self, nh: Neighbourhood<Option<Cell>>) -> (r: Option<Cell>) {
        match nh.valid_only() {
            None => nh.center,
            Some(n) => {
                proof {
                    assert(n.neighbours@ =~= unwrapped(nh));
                }
                if n.center.rule == 0 {
                    grow_step(self, n)
                } else {
                    Some(energy_step(self, n))
                }
            },
        }
    }
}

/// The directions among the first `k` neighbours that offer rule `m`.
spec fn sources_upto(rules: [CellType; 8], ns: Seq<Cell>, k: int, m: u8) -> Set<Direction> {
    Set::new(|d: Direction| d.idx() < k && neigh_grow(rules, ns, d.idx()) == m)
}

/// Whether one of the first `k` neighbours offers rule `m` and has the energy to grow it.
spec fn allowed_upto(rules: [CellType; 8], ns: Seq<Cell>, k: int, m: u8) -> bool {
    exists|j: int|
        0 <= j < k && neigh_grow(rules, ns, j) == m && (#[trigger] ns[j]).energy >= GROWTH_REQUIREMENT
}

proof fn lemma_sources_step(rules: [CellType; 8], ns: Seq<Cell>, i: int, m: u8)
    requires
        0 <= i < 6,
    ensures
        sources_upto(rules, ns, i + 1, m) == (if neigh_grow(rules, ns, i) == m {
            sources_upto(rules, ns, i, m).insert(Direction::from_idx(i))
        } else {
            sources_upto(rules, ns, i, m)
        }),
{
    let a = sources_upto(rules, ns, i + 1, m);
    let b = if neigh_grow(rules, ns, i) == m {
        sources_upto(rules, ns, i, m).insert(Direction::from_idx(i))
    } else {
        sources_upto(rules, ns, i, m)
    };
    Direction::lemma_from_idx(i);
    assert forall|d: Direction| a.contains(d) <==> b.contains(d) by {
        d.lemma_idx_range();
    }
    assert(a =~= b);
}

#[verifier::rlimit(40)]
proof fn lemma_allowed_step(rules: [CellType; 8], ns: Seq<Cell>, i: int, m: u8)
    requires
        0 <= i < 6,
    ensures
        allowed_upto(rules, ns, i + 1, m) == (allowed_upto(rules, ns, i, m) || (neigh_grow(rules, ns, i)
            == m && ns[i].energy >= GROWTH_REQUIREMENT)),
{
    if allowed_upto(rules, ns, i + 1, m) {
        let j = choose|j: int|
            0 <= j < i + 1 && neigh_grow(rules, ns, j) == m && (#[trigger] ns[j]).energy
                >= GROWTH_REQUIREMENT;
        if j < i {
            assert(allowed_upto(rules, ns, i, m));
        }
    }
    if allowed_upto(rules, ns, i, m) {
        let j = choose|j: int|
            0 <= j < i && neigh_grow(rules, ns, j) == m && (#[trigger] ns[j]).energy
                >= GROWTH_REQUIREMENT;
        assert(ns[j].energy >= GROWTH_REQUIREMENT);
    }
    if neigh_grow(rules, ns, i) == m && ns[i].energy >= GROWTH_REQUIREMENT {
        assert(ns[i].energy >= GROWTH_REQUIREMENT);
    }
}

proof fn lemma_upto_none(rules: [CellType; 8], ns: Seq<Cell>, i: int, m: u8)
    requires
        forall|j: int| 0 <= j < i ==> neigh_grow(rules, ns, j) < m,
    ensures
        sources_upto(rules, ns, i, m) == Set::<Direction>::empty(),
        !allowed_upto(rules, ns, i, m),
{
    assert(sources_upto(rules, ns, i, m) =~= Set::<Direction>::empty());
}

/// The step of an empty cell: the neighbours that offer the highest rule
/// grow it, if one of them has the energy.
#[verifier::rlimit(60)]
fn grow_step(rules: &[CellType; 8], n: Neighbourhood<Cell>) -> (r: Option<Cell>)
    requires
        rules_ok(*rules),
        forall|i: int| 0 <= i < 6 ==> (#[trigger] n.neighbours@[i]).rule < MAX_CELL_TYPES,
    ensures
        if grow_allowed(*rules, n.neighbours@) {
            r matches Some(o) && o.rule == grow_target(*rules, n.neighbours@) && o.energy == 0
                && o.connections@ == grow_sources(*rules, n.neighbours@) && o.rule < MAX_CELL_TYPES
        } else {
            r == Some(n.center)
        },
{
    let ghost ns = n.neighbours@;
    let dirs = n.iter_dirs();
    let mut grow_into: u8 = 0;
    let mut grow_from = DirectionSet::none();
    let mut allowed = false;
    proof {
        lemma_upto_none(*rules, ns, 0, 0);
    }
    let mut i: usize = 0;
    while i < 6
        invariant
            0 <= i <= 6,
            ns == n.neighbours@,
            rules_ok(*rules),
            forall|j: int| 0 <= j < 6 ==> (#[trigger] n.neighbours@[j]).rule < MAX_CELL_TYPES,
            forall|j: int| 0 <= j < 6 ==> #[trigger] dirs@[j] == (Direction::from_idx(j), n.neighbours@[j]),
            grow_into == max_grow_upto(*rules, ns, i as int),
            grow_into < MAX_CELL_TYPES,
            forall|j: int| 0 <= j < i ==> neigh_grow(*rules, ns, j) <= grow_into,
            grow_from@ == sources_upto(*rules, ns, i as int, grow_into),
            allowed == allowed_upto(*rules, ns, i as int, grow_into),
        decreases 6 - i,
    {
        let (dir, neigh) = dirs[i];
        let g = rules[neigh.rule as usize].grow_type(neigh.connections, dir.neg());
        assert(g == neigh_grow(*rules, ns, i as int));
        assert(g < MAX_CELL_TYPES) by {
            let k = conn_index(neigh.connections@, dir.opposite());
            assert(0 <= k < 8);
            assert(rules@[neigh.rule as int].growth@[k] < MAX_CELL_TYPES);
        }
        let can_grow = neigh.energy >= GROWTH_REQUIREMENT;
        if g > grow_into {
            proof {
                lemma_upto_none(*rules, ns, i as int, g);
            }
            grow_into = g;
            grow_from = DirectionSet::none();
            allowed = false;
        }
        proof {
            lemma_sources_step(*rules, ns, i as int, grow_into);
            lemma_allowed_step(*rules, ns, i as int, grow_into);
        }
        if g == grow_into {
            grow_from = grow_from.with(dir, true);
            allowed = allowed || can_grow;
        }
        i = i + 1;
    }
    proof {
        assert(grow_from@ =~= grow_sources(*rules, ns)) by {
            assert forall|d: Direction| grow_from@.contains(d) <==> grow_sources(*rules, ns).contains(d) by {
                d.lemma_idx_range();
            }
        }
        if allowed {
            let j = choose|j: int|
                0 <= j < 6 && neigh_grow(*rules, ns, j) == grow_into && (#[trigger] ns[j]).energy
                    >= GROWTH_REQUIREMENT;
            assert(ns[j].energy >= GROWTH_REQUIREMENT);
        }
        if grow_allowed(*rules, ns) {
            let j = choose|j: int|
                0 <= j < 6 && neigh_grow(*rules, ns, j) == grow_target(*rules, ns) && (#[trigger] ns[j]).energy
                    >= GROWTH_REQUIREMENT;
            assert(ns[j].energy >= GROWTH_REQUIREMENT);
        }
    }
    if allowed {
        Some(Cell { rule: grow_into, energy: 0, connections: grow_from })
    } else {
        Some(n.center)
    }
}

/// The step of a cell that is not empty: it exchanges energy with its neighbours.
fn energy_step(rules: &[CellType; 8], n: Neighbourhood<Cell>) -> (r: Cell)
    requires
        n.center.rule < MAX_CELL_TYPES,
        forall|i: int| 0 <= i < 6 ==> (#[trigger] n.neighbours@[i]).rule < MAX_CELL_TYPES,
    ensures
        r.rule == n.center.rule,
        r.connections == n.center.connections,
        r.energy == new_energy(*rules, n.center, n.neighbours@),
{
    let ghost ns = n.neighbours@;
    let center = n.center;
    let dirs = n.iter_dirs();
    let center_rule = &rules[center.rule as usize];
    let mut transfer: i32 = 0;
    let mut i: usize = 0;
    while i < 6
        invariant
            0 <= i <= 6,
            ns == n.neighbours@,
            center == n.center,
            center.rule < MAX_CELL_TYPES,
            *center_rule == rules@[center.rule as int],
            forall|j: int| 0 <= j < 6 ==> (#[trigger] n.neighbours@[j]).rule < MAX_CELL_TYPES,
            forall|j: int| 0 <= j < 6 ==> #[trigger] dirs@[j] == (Direction::from_idx(j), n.neighbours@[j]),
            transfer == transfer_upto(*rules, center, ns, i as int),
            -255 * i <= transfer <= 255 * i,
        decreases 6 - i,
    {
        let (dir, neigh) = dirs[i];
        let neigh_rule = &rules[neigh.rule as usize];
        let flow1 = center_rule.flow(center.connections, dir.neg());
        let flow2 = neigh_rule.flow(neigh.connections, dir);
        let flow = if flow1 < flow2 {
            flow1
        } else {
            flow2
        };
        assert(flow == pair_flow(*rules, center, neigh, dir));
        let energy1 = center.energy;
        let energy2 = neigh.energy;
        if energy1 > energy2 {
            if energy1 >= flow as u16 * 6 {
                transfer = transfer - flow as i32;
            }
        } else if energy2 > energy1 {
            if energy2 >= flow as u16 * 6 {
                transfer = transfer + flow as i32;
            }
        }
        i = i + 1;
    }
    proof {
        lemma_energy_nonnegative(*rules, center, ns);
    }
    let energy: i32 = center.energy as i32 + transfer;
    let energy: u16 = if energy > 0xFFFF {
        0xFFFF
    } else {
        energy as u16
    };
    Cell { energy, ..center }
}

/// How a new simulation fills its map: one seed cell of rule 1 at the center,
/// empty cells elsewhere.
pub struct Seeding {
    pub initial_energy: u16,
}

/// The cell that a new simulation holds at a location at distance `dist`
/// from the center.
pub open spec fn seeded_cell(initial_energy: u16, dist: int, c: Option<Cell>) -> bool {
    c matches Some(x) && if dist == 0 {
        x.rule == 1 && x.energy == initial_energy && x.connections@ == Set::<Direction>::empty().insert(
            Direction::West,
        )
    } else {
        x.rule == 0 && x.energy == 0 && x.connections@ == Set::<Direction>::empty()
    }
}

impl LocationRule<Option<Cell>> for Seeding {
    open spec fn gives(&self, loc: Location, c: Option<Cell>) -> bool {
        seeded_cell(self.initial_energy, loc.offset().spec_distance(Cube { x: 0, y: 0 }), c) && cell_ok(c)
    }

    open spec fn made(&self, loc: Location, rng: SimRng) -> (Option<Cell>, SimRng) {
        if loc.offset().spec_distance(Cube { x: 0, y: 0 }) == 0 {
            (
                Some(
                    Cell {
                        rule: 1,
                        energy: self.initial_energy,
                        connections: DirectionSet::single_spec(Direction::West),
                    },
                ),
                rng,
            )
        } else {
            (Some(Cell { rule: 0, energy: 0, connections: DirectionSet::none_spec() }), rng)
        }
    }

    fn make(&self, loc: Location, _rng: &mut SimRng) -> (r: Option<Cell>) {
        if loc.dist_from_center() == 0 {
            Some(
                Cell {
                    rule: 1,
                    energy: self.initial_energy,
                    connections: DirectionSet::single(Direction::West),
                },
            )
        } else {
            Some(Cell::empty())
        }
    }
}

/// Whether every cell of the tile names one of the rules.
pub open spec fn tile_ok(t: AxialTile<Option<Cell>>) -> bool {
    forall|q: int, r: int|
        0 <= q < t.spec_width() && 0 <= r < t.spec_height() ==> cell_ok(#[trigger] t.at(q, r))
}

/// Number of cells that are not empty.
pub open spec fn count_live(s: Seq<Option<Cell>>) -> int
    decreases s.len(),
{
    if s.len() == 0 {
        0
    } else {
        count_live(s.drop_last()) + if s.last() matches Some(c) && c.rule != 0 {
            1int
        } else {
            0
        }
    }
}

/// A growth simulation.
pub struct GrowthSim {
    rng: SimRng,
    rules: [CellType; 8],
    state: AxialTile<Option<Cell>>,
}

impl Configuration {
    /// A simulation with these parameters, seeded at random.
    pub fn into_simulation(self) -> (r: GrowthSim)
        requires
            0 < self.cell_types <= MAX_CELL_TYPES,
        ensures
            r.wf(),
            forall|j: int| 0 <= j < 8 ==> r.rules_spec()@[0].flow@[j] == 0 && r.rules_spec()@[0].growth@[j] == 0,
            forall|i: int, j: int|
                1 <= i < 8 && 0 <= j < 8 ==> #[trigger] r.rules_spec()@[i].flow@[j] <= 4
                    && r.rules_spec()@[i].growth@[j] < self.cell_types,
            r.state_spec().spec_width() == side(RADIUS as int),
            r.state_spec().spec_height() == side(RADIUS as int),
            forall|i: int|
                0 <= i < r.state_spec()@.len() ==> {
                    let loc = location_at(
                        RADIUS as int,
                        crate::axial_tile::pos_of_index(side(RADIUS as int), i),
                    );
                    let dist = loc.offset().spec_distance(Cube { x: 0, y: 0 });
                    if dist > RADIUS {
                        #[trigger] r.state_spec()@[i] == None::<Cell>
                    } else {
                        seeded_cell(self.initial_energy, dist, r.state_spec()@[i])
                    }
                },
    {
        let seed = random_seed();
        GrowthSim::new_with_config(seed, self)
    }
}

impl GrowthSim {
    /// The rules of the simulation.
    pub closed spec fn rules_spec(self) -> [CellType; 8] {
        self.rules
    }

    /// The map of the simulation.
    pub closed spec fn state_spec(self) -> AxialTile<Option<Cell>> {
        self.state
    }

    /// The generator of the simulation.
    pub closed spec fn rng_spec(self) -> SimRng {
        self.rng
    }

    /// What every simulation keeps: rules that grow only rules that exist,
    /// and cells that name one of the rules.
    pub open spec fn wf(self) -> bool {
        &&& rules_ok(self.rules_spec())
        &&& self.state_spec().well_sized()
        &&& tile_ok(self.state_spec())
    }

    /// A simulation with the default parameters, seeded at random.
    pub fn new() -> (r: Self)
        ensures
            r.wf(),
            forall|j: int| 0 <= j < 8 ==> r.rules_spec()@[0].flow@[j] == 0 && r.rules_spec()@[0].growth@[j] == 0,
            forall|i: int, j: int|
                1 <= i < 8 && 0 <= j < 8 ==> #[trigger] r.rules_spec()@[i].flow@[j] <= 4
                    && r.rules_spec()@[i].growth@[j] < 6,
            r.state_spec().spec_width() == side(RADIUS as int),
            r.state_spec().spec_height() == side(RADIUS as int),
            forall|i: int|
                0 <= i < r.state_spec()@.len() ==> {
                    let loc = location_at(
                        RADIUS as int,
                        crate::axial_tile::pos_of_index(side(RADIUS as int), i),
                    );
                    let dist = loc.offset().spec_distance(Cube { x: 0, y: 0 });
                    if dist > RADIUS {
                        #[trigger] r.state_spec()@[i] == None::<Cell>
                    } else {
                        seeded_cell(8000, dist, r.state_spec()@[i])
                    }
                },
    {
        Self::new_with_config(random_seed(), Configuration::default())
    }

    /// A simulation whose rules are drawn from a generator seeded with `seed`:
    /// rule 0 is inert, the others draw their flows from `0..=4` and the
    /// rules they grow from `0..config.cell_types`. The map holds one cell
    /// of rule 1 at its center, with `config.initial_energy`, connected
    /// towards the west.
    pub fn new_with_config(seed: u64, config: Configuration) -> (r: Self)
        requires
            0 < config.cell_types <= MAX_CELL_TYPES,
        ensures
            r.wf(),
            forall|j: int| 0 <= j < 8 ==> r.rules_spec()@[0].flow@[j] == 0 && r.rules_spec()@[0].growth@[j] == 0,
            forall|i: int, j: int|
                1 <= i < 8 && 0 <= j < 8 ==> #[trigger] r.rules_spec()@[i].flow@[j] <= 4
                    && r.rules_spec()@[i].growth@[j] < config.cell_types,
            r.state_spec().spec_width() == side(RADIUS as int),
            r.state_spec().spec_height() == side(RADIUS as int),
            forall|i: int|
                0 <= i < r.state_spec()@.len() ==> {
                    let loc = location_at(
                        RADIUS as int,
                        crate::axial_tile::pos_of_index(side(RADIUS as int), i),
                    );
                    let dist = loc.offset().spec_distance(Cube { x: 0, y: 0 });
                    if dist > RADIUS {
                        #[trigger] r.state_spec()@[i] == None::<Cell>
                    } else {
                        seeded_cell(config.initial_energy, dist, r.state_spec()@[i])
                    }
                },
    {
        let mut rng = seed_rng(seed);
        assert(radius_ok(RADIUS as int)) by (nonlinear_arith)
            requires
                RADIUS == 21,
        ;
        let state = hexmap::new_with(
            RADIUS,
            None,
            &Seeding { initial_energy: config.initial_energy },
            &mut rng,
        );
        let r1 = CellType::new_random(&mut rng, &config);
        let r2 = CellType::new_random(&mut rng, &config);
        let r3 = CellType::new_random(&mut rng, &config);
        let r4 = CellType::new_random(&mut rng, &config);
        let r5 = CellType::new_random(&mut rng, &config);
        let r6 = CellType::new_random(&mut rng, &config);
        let r7 = CellType::new_random(&mut rng, &config);
        let r0 = CellType::new_inert();
        let rules = [r0, r1, r2, r3, r4, r5, r6, r7];
        let sim = GrowthSim { rng, rules, state };
        proof {
            assert(rules@ == seq![r0, r1, r2, r3, r4, r5, r6, r7]);
            assert forall|q: int, rr: int|
                0 <= q < state.spec_width() && 0 <= rr < state.spec_height() implies cell_ok(
                #[trigger] state.at(q, rr),
            ) by {
                lemma_index_bound(state.spec_width(), state.spec_height(), q, rr);
            }
        }
        sim
    }

    /// Number of cells that are not empty.
    pub fn count_cells(&self) -> (r: i32)
        requires
            self.wf(),
        ensures
            r == count_live(self.state_spec()@),
    {
        let cells = self.state.iter_cells();
        let mut n: i32 = 0;
        let mut i: usize = 0;
        while i < cells.len()
            invariant
                cells@ == self.state@,
                self.state.well_sized(),
                0 <= i <= cells@.len(),
                n == count_live(cells@.subrange(0, i as int)),
                0 <= n <= i,
            decreases cells@.len() - i,
        {
            proof {
                assert(cells@.subrange(0, i as int + 1).drop_last() =~= cells@.subrange(0, i as int));
            }
            match cells[i] {
                Some(c) => {
                    if c.rule != 0 {
                        n = n + 1;
                    }
                },
                None => {},
            }
            i = i + 1;
        }
        proof {
            assert(cells@.subrange(0, cells@.len() as int) =~= cells@);
        }
        n
    }

    /// One step: every cell of the map changes as `step_gives` states.
    pub fn step(&mut self)
        requires
            old(self).wf(),
        ensures
            final(self).wf(),
            final(self).rules_spec() == old(self).rules_spec(),
            final(self).state_spec().spec_width() == old(self).state_spec().spec_width(),
            final(self).state_spec().spec_height() == old(self).state_spec().spec_height(),
            forall|q: int, rr: int|
                old(self).state_spec().interior(q, rr) ==> step_gives(
                    old(self).rules_spec(),
                    old(self).state_spec().nh_at(q, rr),
                    #[trigger] final(self).state_spec().at(q, rr),
                ),
            forall|q: int, rr: int|
                0 <= q < old(self).state_spec().spec_width() && 0 <= rr < old(
                    self,
                ).state_spec().spec_height() && !old(self).state_spec().interior(q, rr)
                    ==> #[trigger] final(self).state_spec().at(q, rr) is None,
    {
        proof {
            assert forall|q: int, rr: int| self.state.interior(q, rr) implies self.rules.applicable(
                #[trigger] self.state.nh_at(q, rr),
            ) by {
                self.state.lemma_nh_exists(q, rr);
                let nh = self.state.nh_at(q, rr);
                assert(cell_ok(self.state.at(q, rr)));
                assert forall|i: int| 0 <= i < 6 implies cell_ok(#[trigger] nh.neighbours@[i]) by {
                    let d = Direction::from_idx(i);
                    assert(cell_ok(self.state.at(q + d.dx(), rr + crate::axial_tile::dz(d))));
                }
            }
        }
        let next = self.state.ca_step_rule(None, &self.rules);
        self.state = next;
    }

}


impl GrowthSim {
    /// The generator, the rules and the map (to save the state).
    pub fn parts(&self) -> (r: (&SimRng, &[CellType; 8], &AxialTile<Option<Cell>>))
        ensures
            *r.0 == self.rng_spec(),
            *r.1 == self.rules_spec(),
            *r.2 == self.state_spec(),
    {
        (&self.rng, &self.rules, &self.state)
    }

    /// A simulation from saved parts; `None` where a rule grows a rule that
    /// does not exist or a cell names a rule that does not exist.
    pub fn from_parts(rng: SimRng, rules: [CellType; 8], state: AxialTile<Option<Cell>>) -> (r: Option<Self>)
        requires
            state.well_sized(),
        ensures
            r is Some <==> rules_ok(rules) && forall|i: int| 0 <= i < state@.len() ==> cell_ok(#[trigger] state@[i]),
            r matches Some(sim) ==> sim.wf() && sim.rules_spec() == rules && sim.state_spec() == state
                && sim.rng_spec() == rng,
    {
        let mut i: usize = 0;
        while i < 8
            invariant
                0 <= i <= 8,
                forall|a: int, b: int| 0 <= a < i && 0 <= b < 8 ==> #[trigger] rules@[a].growth@[b] < MAX_CELL_TYPES,
            decreases 8 - i,
        {
            let mut j: usize = 0;
            while j < 8
                invariant
                    0 <= i < 8,
                    0 <= j <= 8,
                    forall|a: int, b: int| 0 <= a < i && 0 <= b < 8 ==> #[trigger] rules@[a].growth@[b] < MAX_CELL_TYPES,
                    forall|b: int| 0 <= b < j ==> #[trigger] rules@[i as int].growth@[b] < MAX_CELL_TYPES,
                decreases 8 - j,
            {
                if rules[i].growth[j] >= MAX_CELL_TYPES {
                    return None;
                }
                j = j + 1;
            }
            i = i + 1;
        }
        let cells = state.iter_cells();
        let mut k: usize = 0;
        while k < cells.len()
            invariant
                cells@ == state@,
                0 <= k <= cells@.len(),
                forall|a: int| 0 <= a < k ==> cell_ok(#[trigger] cells@[a]),
            decreases cells@.len() - k,
        {
            match cells[k] {
                Some(c) => {
                    if c.rule >= MAX_CELL_TYPES {
                        return None;
                    }
                },
                None => {},
            }
            k = k + 1;
        }
        proof {
            assert forall|q: int, rr: int|
                0 <= q < state.spec_width() && 0 <= rr < state.spec_height() implies cell_ok(#[trigger] state.at(q, rr)) by {
                lemma_index_bound(state.spec_width(), state.spec_height(), q, rr);
            }
        }
        Some(GrowthSim { rng, rules, state })
    }
}

impl HexgridView for GrowthSim {
    open spec fn viewable(&self) -> bool {
        self.wf()
    }

    open spec fn shows(&self, pos: Cube, r: Option<CellView>) -> bool {
        match self.state_spec().cell_spec(pos) {
            Some(Some(c)) => r matches Some(v) && v.cell_type == c.rule && v.direction is None
                && v.energy == Some(if c.energy > 255 { 255u8 } else { c.energy as u8 }),
            _ => r is None
        }
    }

    /// How the cell at `pos` is rendered: its rule as the type, its energy
    /// (saturated) as the brightness.
    fn cell_view(&self, pos: Cube) -> (r: Option<CellView>) {
        match self.state.cell(pos) {
            Some(Some(c)) => Some(
                CellView { cell_type: c.rule, direction: None, energy: Some(saturate_u8(c.energy)) },
            ),
            _ => None,
        }
    }
}

/// A saved state is always accepted back: the parts of every well-formed
/// simulation pass the checks of `GrowthSim::from_parts`, so restoring them
/// gives the same simulation.
pub proof fn lemma_saved_parts_restore(sim: GrowthSim)
    requires
        sim.wf(),
    ensures
        rules_ok(sim.rules_spec()),
        forall|i: int| 0 <= i < sim.state_spec()@.len() ==> cell_ok(#[trigger] sim.state_spec()@[i]),
{
    let t = sim.state_spec();
    assert forall|i: int| 0 <= i < t@.len() implies cell_ok(#[trigger] t@[i]) by {
        crate::axial_tile::lemma_at_index(t, i);
    }
}

} // verus!
