//! Tumblers: blobs with headings that move through the air, each cell
//! updated by a lookup table of features of its neighbourhood.
use vstd::prelude::*;

use crate::axial_tile::{AxialTile, CellRule, RandomCellRule};
use crate::coords::{Cube, Direction, Neighbourhood};
use crate::hexgrid_view::{CellView, HexgridView};
use crate::hexmap::{self, radius_ok, Location, LocationRule};
use crate::rng::{
    below_u8_draw, choose_from, index_draw, random_ratio, random_seed, random_u8, random_u8_below, ratio_draw, seed_rng, seeded,
    u8_draw, SimRng,
};

verus! {

/// Radius of the map.
pub const RADIUS: i32 = 12;

/// The kinds of cells.
#[derive(Clone, Copy, PartialEq, Eq, Debug, Structural)]
pub enum CellType {
    Border,
    Stone,
    Air,
    Blob,
}

/// A cell: its kind and the direction it heads to, if any.
#[derive(Clone, Copy, PartialEq, Eq, Debug, Structural)]
pub struct Cell {
    pub kind: CellType,
    pub heading: Option<Direction>,
}

impl Cell {
    /// The cell outside the map.
    pub fn border() -> (r: Cell)
        ensures
            r.kind == CellType::Border,
            r.heading is None,
    {
        Cell { kind: CellType::Border, heading: None }
    }
}

/// A rule of the tumblers: a table of three features for each kind of
/// neighbour relation, thresholds on their sums, and two tables indexed by
/// which sums exceed their thresholds.
#[derive(Clone, Copy, Debug)]
pub struct LutRule {
    pub neighbourhood_features: [[i8; 3]; 12],
    pub neighbourhood_features_thresholds: [i8; 3],
    pub transform: [bool; 8],
    pub change_heading: [bool; 8],
}

/// Whether the features are small enough that six of them add up without
/// overflow.
pub open spec fn rule_ok(rule: LutRule) -> bool {
    forall|i: int, k: int|
        0 <= i < 12 && 0 <= k < 3 ==> -21 <= #[trigger] rule.neighbourhood_features@[i]@[k] <= 21
}

/// The code of the kind of a neighbour: air 0, blob 1, stone or border 2.
pub open spec fn kind_code(k: CellType) -> int {
    match k {
        CellType::Air => 0,
        CellType::Blob => 1,
        _ => 2,
    }
}

/// Which row of the feature table the neighbour `n` in direction `dir` of
/// the center `c` selects: whether it heads to the center (1), whether the
/// center heads to it (2), and its kind (4 times its code).
pub open spec fn feature_index(c: Cell, n: Cell, dir: Direction) -> int {
    (if n.heading == Some(dir.opposite()) {
        1int
    } else {
        0
    }) + (if c.heading == Some(dir) {
        2int
    } else {
        0
    }) + 4 * kind_code(n.kind)
}

/// The row that a neighbour selects encodes three facts: its lowest bit is
/// set exactly when the neighbour heads back onto the center (its heading
/// undoes the step from the center to it), the next bit exactly when the
/// center heads onto the neighbour, and the rest is the neighbour's kind.
/// So the row is always one of the twelve rows of the table.
pub proof fn lemma_feature_index_bits(c: Cell, n: Cell, dir: Direction)
    ensures
        0 <= feature_index(c, n, dir) < 12,
        (feature_index(c, n, dir) % 2 == 1) <==> (n.heading matches Some(h) && h.dx() == -dir.dx() && h.dy()
            == -dir.dy()),
        ((feature_index(c, n, dir) / 2) % 2 == 1) <==> (c.heading matches Some(h) && h.dx() == dir.dx() && h.dy()
            == dir.dy()),
        feature_index(c, n, dir) / 4 == kind_code(n.kind),
{
    if let Some(h) = n.heading {
        crate::coords::lemma_step_undone_only_by_opposite(dir, h);
    }
}

/// Sum of feature `k` over the first `i` neighbours.
pub open spec fn feature_sum(rule: LutRule, nh: Neighbourhood<Cell>, k: int, i: int) -> int
    decreases i,
{
    if i <= 0 {
        0
    } else {
        feature_sum(rule, nh, k, i - 1) + rule.neighbourhood_features@[feature_index(
            nh.center,
            nh.neighbours@[i - 1],
            Direction::from_idx(i - 1),
        )]@[k]
    }
}

/// The index into the tables: bit `k` set where the sum of feature `k`
/// exceeds its threshold.
pub open spec fn lut_index(rule: LutRule, nh: Neighbourhood<Cell>) -> int {
    (if feature_sum(rule, nh, 0, 6) > rule.neighbourhood_features_thresholds@[0] {
        1int
    } else {
        0
    }) + (if feature_sum(rule, nh, 1, 6) > rule.neighbourhood_features_thresholds@[1] {
        2int
    } else {
        0
    }) + (if feature_sum(rule, nh, 2, 6) > rule.neighbourhood_features_thresholds@[2] {
        4int
    } else {
        0
    })
}

/// What the rule makes of the center of `nh`: where the table says so it
/// turns air into blob and anything else into air, and where the other
/// table says so it takes a random heading (possibly none).
pub open spec fn lut_gives(rule: LutRule, nh: Neighbourhood<Cell>, out: Cell) -> bool {
    let idx = lut_index(rule, nh);
    &&& out.kind == (if rule.transform@[idx] {
        if nh.center.kind == CellType::Air {
            CellType::Blob
        } else {
            CellType::Air
        }
    } else {
        nh.center.kind
    })
    &&& !rule.change_heading@[idx] ==> out.heading == nh.center.heading
}

/// The heading that the byte `b` picks: the direction at clockwise position
/// `b % 8` where that is below 6, none otherwise.
pub open spec fn heading_of(b: u8) -> Option<Direction> {
    if b % 8 < 6 {
        Some(Direction::from_idx((b % 8) as int))
    } else {
        None
    }
}

/// The update of the center of `nh` by `rule` from the generator in state
/// `rng`, and the generator's next state: where the table of headings says
/// so a byte is drawn and picks the heading (`heading_of`); where the table
/// of kinds says so, air becomes blob and anything else air.
pub open spec fn lut_step(rule: LutRule, nh: Neighbourhood<Cell>, rng: SimRng) -> (Cell, SimRng) {
    let idx = lut_index(rule, nh);
    let h = u8_draw(rng);
    let heading = if rule.change_heading@[idx] {
        heading_of(h.0)
    } else {
        nh.center.heading
    };
    let kind = if rule.transform@[idx] {
        if nh.center.kind == CellType::Air {
            CellType::Blob
        } else {
            CellType::Air
        }
    } else {
        nh.center.kind
    };
    (Cell { kind, heading }, if rule.change_heading@[idx] {
        h.1
    } else {
        rng
    })
}

/// The values that features are drawn from.
pub open spec fn feature_choices() -> Seq<i8> {
    seq![-13i8, -2i8, -1i8, 0i8, 0i8, 1i8, 2i8, 13i8]
}

/// A value drawn from `{-13, -2, -1, 0, 0, 1, 2, 13}`.
fn draw_feature(rng: &mut SimRng) -> (r: i8)
    ensures
        -13 <= r <= 13,
        r == feature_choices()[index_draw(*old(rng), 8).0 as int],
        *final(rng) == index_draw(*old(rng), 8).1,
{
    let choices: Vec<i8> = vec![-13, -2, -1, 0, 0, 1, 2, 13];
    assert(choices@ == feature_choices());
    match choose_from(rng, &choices) {
        Some(v) => v,
        None => 0,
    }
}

/// The feature drawn from the generator in state `rng`, and the generator's
/// next state.
pub open spec fn feature_drawn(rng: SimRng) -> (i8, SimRng) {
    (feature_choices()[index_draw(rng, 8).0 as int], index_draw(rng, 8).1)
}

/// Three features drawn one after the other from the generator in state
/// `rng`, and the generator's next state.
pub open spec fn row_drawn(rng: SimRng) -> (Seq<i8>, SimRng) {
    let a = feature_drawn(rng);
    let b = feature_drawn(a.1);
    let c = feature_drawn(b.1);
    (seq![a.0, b.0, c.0], c.1)
}

/// The first `k` rows of features drawn from the generator in state `rng`,
/// and the generator's next state.
pub open spec fn rows_drawn(rng: SimRng, k: nat) -> (Seq<Seq<i8>>, SimRng)
    decreases k,
{
    if k == 0 {
        (Seq::empty(), rng)
    } else {
        let prev = rows_drawn(rng, (k - 1) as nat);
        let row = row_drawn(prev.1);
        (prev.0.push(row.0), row.1)
    }
}

/// The first `k` thresholds drawn from the generator in state `rng`, and the
/// generator's next state.
pub open spec fn thresholds_drawn(rng: SimRng, k: nat) -> (Seq<i8>, SimRng)
    decreases k,
{
    if k == 0 {
        (Seq::empty(), rng)
    } else {
        let prev = thresholds_drawn(rng, (k - 1) as nat);
        let d = below_u8_draw(prev.1, 121);
        (prev.0.push((d.0 - 60) as i8), d.1)
    }
}

/// The parts of a rule drawn from the generator in state `rng` (twelve rows
/// of features, three thresholds, the table of changes of kind and the table
/// of changes of heading), and the generator's next state.
pub open spec fn lut_drawn(rng: SimRng) -> (Seq<Seq<i8>>, Seq<i8>, Seq<bool>, Seq<bool>, SimRng) {
    let f = rows_drawn(rng, 12);
    let t = thresholds_drawn(f.1, 3);
    let a = table_drawn(t.1, 8);
    let c = table_drawn(a.1, 8);
    (f.0, t.0, a.0, c.0, c.1)
}

/// Whether `r` holds the parts `parts` of `lut_drawn`.
pub open spec fn holds_parts(r: LutRule, parts: (Seq<Seq<i8>>, Seq<i8>, Seq<bool>, Seq<bool>, SimRng)) -> bool {
    &&& forall|i: int| 0 <= i < 12 ==> #[trigger] r.neighbourhood_features@[i]@ == parts.0[i]
    &&& r.neighbourhood_features_thresholds@ == parts.1
    &&& r.transform@ == parts.2
    &&& r.change_heading@ == parts.3
}

fn draw_features(rng: &mut SimRng) -> (r: [i8; 3])
    ensures
        forall|k: int| 0 <= k < 3 ==> -13 <= #[trigger] r@[k] <= 13,
        r@ == row_drawn(*old(rng)).0,
        *final(rng) == row_drawn(*old(rng)).1,
{
    let a = draw_feature(rng);
    let b = draw_feature(rng);
    let c = draw_feature(rng);
    let r = [a, b, c];
    assert(r@ == seq![a, b, c]);
    r
}

/// A threshold drawn from `-60..=60`.
fn draw_threshold(rng: &mut SimRng) -> (r: i8)
    ensures
        -60 <= r <= 60,
        r == below_u8_draw(*old(rng), 121).0 - 60,
        *final(rng) == below_u8_draw(*old(rng), 121).1,
{
    let v = random_u8_below(rng, 121);
    v as i8 - 60
}

/// The first `k` entries of a table drawn from the generator in state `rng`
/// (each `true` with a chance of one in five), and the generator's next
/// state.
pub open spec fn table_drawn(rng: SimRng, k: nat) -> (Seq<bool>, SimRng)
    decreases k,
{
    if k == 0 {
        (Seq::empty(), rng)
    } else {
        let prev = table_drawn(rng, (k - 1) as nat);
        let d = ratio_draw(prev.1, 1, 5);
        (prev.0.push(d.0), d.1)
    }
}

/// Eight entries, each `true` with a chance of one in five.
fn draw_table(rng: &mut SimRng) -> (r: [bool; 8])
    ensures
        r@ == table_drawn(*old(rng), 8).0,
        *final(rng) == table_drawn(*old(rng), 8).1,
{
    let ghost r0 = *rng;
    let b0 = random_ratio(rng, 1, 5);
    let b1 = random_ratio(rng, 1, 5);
    let b2 = random_ratio(rng, 1, 5);
    let b3 = random_ratio(rng, 1, 5);
    let b4 = random_ratio(rng, 1, 5);
    let b5 = random_ratio(rng, 1, 5);
    let b6 = random_ratio(rng, 1, 5);
    let b7 = random_ratio(rng, 1, 5);
    let r = [b0, b1, b2, b3, b4, b5, b6, b7];
    proof {
        reveal_with_fuel(table_drawn, 9);
        assert(r@ =~= seq![b0, b1, b2, b3, b4, b5, b6, b7]);
        assert(table_drawn(r0, 8).0 =~= seq![b0, b1, b2, b3, b4, b5, b6, b7]);
    }
    r
}

impl LutRule {
    /// A rule drawn at random: features from `{-13, -2, -1, 0, 0, 1, 2, 13}`,
    /// thresholds from `-60..=60`, table entries `true` one time in five.
    pub fn new_random(rng: &mut SimRng) -> (r: Self)
        ensures
            rule_ok(r),
            forall|i: int, k: int|
                0 <= i < 12 && 0 <= k < 3 ==> -13 <= #[trigger] r.neighbourhood_features@[i]@[k] <= 13,
            forall|k: int| 0 <= k < 3 ==> -60 <= #[trigger] r.neighbourhood_features_thresholds@[k] <= 60,
            holds_parts(r, lut_drawn(*old(rng))),
            *final(rng) == lut_drawn(*old(rng)).4,
    {
        let ghost s0 = *rng;
        let f0 = draw_features(rng);
        let f1 = draw_features(rng);
        let f2 = draw_features(rng);
        let f3 = draw_features(rng);
        let f4 = draw_features(rng);
        let f5 = draw_features(rng);
        let f6 = draw_features(rng);
        let f7 = draw_features(rng);
        let f8 = draw_features(rng);
        let f9 = draw_features(rng);
        let f10 = draw_features(rng);
        let f11 = draw_features(rng);
        let neighbourhood_features = [f0, f1, f2, f3, f4, f5, f6, f7, f8, f9, f10, f11];
        assert(neighbourhood_features@ == seq![f0, f1, f2, f3, f4, f5, f6, f7, f8, f9, f10, f11]);
        let t0 = draw_threshold(rng);
        let t1 = draw_threshold(rng);
        let t2 = draw_threshold(rng);
        let thresholds = [t0, t1, t2];
        assert(thresholds@ == seq![t0, t1, t2]);
        let transform = draw_table(rng);
        let change_heading = draw_table(rng);
        proof {
            reveal_with_fuel(rows_drawn, 13);
            reveal_with_fuel(thresholds_drawn, 4);
            assert(rows_drawn(s0, 12).0 =~= seq![f0@, f1@, f2@, f3@, f4@, f5@, f6@, f7@, f8@, f9@, f10@, f11@]);
            assert(thresholds_drawn(rows_drawn(s0, 12).1, 3).0 =~= seq![t0, t1, t2]);
        }
        LutRule {
            neighbourhood_features,
            neighbourhood_features_thresholds: thresholds,
            transform,
            change_heading,
        }
    }

    /// The update of the center of `neighbourhood` (see `lut_gives`).
    pub fn step(&self, neighbourhood: Neighbourhood<Cell>, rng: &mut SimRng) -> (r: Cell)
        requires
            rule_ok(*self),
        ensures
            lut_gives(*self, neighbourhood, r),
            (r, *final(rng)) == lut_step(*self, neighbourhood, *old(rng)),
    {
        let center = neighbourhood.center;
        let mut s0: i8 = 0;
        let mut s1: i8 = 0;
        let mut s2: i8 = 0;
        let mut i: usize = 0;
        while i < 6
            invariant
                0 <= i <= 6,
                rule_ok(*self),
                center == neighbourhood.center,
                s0 == feature_sum(*self, neighbourhood, 0, i as int),
                s1 == feature_sum(*self, neighbourhood, 1, i as int),
                s2 == feature_sum(*self, neighbourhood, 2, i as int),
                -21 * i <= s0 <= 21 * i,
                -21 * i <= s1 <= 21 * i,
                -21 * i <= s2 <= 21 * i,
            decreases 6 - i,
        {
            let dir = Direction::from_int(i as i32);
            let neigh = neighbourhood.neighbours[i];
            let center_heads_to_neigh = match center.heading {
                Some(d) => d == dir,
                None => false,
            };
            let neigh_heads_to_center = match neigh.heading {
                Some(d) => d == dir.neg(),
                None => false,
            };
            let mut idx: usize = 0;
            if neigh_heads_to_center {
                idx = idx + 1;
            }
            if center_heads_to_neigh {
                idx = idx + 2;
            }
            let code: usize = match neigh.kind {
                CellType::Air => 0,
                CellType::Blob => 1,
                CellType::Stone | CellType::Border => 2,
            };
            idx = idx + 4 * code;
            assert(idx == feature_index(center, neigh, dir));
            let feature = self.neighbourhood_features[idx];
            assert(-21 <= feature@[0] <= 21 && -21 <= feature@[1] <= 21 && -21 <= feature@[2] <= 21);
            s0 = s0 + feature[0];
            s1 = s1 + feature[1];
            s2 = s2 + feature[2];
            i = i + 1;
        }
        let mut idx: usize = 0;
        if s0 > self.neighbourhood_features_thresholds[0] {
            idx = idx + 1;
        }
        if s1 > self.neighbourhood_features_thresholds[1] {
            idx = idx + 2;
        }
        if s2 > self.neighbourhood_features_thresholds[2] {
            idx = idx + 4;
        }
        let mut cell = center;
        if self.change_heading[idx] {
            let b = random_u8(rng);
            let rnd = b % 8;
            cell.heading = Direction::try_from_int(rnd as i32);
            assert(cell.heading == heading_of(b));
        }
        if self.transform[idx] {
            cell.kind = if cell.kind == CellType::Air {
                CellType::Blob
            } else {
                CellType::Air
            };
        }
        cell
    }
}

/// How a new world fills its map: blobs at the center, a ring of air, then
/// stones (one time in about twelve) and air; every cell with a random
/// heading.
pub struct Placement;

/// The kinds that a new world may hold at distance `dist` from the center.
pub open spec fn placed_kind(dist: int, k: CellType) -> bool {
    if dist <= 1 {
        k == CellType::Blob
    } else if dist == 2 {
        k == CellType::Air
    } else {
        k == CellType::Stone || k == CellType::Air
    }
}

impl LocationRule<Cell> for Placement {
    open spec fn gives(&self, loc: Location, c: Cell) -> bool {
        placed_kind(loc.offset().spec_distance(Cube { x: 0, y: 0 }), c.kind)
    }

    open spec fn made(&self, loc: Location, rng: SimRng) -> (Cell, SimRng) {
        let h = u8_draw(rng);
        let heading = heading_of(h.0);
        let d = loc.offset().spec_distance(Cube { x: 0, y: 0 });
        if d <= 1 {
            (Cell { kind: CellType::Blob, heading }, h.1)
        } else if d == 2 {
            (Cell { kind: CellType::Air, heading }, h.1)
        } else {
            let s = ratio_draw(h.1, 2, 25);
            (Cell { kind: if s.0 { CellType::Stone } else { CellType::Air }, heading }, s.1)
        }
    }

    fn make(&self, loc: Location, rng: &mut SimRng) -> (r: Cell) {
        let rnd = random_u8(rng);
        let heading = Direction::try_from_int(rnd as i32 % 8);
        let d = loc.dist_from_center();
        let kind = if 0 <= d && d <= 1 {
            CellType::Blob
        } else if d == 2 {
            CellType::Air
        } else if random_ratio(rng, 2, 25) {
            CellType::Stone
        } else {
            CellType::Air
        };
        Cell { kind, heading }
    }
}

/// The first `k` cells (in storage order) that `Placement` makes for a new
/// world from the seed `seed`, and the generator's next state.
pub open spec fn placed_from(seed: u64, k: nat) -> (Seq<Cell>, SimRng) {
    hexmap::map_made(&Placement, RADIUS as int, Cell::border_spec(), seeded(seed), k)
}

/// Whether a stone next to the center points towards it or away from it
/// (its heading along the line between them).
pub open spec fn stone_in_line(nh: Neighbourhood<Cell>) -> bool {
    exists|i: int|
        0 <= i < 6 && (#[trigger] nh.neighbours@[i]).kind == CellType::Stone && (nh.neighbours@[i].heading
            == Some(Direction::from_idx(i)) || nh.neighbours@[i].heading == Some(
            Direction::from_idx(i).opposite(),
        ))
}

/// The settling of a new world: air next to a stone in line with it becomes
/// stone, stones lose their heading.
pub open spec fn settled(nh: Neighbourhood<Cell>) -> Cell {
    if nh.center.kind == CellType::Air && stone_in_line(nh) {
        Cell { kind: CellType::Stone, heading: None }
    } else if nh.center.kind == CellType::Stone {
        Cell { kind: CellType::Stone, heading: None }
    } else {
        nh.center
    }
}

/// The settling, as a rule of a cellular automaton.
pub struct Settle;

impl CellRule<Cell, Cell> for Settle {
    open spec fn applicable(&self, nh: Neighbourhood<Cell>) -> bool {
        true
    }

    open spec fn gives(&self, nh: Neighbourhood<Cell>, d: Cell) -> bool {
        d == settled(nh)
    }

    fn apply(&self, nh: Neighbourhood<Cell>) -> (r: Cell) {
        if nh.center.kind == CellType::Air {
            let mut found = false;
            let mut i: usize = 0;
            while i < 6
                invariant
                    0 <= i <= 6,
                    found == exists|j: int|
                        0 <= j < i && (#[trigger] nh.neighbours@[j]).kind == CellType::Stone && (
                        nh.neighbours@[j].heading == Some(Direction::from_idx(j))
                            || nh.neighbours@[j].heading == Some(Direction::from_idx(j).opposite())),
                decreases 6 - i,
            {
                let dir = Direction::from_index(i);
                let neigh = nh.neighbours[i];
                let in_line = match neigh.heading {
                    Some(h) => h == dir || h == dir.neg(),
                    None => false,
                };
                if neigh.kind == CellType::Stone && in_line {
                    found = true;
                }
                i = i + 1;
            }
            if found {
                return Cell { kind: CellType::Stone, heading: None };
            }
        } else if nh.center.kind == CellType::Stone {
            return Cell { heading: None, ..nh.center };
        }
        nh.center
    }
}

/// The cells of a new map of visits: none visited yet.
pub struct Unvisited;

impl LocationRule<Option<bool>> for Unvisited {
    open spec fn gives(&self, loc: Location, v: Option<bool>) -> bool {
        v == Some(false)
    }

    open spec fn made(&self, loc: Location, rng: SimRng) -> (Option<bool>, SimRng) {
        (Some(false), rng)
    }

    fn make(&self, loc: Location, rng: &mut SimRng) -> (r: Option<bool>) {
        Some(false)
    }
}

/// A map of visits draws nothing from the generator.
proof fn lemma_unvisited_draws_nothing(radius: int, rng: SimRng, k: nat)
    ensures
        hexmap::map_made(&Unvisited, radius, None, rng, k).1 == rng,
    decreases k,
{
    if k > 0 {
        lemma_unvisited_draws_nothing(radius, rng, (k - 1) as nat);
    }
}

/// Whether a location lies more than 6 cells from the center.
pub struct FarOut;

impl LocationRule<bool> for FarOut {
    open spec fn gives(&self, loc: Location, v: bool) -> bool {
        v == (loc.offset().spec_distance(Cube { x: 0, y: 0 }) > 6)
    }

    open spec fn made(&self, loc: Location, rng: SimRng) -> (bool, SimRng) {
        (loc.offset().spec_distance(Cube { x: 0, y: 0 }) > 6, rng)
    }

    fn make(&self, loc: Location, rng: &mut SimRng) -> (r: bool) {
        loc.dist_from_center() > 6
    }
}

/// The rules of air and blob cells, as a rule of a cellular automaton.
#[derive(Clone, Copy)]
pub struct TumblerRules {
    pub air_rule: LutRule,
    pub blob_rule: LutRule,
}

impl RandomCellRule<Cell, Cell> for TumblerRules {

    open spec fn drawn(&self, nh: Neighbourhood<Cell>, rng: SimRng) -> (Cell, SimRng) {
        match nh.center.kind {
            CellType::Air => lut_step(self.air_rule, nh, rng),
            CellType::Blob => lut_step(self.blob_rule, nh, rng),
            _ => (nh.center, rng),
        }
    }

    open spec fn applicable(&self, nh: Neighbourhood<Cell>) -> bool {
        rule_ok(self.air_rule) && rule_ok(self.blob_rule)
    }

    open spec fn gives(&self, nh: Neighbourhood<Cell>, d: Cell) -> bool {
        match nh.center.kind {
            CellType::Air => lut_gives(self.air_rule, nh, d),
            CellType::Blob => lut_gives(self.blob_rule, nh, d),
            _ => d == nh.center,
        }
    }

    fn apply(&self, nh: Neighbourhood<Cell>, rng: &mut SimRng) -> (r: Cell) {
        match nh.center.kind {
            CellType::Air => self.air_rule.step(nh, rng),
            CellType::Blob => self.blob_rule.step(nh, rng),
            _ => nh.center,
        }
    }
}

/// Number of visited cells.
pub open spec fn count_visited(s: Seq<Option<bool>>) -> int
    decreases s.len(),
{
    if s.len() == 0 {
        0
    } else {
        count_visited(s.drop_last()) + if s.last() == Some(true) {
            1int
        } else {
            0
        }
    }
}

/// Number of cells that can be visited (those of the map).
pub open spec fn count_visitable(s: Seq<Option<bool>>) -> int
    decreases s.len(),
{
    if s.len() == 0 {
        0
    } else {
        count_visitable(s.drop_last()) + if s.last() is Some {
            1int
        } else {
            0
        }
    }
}

/// Number of blobs.
pub open spec fn count_blobs(s: Seq<Cell>) -> int
    decreases s.len(),
{
    if s.len() == 0 {
        0
    } else {
        count_blobs(s.drop_last()) + if s.last().kind == CellType::Blob {
            1int
        } else {
            0
        }
    }
}

/// Number of blobs at positions where `far` holds.
pub open spec fn count_far_blobs(s: Seq<Cell>, far: Seq<bool>) -> int
    decreases s.len(),
{
    if s.len() == 0 {
        0
    } else {
        count_far_blobs(s.drop_last(), far) + if s.last().kind == CellType::Blob && far[s.len() - 1] {
            1int
        } else {
            0
        }
    }
}

/// The visits after a step to `state`: a cell of the map is visited once a
/// blob was on it.
pub open spec fn visit(v: Option<bool>, c: Cell) -> Option<bool> {
    match v {
        Some(b) => Some(b || c.kind == CellType::Blob),
        None => None,
    }
}

/// 1 where the cell at (q, r) is a blob, else 0.
pub open spec fn blob_at(t: AxialTile<Cell>, q: int, r: int) -> int {
    if t.at(q, r).kind == CellType::Blob {
        1
    } else {
        0
    }
}

/// Number of blobs next to the center of the map (the start position).
pub open spec fn blobs_at_start(t: AxialTile<Cell>) -> int {
    let c = hexmap::center_spec(RADIUS as int);
    let q = c.x as int;
    let r = c.spec_z();
    blob_at(t, q, r - 1) + blob_at(t, q + 1, r - 1) + blob_at(t, q + 1, r) + blob_at(t, q, r + 1) + blob_at(
        t,
        q - 1,
        r + 1,
    ) + blob_at(t, q - 1, r)
}

/// Whether the cell stored at position `i` lies more than 6 cells from the
/// center (cells off the map count as far).
pub open spec fn far_at(i: int) -> bool {
    let loc = hexmap::location_at(
        RADIUS as int,
        crate::axial_tile::pos_of_index(hexmap::side(RADIUS as int), i),
    );
    loc.offset().spec_distance(Cube { x: 0, y: 0 }) > 6
}

/// The loss of a tumbler run: the squared distance of the number of blobs
/// from 12 where between 12 and 50 cells were visited (99999 otherwise),
/// plus 2 for every blob still next to the start, plus 100 for every blob
/// far from the center.
pub open spec fn loss_spec(visited: int, alive: int, at_start: int, far: int) -> int {
    (if 12 <= visited <= 50 {
        (alive - 12) * (alive - 12)
    } else {
        99999
    }) + 2 * at_start + 100 * far
}

/// The tumblers world.
pub struct Tumblers {
    state: AxialTile<Cell>,
    visited: AxialTile<Option<bool>>,
    rng: SimRng,
    rules: TumblerRules,
}

impl Tumblers {
    pub closed spec fn state_spec(self) -> AxialTile<Cell> {
        self.state
    }

    pub closed spec fn visited_spec(self) -> AxialTile<Option<bool>> {
        self.visited
    }

    pub closed spec fn rng_spec(self) -> SimRng {
        self.rng
    }

    pub closed spec fn rules_spec(self) -> TumblerRules {
        self.rules
    }

    /// What every world keeps: the map and the visits of the same size, and
    /// rules whose features add up without overflow.
    pub open spec fn wf(self) -> bool {
        &&& self.state_spec().well_sized()
        &&& self.visited_spec().well_sized()
        &&& self.state_spec().spec_width() == hexmap::side(RADIUS as int)
        &&& self.state_spec().spec_height() == hexmap::side(RADIUS as int)
        &&& self.state_spec().spec_width() == self.visited_spec().spec_width()
        &&& self.state_spec().spec_height() == self.visited_spec().spec_height()
        &&& rule_ok(self.rules_spec().air_rule)
        &&& rule_ok(self.rules_spec().blob_rule)
    }

    /// A world seeded at random.
    pub fn new() -> (r: Self)
        ensures
            r.wf(),
            r.state_spec().spec_width() == hexmap::side(RADIUS as int),
            r.state_spec().spec_height() == hexmap::side(RADIUS as int),
            exists|placed: AxialTile<Cell>|
                placed.well_sized() && placed.spec_width() == r.state_spec().spec_width() && placed.spec_height()
                    == r.state_spec().spec_height() && (forall|q: int, rr: int|
                    #[trigger] placed.interior(q, rr) ==> r.state_spec().at(q, rr) == settled(
                        placed.nh_at(q, rr),
                    )),
            forall|i: int|
                0 <= i < r.visited_spec()@.len() ==> {
                    let loc = hexmap::location_at(
                        RADIUS as int,
                        crate::axial_tile::pos_of_index(hexmap::side(RADIUS as int), i),
                    );
                    #[trigger] r.visited_spec()@[i] == if loc.offset().spec_distance(Cube { x: 0, y: 0 })
                        > RADIUS {
                        None
                    } else {
                        Some(false)
                    }
                },
    {
        Self::new_with_seed(random_seed())
    }

    /// A world of radius `RADIUS` from the seed `seed`: cells placed by
    /// `Placement` from a generator seeded with `seed` (`placed_from`), then
    /// settled once (`settled`); the two rules drawn next from the same
    /// generator (`lut_drawn`); no cell visited yet. The world keeps the
    /// generator where those draws left it. The blobs are the center and its
    /// six neighbours.
    pub fn new_with_seed(seed: u64) -> (r: Self)
        ensures
            r.wf(),
            r.state_spec().spec_width() == hexmap::side(RADIUS as int),
            r.state_spec().spec_height() == hexmap::side(RADIUS as int),
            exists|placed: AxialTile<Cell>|
                placed.well_sized() && placed.spec_width() == r.state_spec().spec_width() && placed.spec_height()
                    == r.state_spec().spec_height() && (forall|q: int, rr: int|
                    #[trigger] placed.interior(q, rr) ==> r.state_spec().at(q, rr) == settled(
                        placed.nh_at(q, rr),
                    )) && placed@ == placed_from(seed, placed@.len()).0 && holds_parts(
                    r.rules_spec().air_rule,
                    lut_drawn(placed_from(seed, placed@.len()).1),
                ) && holds_parts(
                    r.rules_spec().blob_rule,
                    lut_drawn(lut_drawn(placed_from(seed, placed@.len()).1).4),
                ) && (forall|i: int|
                    0 <= i < placed@.len() ==> ((#[trigger] placed@[i]).kind == CellType::Blob
                        <==> hexmap::location_at(
                        RADIUS as int,
                        crate::axial_tile::pos_of_index(hexmap::side(RADIUS as int), i),
                    ).offset().spec_distance(Cube { x: 0, y: 0 }) <= 1)) && (forall|q: int, rr: int|
                    placed.interior(q, rr) ==> ((#[trigger] r.state_spec().at(q, rr)).kind == CellType::Blob
                        <==> placed.at(q, rr).kind == CellType::Blob)),
            forall|q: int, rr: int|
                0 <= q < r.state_spec().spec_width() && 0 <= rr < r.state_spec().spec_height()
                    && !r.state_spec().interior(q, rr) ==> #[trigger] r.state_spec().at(q, rr)
                    == Cell::border_spec(),
            r.rng_spec() == lut_drawn(
                lut_drawn(
                    placed_from(seed, (hexmap::side(RADIUS as int) * hexmap::side(RADIUS as int)) as nat).1,
                ).4,
            ).4,
            forall|i: int|
                0 <= i < r.visited_spec()@.len() ==> {
                    let loc = hexmap::location_at(
                        RADIUS as int,
                        crate::axial_tile::pos_of_index(hexmap::side(RADIUS as int), i),
                    );
                    #[trigger] r.visited_spec()@[i] == if loc.offset().spec_distance(Cube { x: 0, y: 0 })
                        > RADIUS {
                        None
                    } else {
                        Some(false)
                    }
                },
    {
        let mut rng = seed_rng(seed);
        assert(radius_ok(RADIUS as int)) by (nonlinear_arith)
            requires
                RADIUS == 12,
        ;
        let placed = hexmap::new_with(RADIUS, Cell::border(), &Placement, &mut rng);
        assert(placed@ == placed_from(seed, placed@.len()).0);
        let state = placed.ca_step_rule(Cell::border(), &Settle);
        proof {
            assert forall|i: int| 0 <= i < placed@.len() implies ((#[trigger] placed@[i]).kind == CellType::Blob
                <==> hexmap::location_at(
                RADIUS as int,
                crate::axial_tile::pos_of_index(hexmap::side(RADIUS as int), i),
            ).offset().spec_distance(Cube { x: 0, y: 0 }) <= 1) by {
                let loc = hexmap::location_at(
                    RADIUS as int,
                    crate::axial_tile::pos_of_index(hexmap::side(RADIUS as int), i),
                );
                if loc.offset().spec_distance(Cube { x: 0, y: 0 }) > RADIUS {
                    assert(placed@[i] == Cell::border_spec());
                } else {
                    assert(Placement.gives(loc, placed@[i]));
                }
            }
            assert forall|q: int, rr: int| placed.interior(q, rr) implies ((#[trigger] state.at(q, rr)).kind
                == CellType::Blob <==> placed.at(q, rr).kind == CellType::Blob) by {
                placed.lemma_nh_exists(q, rr);
                assert(placed.nh_at(q, rr).center == placed.at(q, rr));
                assert(Settle.gives(placed.nh_at(q, rr), state.at(q, rr)));
            }
        }
        let air_rule = LutRule::new_random(&mut rng);
        let blob_rule = LutRule::new_random(&mut rng);
        let ghost before_visits = rng;
        let visited = hexmap::new_with(RADIUS, None, &Unvisited, &mut rng);
        proof {
            lemma_unvisited_draws_nothing(RADIUS as int, before_visits, visited@.len());
        }
        Tumblers { state, visited, rng, rules: TumblerRules { air_rule, blob_rule } }
    }

    /// One step: air and blob cells change by their rules (`lut_step`, with
    /// the generator's draws taken cell by cell, row by row),
    /// other interior cells stay, the cells at the edge of the storage become
    /// border; then every cell of the map that holds a blob is marked visited.
    pub fn step(&mut self)
        requires
            old(self).wf(),
        ensures
            final(self).wf(),
            final(self).rules_spec() == old(self).rules_spec(),
            final(self).state_spec().spec_width() == old(self).state_spec().spec_width(),
            final(self).state_spec().spec_height() == old(self).state_spec().spec_height(),
            forall|q: int, rr: int|
                old(self).state_spec().interior(q, rr) ==> old(self).rules_spec().gives(
                    old(self).state_spec().nh_at(q, rr),
                    #[trigger] final(self).state_spec().at(q, rr),
                ),
            forall|q: int, rr: int|
                0 <= q < old(self).state_spec().spec_width() && 0 <= rr < old(self).state_spec().spec_height()
                    && !old(self).state_spec().interior(q, rr) ==> #[trigger] final(self).state_spec().at(
                    q,
                    rr,
                ) == Cell::border_spec(),
            forall|q: int, rr: int|
                old(self).state_spec().interior(q, rr) ==> #[trigger] final(self).state_spec().at(q, rr)
                    == old(self).rules_spec().drawn(
                    old(self).state_spec().nh_at(q, rr),
                    old(self).state_spec().rng_before(&old(self).rules_spec(), old(self).rng_spec(), q, rr),
                ).0,
            final(self).rng_spec() == old(self).state_spec().rng_before(
                &old(self).rules_spec(),
                old(self).rng_spec(),
                1,
                old(self).state_spec().spec_height() - 1,
            ),
            final(self).visited_spec()@.len() == old(self).visited_spec()@.len(),
            forall|i: int|
                0 <= i < old(self).visited_spec()@.len() ==> #[trigger] final(self).visited_spec()@[i]
                    == visit(old(self).visited_spec()@[i], final(self).state_spec()@[i]),
    {
        let rules = self.rules;
        let next = self.state.ca_step_random(Cell::border(), &rules, &mut self.rng);
        let cells = next.iter_cells();
        let old_visits = self.visited.iter_cells();
        let mut visits: Vec<Option<bool>> = Vec::new();
        let mut i: usize = 0;
        while i < old_visits.len()
            invariant
                cells@ == next@,
                old_visits@ == self.visited@,
                next@.len() == self.visited@.len(),
                0 <= i <= old_visits@.len(),
                visits@.len() == i,
                forall|k: int| 0 <= k < i ==> #[trigger] visits@[k] == visit(old_visits@[k], cells@[k]),
            decreases old_visits@.len() - i,
        {
            let v = match old_visits[i] {
                Some(b) => Some(b || cells[i].kind == CellType::Blob),
                None => None,
            };
            visits.push(v);
            i = i + 1;
        }
        let visited = AxialTile::new_internal(self.visited.width(), self.visited.height(), visits);
        self.state = next;
        self.visited = visited;
    }

    /// Number of visited cells.
    pub fn sum_visited(&self) -> (r: i32)
        requires
            self.wf(),
        ensures
            r == count_visited(self.visited_spec()@),
            0 <= r <= self.visited_spec()@.len(),
    {
        let cells = self.visited.iter_cells();
        let mut n: i32 = 0;
        let mut i: usize = 0;
        while i < cells.len()
            invariant
                cells@ == self.visited@,
                self.visited.well_sized(),
                0 <= i <= cells@.len(),
                n == count_visited(cells@.subrange(0, i as int)),
                0 <= n <= i,
            decreases cells@.len() - i,
        {
            proof {
                assert(cells@.subrange(0, i as int + 1).drop_last() =~= cells@.subrange(0, i as int));
            }
            if cells[i] == Some(true) {
                n = n + 1;
            }
            i = i + 1;
        }
        proof {
            assert(cells@.subrange(0, cells@.len() as int) =~= cells@);
        }
        n
    }

    /// Number of cells of the map (those that can be visited).
    pub fn visitable_cells(&self) -> (r: i32)
        requires
            self.wf(),
        ensures
            r == count_visitable(self.visited_spec()@),
    {
        let cells = self.visited.iter_cells();
        let mut n: i32 = 0;
        let mut i: usize = 0;
        while i < cells.len()
            invariant
                cells@ == self.visited@,
                self.visited.well_sized(),
                0 <= i <= cells@.len(),
                n == count_visitable(cells@.subrange(0, i as int)),
                0 <= n <= i,
            decreases cells@.len() - i,
        {
            proof {
                assert(cells@.subrange(0, i as int + 1).drop_last() =~= cells@.subrange(0, i as int));
            }
            if cells[i].is_some() {
                n = n + 1;
            }
            i = i + 1;
        }
        proof {
            assert(cells@.subrange(0, cells@.len() as int) =~= cells@);
        }
        n
    }

    /// Number of blobs.
    pub fn count_bots(&self) -> (r: i32)
        requires
            self.wf(),
        ensures
            r == count_blobs(self.state_spec()@),
            0 <= r <= self.state_spec()@.len(),
    {
        let cells = self.state.iter_cells();
        let mut n: i32 = 0;
        let mut i: usize = 0;
        while i < cells.len()
            invariant
                cells@ == self.state@,
                self.state.well_sized(),
                0 <= i <= cells@.len(),
                n == count_blobs(cells@.subrange(0, i as int)),
                0 <= n <= i,
            decreases cells@.len() - i,
        {
            proof {
                assert(cells@.subrange(0, i as int + 1).drop_last() =~= cells@.subrange(0, i as int));
            }
            if cells[i].kind == CellType::Blob {
                n = n + 1;
            }
            i = i + 1;
        }
        proof {
            assert(cells@.subrange(0, cells@.len() as int) =~= cells@);
        }
        n
    }

    /// The loss of the run so far (see `loss_spec`).
    pub fn loss_value(&self) -> (r: i32)
        requires
            self.wf(),
        ensures
            r == loss_spec(
                count_visited(self.visited_spec()@),
                count_blobs(self.state_spec()@),
                blobs_at_start(self.state_spec()),
                count_far_blobs(self.state_spec()@, Seq::new(self.state_spec()@.len(), |i: int| far_at(i))),
            ),
    {
        let visited = self.sum_visited();
        let alive = self.count_bots();
        assert(radius_ok(RADIUS as int)) by (nonlinear_arith)
            requires
                RADIUS == 12,
        ;
        assert(self.state@.len() == 729) by (nonlinear_arith)
            requires
                self.state@.len() == self.state.spec_height() * self.state.spec_width(),
                self.state.spec_height() == 27,
                self.state.spec_width() == 27,
        ;
        let a: i32 = alive - 12;
        assert(0 <= a * a <= 717 * 717) by (nonlinear_arith)
            requires
                -12 <= a <= 717,
        ;
        let mut loss: i32 = if 12 <= visited && visited <= 50 {
            a * a
        } else {
            99999
        };
        let center = hexmap::center(RADIUS);
        let neighbours = self.state.neighbours(center);
        let mut still: i32 = 0;
        let mut k: usize = 0;
        while k < 6
            invariant
                0 <= k <= 6,
                0 <= still <= k,
                still == (if k > 0 { blob_at(self.state, 13, 12) } else { 0 }) + (if k > 1 {
                    blob_at(self.state, 14, 12)
                } else {
                    0
                }) + (if k > 2 { blob_at(self.state, 14, 13) } else { 0 }) + (if k > 3 {
                    blob_at(self.state, 13, 14)
                } else {
                    0
                }) + (if k > 4 { blob_at(self.state, 12, 14) } else { 0 }) + (if k > 5 {
                    blob_at(self.state, 12, 13)
                } else {
                    0
                }),
                self.wf(),
                center == hexmap::center_spec(RADIUS as int),
                forall|i: int|
                    0 <= i < 6 ==> {
                        let d = Direction::from_idx(i);
                        let p = Cube { x: (center.x + d.dx()) as i32, y: (center.y + d.dy()) as i32 };
                        #[trigger] neighbours@[i] == (d, self.state.cell_spec(p))
                    },
            decreases 6 - k,
        {
            let (_, cell) = neighbours[k];
            match cell {
                Some(c) => {
                    if c.kind == CellType::Blob {
                        still = still + 1;
                    }
                },
                None => {},
            }
            k = k + 1;
        }
        loss = loss + 2 * still;
        let mut rng_unused = seed_rng(0);
        let far_out = hexmap::new_with(RADIUS, true, &FarOut, &mut rng_unused);
        let cells = self.state.iter_cells();
        let far_cells = far_out.iter_cells();
        let ghost far_seq = Seq::new(self.state@.len(), |i: int| far_at(i));
        let mut far: i32 = 0;
        let mut i: usize = 0;
        while i < cells.len()
            invariant
                cells@ == self.state@,
                cells@.len() == 729,
                far_cells@ == far_out@,
                far_out@.len() == 729,
                forall|j: int| 0 <= j < 729 ==> #[trigger] far_cells@[j] == far_seq[j],
                far_seq.len() == 729,
                0 <= i <= cells@.len(),
                far == count_far_blobs(cells@.subrange(0, i as int), far_seq),
                0 <= far <= i,
            decreases cells@.len() - i,
        {
            proof {
                assert(cells@.subrange(0, i as int + 1).drop_last() =~= cells@.subrange(0, i as int));
            }
            if far_cells[i] && cells[i].kind == CellType::Blob {
                far = far + 1;
            }
            i = i + 1;
        }
        proof {
            assert(cells@.subrange(0, cells@.len() as int) =~= cells@);
        }
        loss + far * 100
    }

}

impl Cell {
    /// The cell outside the map.
    pub open spec fn border_spec() -> Cell {
        Cell { kind: CellType::Border, heading: None }
    }
}


/// Whether the features of a rule are small enough (see `rule_ok`).
pub fn check_rule(rule: &LutRule) -> (r: bool)
    ensures
        r == rule_ok(*rule),
{
    let mut i: usize = 0;
    while i < 12
        invariant
            0 <= i <= 12,
            forall|a: int, k: int| 0 <= a < i && 0 <= k < 3 ==> -21 <= #[trigger] rule.neighbourhood_features@[a]@[k] <= 21,
        decreases 12 - i,
    {
        let mut k: usize = 0;
        while k < 3
            invariant
                0 <= i < 12,
                0 <= k <= 3,
                forall|a: int, b: int| 0 <= a < i && 0 <= b < 3 ==> -21 <= #[trigger] rule.neighbourhood_features@[a]@[b] <= 21,
                forall|b: int| 0 <= b < k ==> -21 <= #[trigger] rule.neighbourhood_features@[i as int]@[b] <= 21,
            decreases 3 - k,
        {
            let f = rule.neighbourhood_features[i][k];
            if f < -21 || f > 21 {
                return false;
            }
            k = k + 1;
        }
        i = i + 1;
    }
    true
}

impl Tumblers {
    /// The map, the visits, the generator and the rules (to save the state).
    pub fn parts(&self) -> (r: (&AxialTile<Cell>, &AxialTile<Option<bool>>, &SimRng, &TumblerRules))
        ensures
            *r.0 == self.state_spec(),
            *r.1 == self.visited_spec(),
            *r.2 == self.rng_spec(),
            *r.3 == self.rules_spec(),
    {
        (&self.state, &self.visited, &self.rng, &self.rules)
    }

    /// A world from saved parts; `None` where the map or the visits do not
    /// have the size of a map of radius `RADIUS`, or a rule's features are
    /// too large.
    pub fn from_parts(state: AxialTile<Cell>, visited: AxialTile<Option<bool>>, rng: SimRng, rules: TumblerRules) -> (r:
        Option<Self>)
        requires
            state.well_sized(),
            visited.well_sized(),
        ensures
            r is Some <==> state.spec_width() == hexmap::side(RADIUS as int) && state.spec_height() == hexmap::side(
                RADIUS as int,
            ) && visited.spec_width() == hexmap::side(RADIUS as int) && visited.spec_height()
                == hexmap::side(RADIUS as int) && rule_ok(rules.air_rule) && rule_ok(rules.blob_rule),
            r matches Some(t) ==> t.wf() && t.state_spec() == state && t.visited_spec() == visited
                && t.rules_spec() == rules && t.rng_spec() == rng,
    {
        let side: i32 = 27;
        if state.width() != side || state.height() != side || visited.width() != side || visited.height()
            != side {
            return None;
        }
        if !check_rule(&rules.air_rule) || !check_rule(&rules.blob_rule) {
            return None;
        }
        Some(Tumblers { state, visited, rng, rules })
    }
}

impl HexgridView for Tumblers {
    open spec fn viewable(&self) -> bool {
        self.wf()
    }

    open spec fn shows(&self, pos: Cube, r: Option<CellView>) -> bool {
        r matches Some(v) && {
            let c = match self.state_spec().cell_spec(pos) {
                Some(c) => c,
                None => Cell::border_spec(),
            };
            let visited = match self.visited_spec().cell_spec(pos) {
                Some(v) => v,
                None => None,
            };
            &&& v.cell_type == (match c.kind {
                CellType::Border => 255u8,
                CellType::Stone => 4u8,
                CellType::Air => 2u8,
                CellType::Blob => 0u8,
            })
            &&& v.direction == c.heading
            &&& v.energy == (match visited {
                Some(b) => Some(if b { 1u8 } else { 0u8 }),
                None => None,
            })
        }
    }

    /// How the cell at `pos` is rendered: border 255, stone 4, air 2, blob
    /// 0, with its heading, and whether it was visited as the brightness.
    fn cell_view(&self, pos: Cube) -> (r: Option<CellView>) {
        let cell = match self.state.cell(pos) {
            Some(c) => c,
            None => Cell::border(),
        };
        let visited = match self.visited.cell(pos) {
            Some(v) => v,
            None => None,
        };
        let cell_type: u8 = match cell.kind {
            CellType::Border => 255,
            CellType::Stone => 4,
            CellType::Air => 2,
            CellType::Blob => 0,
        };
        let energy = match visited {
            Some(b) => Some(
                if b {
                    1
                } else {
                    0
                },
            ),
            None => None,
        };
        Some(CellView { cell_type, direction: cell.heading, energy })
    }
}

/// A saved state is always accepted back: the parts of every well-formed
/// world pass the checks of `Tumblers::from_parts`, so restoring them gives
/// the same world.
pub proof fn lemma_saved_parts_restore(t: Tumblers)
    requires
        t.wf(),
    ensures
        t.state_spec().spec_width() == hexmap::side(RADIUS as int),
        t.state_spec().spec_height() == hexmap::side(RADIUS as int),
        t.visited_spec().spec_width() == hexmap::side(RADIUS as int),
        t.visited_spec().spec_height() == hexmap::side(RADIUS as int),
        rule_ok(t.rules_spec().air_rule),
        rule_ok(t.rules_spec().blob_rule),
{
}

} // verus!
