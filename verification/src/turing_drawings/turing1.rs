//! A Turing machine that reads the cell under its head and the six cells
//! around it, on a wrapping grid of live and dead cells.
use vstd::prelude::*;

use crate::coords::{rect_fits, rect_x, rect_y, Cube, Direction, Offset, Rectangle};
use crate::hexgrid_view::{rectangle_pos, CellView};
use crate::rng::{bool_draw, choose_from, fresh_rng, index_draw, random_bool, random_u8, u8_draw, SimRng};
use crate::tile::{iterate_rectangle, Tile};
use crate::torus_tile::{cells_len, torus_index};

verus! {

/// Number of input bits: the six neighbours and the center.
pub const INPUT_BITS: usize = 7;

/// Number of state bits.
pub const STATE_BITS: usize = 5;

/// Number of entries of the rule table.
pub const LUT_SIZE: usize = 4096;

/// What the head does: the value it writes, where it moves, its next state.
#[derive(Clone, Copy, Debug)]
pub struct Command {
    pub next_value: bool,
    pub next_move: Direction,
    pub next_state: u8,
}

/// The machine.
pub struct Turing1 {
    alive: Tile<bool>,
    pos: Cube,
    state: u8,
    rule_lut: Vec<Command>,
    rng: SimRng,
}

/// The command drawn from the generator in state `rng` (a value, one of
/// the six directions, a state from the top five bits of a byte), and the
/// generator's next state.
pub open spec fn command_drawn(rng: SimRng) -> (Command, SimRng) {
    let dv = bool_draw(rng);
    let dd = index_draw(dv.1, 6);
    let ds = u8_draw(dd.1);
    (Command { next_value: dv.0, next_move: Direction::from_idx(dd.0 as int), next_state: ds.0 >> 3u8 }, ds.1)
}

/// The first `k` commands of a rule table drawn from the generator in state
/// `rng`, and the generator's next state.
pub open spec fn rule_drawn(rng: SimRng, k: nat) -> (Seq<Command>, SimRng)
    decreases k,
{
    if k == 0 {
        (Seq::empty(), rng)
    } else {
        let prev = rule_drawn(rng, (k - 1) as nat);
        let c = command_drawn(prev.1);
        (prev.0.push(c.0), c.1)
    }
}

/// A rule table drawn at random: states from `0..32`.
pub fn random_rule(rng: &mut SimRng) -> (r: Vec<Command>)
    ensures
        r@.len() == LUT_SIZE,
        forall|i: int| 0 <= i < LUT_SIZE ==> (#[trigger] r@[i]).next_state < 32,
        r@ == rule_drawn(*old(rng), LUT_SIZE as nat).0,
        *final(rng) == rule_drawn(*old(rng), LUT_SIZE as nat).1,
{
    let ghost start = *rng;
    let dirs = Direction::all();
    let choices = vec![dirs[0], dirs[1], dirs[2], dirs[3], dirs[4], dirs[5]];
    let mut lut: Vec<Command> = Vec::new();
    let mut i: usize = 0;
    while i < LUT_SIZE
        invariant
            0 <= i <= LUT_SIZE,
            lut@.len() == i,
            choices@.len() == 6,
            forall|k: int| 0 <= k < 6 ==> #[trigger] choices@[k] == Direction::from_idx(k),
            forall|k: int| 0 <= k < i ==> (#[trigger] lut@[k]).next_state < 32,
            lut@ == rule_drawn(start, i as nat).0,
            *rng == rule_drawn(start, i as nat).1,
        decreases LUT_SIZE - i,
    {
        let ghost before = *rng;
        let next_value = random_bool(rng);
        let next_move = match choose_from(rng, &choices) {
            Some(d) => d,
            None => Direction::NorthWest,
        };
        let s = random_u8(rng);
        let next_state = s >> 3u8;
        assert(s >> 3u8 < 32) by (bit_vector);
        let c = Command { next_value, next_move, next_state };
        proof {
            assert(command_drawn(before) == (c, *rng));
        }
        lut.push(c);
        i = i + 1;
    }
    lut
}

/// 1 where `b` holds.
pub open spec fn bit_of(b: bool) -> int {
    if b {
        1
    } else {
        0
    }
}

/// The key into the rule table at the head: the six neighbours as bits 0 to
/// 5, the center as bit 6, the state above them.
pub open spec fn key_spec(t: Tile<bool>, p: Cube, state: int) -> int {
    let n = |i: int| bit_of(t.at(p.x + Direction::from_idx(i).dx(), p.y + Direction::from_idx(i).dy()));
    n(0) + 2 * n(1) + 4 * n(2) + 8 * n(3) + 16 * n(4) + 32 * n(5) + 64 * bit_of(t.at(p.x as int, p.y as int))
        + 128 * state
}

/// Whether a grid, a head position and state and a rule table make a machine.
pub open spec fn parts_ok(alive: Tile<bool>, pos: Cube, state: u8, rules: Seq<Command>) -> bool {
    &&& alive@.len() == cells_len()
    &&& state < 32
    &&& rules.len() == LUT_SIZE
    &&& forall|i: int| 0 <= i < LUT_SIZE ==> (#[trigger] rules[i]).next_state < 32
    &&& 0 <= pos.x < 32 && -63 < pos.y <= 0
}

impl Turing1 {
    pub closed spec fn alive_spec(self) -> Tile<bool> {
        self.alive
    }

    pub closed spec fn pos_spec(self) -> Cube {
        self.pos
    }

    pub closed spec fn state_spec(self) -> u8 {
        self.state
    }

    pub closed spec fn rules_spec(self) -> Seq<Command> {
        self.rule_lut@
    }

    /// What every machine keeps: a full grid, a state below 32, a full rule
    /// table, and a head on the grid's storage.
    pub open spec fn wf(self) -> bool {
        parts_ok(self.alive_spec(), self.pos_spec(), self.state_spec(), self.rules_spec())
    }

    /// A machine with random rules on a dead grid, in state 0.
    pub fn new() -> (r: Turing1)
        ensures
            r.wf(),
            r.state_spec() == 0,
            forall|i: int| 0 <= i < cells_len() ==> !#[trigger] r.alive_spec()@[i],
    {
        let mut rng = fresh_rng();
        let rule_lut = random_rule(&mut rng);
        let pos = Cube::from_offset(Offset { col: 5, row: 5 });
        Turing1 { alive: Tile::new(false), rule_lut, pos, state: 0, rng }
    }

    /// One step: the head looks up the command for its state and the cells
    /// around it, writes the value, moves, and takes the new state.
    pub fn step(&mut self)
        requires
            old(self).wf(),
        ensures
            final(self).wf(),
            final(self).rules_spec() == old(self).rules_spec(),
            ({
                let p = old(self).pos_spec();
                let c = old(self).rules_spec()[key_spec(old(self).alive_spec(), p, old(self).state_spec() as int)];
                &&& final(self).alive_spec()@ == old(self).alive_spec()@.update(
                    torus_index(p.x as int, p.y as int),
                    c.next_value,
                )
                &&& final(self).state_spec() == c.next_state
                &&& torus_index(final(self).pos_spec().x as int, final(self).pos_spec().y as int)
                    == torus_index(p.x + c.next_move.dx(), p.y + c.next_move.dy())
            }),
    {
        let p = self.pos;
        let mut key: usize = if self.alive.get_cell(p) {
            64
        } else {
            0
        };
        let mut i: usize = 0;
        while i < 6
            invariant
                0 <= i <= 6,
                p == self.pos,
                self.alive@.len() == cells_len(),
                0 <= p.x < 32 && -63 < p.y <= 0,
                key == 64 * bit_of(self.alive.at(p.x as int, p.y as int)) + (if i > 0 {
                    bit_of(self.alive.at(p.x + Direction::from_idx(0).dx(), p.y + Direction::from_idx(0).dy()))
                } else {
                    0
                }) + (if i > 1 {
                    2 * bit_of(self.alive.at(p.x + Direction::from_idx(1).dx(), p.y + Direction::from_idx(1).dy()))
                } else {
                    0
                }) + (if i > 2 {
                    4 * bit_of(self.alive.at(p.x + Direction::from_idx(2).dx(), p.y + Direction::from_idx(2).dy()))
                } else {
                    0
                }) + (if i > 3 {
                    8 * bit_of(self.alive.at(p.x + Direction::from_idx(3).dx(), p.y + Direction::from_idx(3).dy()))
                } else {
                    0
                }) + (if i > 4 {
                    16 * bit_of(self.alive.at(p.x + Direction::from_idx(4).dx(), p.y + Direction::from_idx(4).dy()))
                } else {
                    0
                }) + (if i > 5 {
                    32 * bit_of(self.alive.at(p.x + Direction::from_idx(5).dx(), p.y + Direction::from_idx(5).dy()))
                } else {
                    0
                }),
            decreases 6 - i,
        {
            let d = Direction::from_index(i);
            let n = p.add_direction(d);
            if self.alive.get_cell(n) {
                let bit: usize = if i == 0 {
                    1
                } else if i == 1 {
                    2
                } else if i == 2 {
                    4
                } else if i == 3 {
                    8
                } else if i == 4 {
                    16
                } else {
                    32
                };
                key = key + bit;
            }
            i = i + 1;
        }
        key = key + (self.state as usize) * 128;
        let command = self.rule_lut[key];
        self.alive.set_cell(p, command.next_value);
        let moved = p.add_direction(command.next_move);
        self.pos = Tile::<bool>::wrap_pos(moved);
        self.state = command.next_state;
    }

    /// The category in which the cell at `pos` is rendered: the head 2, live
    /// cells 1, dead cells 0.
    pub open spec fn view_type(self, pos: Cube) -> u8 {
        if torus_index(pos.x as int, pos.y as int) == torus_index(self.pos_spec().x as int, self.pos_spec().y as int) {
            2u8
        } else if self.alive_spec().at(pos.x as int, pos.y as int) {
            1u8
        } else {
            0u8
        }
    }

    /// How the cell at `pos` is rendered: the head as type 2, live cells 1,
    /// dead cells 0.
    pub fn get_cell_view(&self, pos: Cube) -> (r: CellView)
        requires
            self.wf(),
        ensures
            r.energy is None,
            r.direction is None,
            r.cell_type == self.view_type(pos),
    {
        let cell_type: u8 = if self.alive.is_same_pos(pos, self.pos) {
            2
        } else if self.alive.get_cell(pos) {
            1
        } else {
            0
        };
        CellView { cell_type, energy: None, direction: None }
    }

    /// The views of all cells of the SIZE x SIZE rectangle at the origin, row
    /// by row.
    pub fn get_cells_rectangle(&self) -> (r: Vec<CellView>)
        requires
            self.wf(),
        ensures
            r@.len() == 1024,
            forall|i: int|
                0 <= i < 1024 ==> (#[trigger] r@[i]).cell_type == self.view_type(rectangle_pos(i))
                    && r@[i].energy is None && r@[i].direction is None,
    {
        let origin = Cube { x: 0, y: 0 };
        assert(rect_fits(Rectangle { pos: origin, width: 32, height: 32 }));
        let positions = iterate_rectangle(origin, 32, 32);
        let mut r: Vec<CellView> = Vec::new();
        let mut i: usize = 0;
        while i < positions.len()
            invariant
                self.wf(),
                origin == (Cube { x: 0i32, y: 0i32 }),
                positions@.len() == 1024,
                forall|row: int, col: int|
                    0 <= row < 32 && 0 <= col < 32 ==> {
                        let c = #[trigger] positions@[row * 32 + col];
                        c.x == rect_x(origin, col, row) && c.y == rect_y(origin, col, row)
                    },
                0 <= i <= 1024,
                r@.len() == i,
                forall|k: int|
                    0 <= k < i ==> (#[trigger] r@[k]).cell_type == self.view_type(rectangle_pos(k))
                        && r@[k].energy is None && r@[k].direction is None,
            decreases 1024 - i,
        {
            let pos = positions[i];
            proof {
                let row = i / 32;
                let col = i % 32;
                assert(i == row * 32 + col);
                let c = positions@[row * 32 + col];
                assert(c.x == rect_x(origin, col as int, row as int) && c.y == rect_y(origin, col as int, row as int));
                assert(pos == rectangle_pos(i as int));
            }
            r.push(self.get_cell_view(pos));
            i = i + 1;
        }
        r
    }
}

impl Default for Turing1 {
    fn default() -> (r: Self)
        ensures
            r.wf(),
    {
        Self::new()
    }
}

impl Turing1 {
    /// The grid, the head's position and state, the rules and the generator
    /// (to save the state).
    pub fn parts(&self) -> (r: (&Tile<bool>, Cube, u8, &Vec<Command>, &SimRng))
        ensures
            *r.0 == self.alive_spec(),
            r.1 == self.pos_spec(),
            r.2 == self.state_spec(),
            r.3@ == self.rules_spec(),
    {
        (&self.alive, self.pos, self.state, &self.rule_lut, &self.rng)
    }

    /// A machine from saved parts; `None` where they break `wf`.
    pub fn from_parts(alive: Tile<bool>, pos: Cube, state: u8, rule_lut: Vec<Command>, rng: SimRng) -> (r:
        Option<Turing1>)
        ensures
            r matches Some(t) ==> t.wf() && t.alive_spec() == alive && t.pos_spec() == pos && t.state_spec()
                == state && t.rules_spec() == rule_lut@,
            r is None <==> !parts_ok(alive, pos, state, rule_lut@),
    {
        if alive.iter_cells().len() != 1024 || state >= 32 || rule_lut.len() != LUT_SIZE {
            return None;
        }
        if !(0 <= pos.x && pos.x < 32 && -63 < pos.y && pos.y <= 0) {
            return None;
        }
        let mut j: usize = 0;
        while j < rule_lut.len()
            invariant
                rule_lut@.len() == LUT_SIZE,
                0 <= j <= LUT_SIZE,
                forall|a: int| 0 <= a < j ==> (#[trigger] rule_lut@[a]).next_state < 32,
            decreases LUT_SIZE - j,
        {
            if rule_lut[j].next_state >= 32 {
                return None;
            }
            j = j + 1;
        }
        Some(Turing1 { alive, pos, state, rule_lut, rng })
    }
}

} // verus!
