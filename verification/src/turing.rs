//! A Turing machine on a wrapping hex grid: a head with a few states reads
//! and writes symbols and moves in one of the six directions.
use vstd::prelude::*;

use crate::coords::{Cube, Direction, Offset};
use crate::hexgrid_view::{CellView, HexgridView};
use crate::rng::{below_u8_draw, choose_from, index_draw, random_seed, random_u8_below, seed_rng, seeded, SimRng};
use crate::torus_tile::{cells_len, torus_index, TorusTile};

verus! {

/// Number of states of the head.
pub const STATES: u8 = 5;

/// Number of symbols (cell types).
pub const SYMBOLS: u8 = 4;

/// Number of entries of the rule table: one for each state and symbol.
pub const LUT_SIZE: usize = 20;

/// What the head does for a state and a symbol: its next state, the symbol
/// it writes, and the direction it moves.
#[derive(Clone, Copy, Debug)]
pub struct Command {
    pub next_state: u8,
    pub next_symbol: u8,
    pub next_action: Direction,
}

/// Whether a command names a state and a symbol that exist.
pub open spec fn command_ok(c: Command) -> bool {
    c.next_state < STATES && c.next_symbol < SYMBOLS
}

/// The machine: the grid of symbols, the head's position and state, and the rules.
pub struct Turing {
    pub grid: TorusTile<u8>,
    pos: Cube,
    state: u8,
    rule_lut: Vec<Command>,
}

/// The command that `random_rule` draws from the generator in state `rng`
/// (a state below `STATES`, a symbol below `SYMBOLS`, one of the six
/// directions), and the generator's next state.
pub open spec fn command_drawn(rng: SimRng) -> (Command, SimRng) {
    let ds = below_u8_draw(rng, STATES);
    let dy = below_u8_draw(ds.1, SYMBOLS);
    let dd = index_draw(dy.1, 6);
    (Command { next_state: ds.0, next_symbol: dy.0, next_action: Direction::from_idx(dd.0 as int) }, dd.1)
}

/// The first `k` commands of a rule table drawn from the generator in state
/// `rng`, and the generator's next state.
pub open spec fn rule_drawn(rng: SimRng, k: nat) -> (Seq<Command>, SimRng)
    decreases k,
{
    if k == 0 {
        (Seq::empty(), rng)
    } else {
        let prev = rule_drawn(rng, (k - 1) as nat);
        let c = command_drawn(prev.1);
        (prev.0.push(c.0), c.1)
    }
}

/// A rule table drawn at random.
pub fn random_rule(rng: &mut SimRng) -> (r: Vec<Command>)
    ensures
        r@.len() == LUT_SIZE,
        forall|i: int| 0 <= i < LUT_SIZE ==> command_ok(#[trigger] r@[i]),
        r@ == rule_drawn(*old(rng), LUT_SIZE as nat).0,
        *final(rng) == rule_drawn(*old(rng), LUT_SIZE as nat).1,
{
    let ghost start = *rng;
    let dirs = Direction::all();
    let choices = vec![dirs[0], dirs[1], dirs[2], dirs[3], dirs[4], dirs[5]];
    let mut lut: Vec<Command> = Vec::new();
    let mut i: usize = 0;
    while i < LUT_SIZE
        invariant
            0 <= i <= LUT_SIZE,
            lut@.len() == i,
            choices@.len() == 6,
            forall|k: int| 0 <= k < 6 ==> #[trigger] choices@[k] == Direction::from_idx(k),
            forall|k: int| 0 <= k < i ==> command_ok(#[trigger] lut@[k]),
            lut@ == rule_drawn(start, i as nat).0,
            *rng == rule_drawn(start, i as nat).1,
        decreases LUT_SIZE - i,
    {
        let ghost before = *rng;
        let next_state = random_u8_below(rng, STATES);
        let next_symbol = random_u8_below(rng, SYMBOLS);
        let next_action = match choose_from(rng, &choices) {
            Some(d) => d,
            None => Direction::NorthWest,
        };
        let c = Command { next_state, next_symbol, next_action };
        proof {
            assert(command_drawn(before) == (c, *rng));
        }
        lut.push(c);
        i = i + 1;
    }
    lut
}

/// Where the head starts.
pub fn start_pos() -> (r: Cube)
    ensures
        r == (Cube { x: 3i32, y: -8i32 }),
{
    Cube::from_offset(Offset { col: 5, row: 5 })
}

/// Whether a grid, a head position and state and a rule table make a machine.
pub open spec fn parts_ok(grid: TorusTile<u8>, pos: Cube, state: u8, rules: Seq<Command>) -> bool {
    &&& grid@.len() == cells_len()
    &&& forall|i: int| 0 <= i < cells_len() ==> #[trigger] grid@[i] < SYMBOLS
    &&& state < STATES
    &&& rules.len() == LUT_SIZE
    &&& forall|i: int| 0 <= i < LUT_SIZE ==> command_ok(#[trigger] rules[i])
    &&& 0 <= pos.x < 32 && -63 < pos.y <= 0
}

impl Turing {
    pub closed spec fn grid_spec(self) -> TorusTile<u8> {
        self.grid
    }

    pub closed spec fn pos_spec(self) -> Cube {
        self.pos
    }

    pub closed spec fn state_spec(self) -> u8 {
        self.state
    }

    pub closed spec fn rules_spec(self) -> Seq<Command> {
        self.rule_lut@
    }

    /// What every machine keeps: a full grid of symbols that exist, a state
    /// that exists, a full rule table, and a head on the grid's storage.
    pub open spec fn wf(self) -> bool {
        parts_ok(self.grid_spec(), self.pos_spec(), self.state_spec(), self.rules_spec())
    }

    /// A machine with rules drawn from a generator seeded with `seed`, on an
    /// empty grid, in state 0.
    pub fn new_with_seed(seed: u64) -> (r: Turing)
        ensures
            r.wf(),
            r.rules_spec() == rule_drawn(seeded(seed), LUT_SIZE as nat).0,
            r.state_spec() == 0,
            r.pos_spec() == (Cube { x: 3i32, y: -8i32 }),
            forall|i: int| 0 <= i < cells_len() ==> #[trigger] r.grid_spec()@[i] == 0,
    {
        let mut rng = seed_rng(seed);
        let rule_lut = random_rule(&mut rng);
        Turing { grid: TorusTile::new(0), rule_lut, pos: start_pos(), state: 0 }
    }

    /// A machine seeded at random.
    pub fn new() -> (r: Turing)
        ensures
            r.wf(),
            r.state_spec() == 0,
            r.pos_spec() == (Cube { x: 3i32, y: -8i32 }),
            forall|i: int| 0 <= i < cells_len() ==> #[trigger] r.grid_spec()@[i] == 0,
    {
        Self::new_with_seed(random_seed())
    }

    /// One step: the head looks up the command for its state and the symbol
    /// under it, writes the new symbol, moves, and takes the new state.
    pub fn step(&mut self)
        requires
            old(self).wf(),
        ensures
            final(self).wf(),
            final(self).rules_spec() == old(self).rules_spec(),
            ({
                let p = old(self).pos_spec();
                let here = torus_index(p.x as int, p.y as int);
                let c = old(self).rules_spec()[old(self).state_spec() * SYMBOLS + old(self).grid_spec()@[here]];
                &&& final(self).grid_spec()@ == old(self).grid_spec()@.update(here, c.next_symbol)
                &&& final(self).state_spec() == c.next_state
                &&& torus_index(final(self).pos_spec().x as int, final(self).pos_spec().y as int)
                    == torus_index(p.x + c.next_action.dx(), p.y + c.next_action.dy())
            }),
    {
        let symbol = self.grid.cell(self.pos);
        let key: usize = self.state as usize * 4 + symbol as usize;
        let command = self.rule_lut[key];
        self.grid.set_cell(self.pos, command.next_symbol);
        let moved = self.pos.add_direction(command.next_action);
        self.pos = TorusTile::<u8>::wrap_pos(moved);
        self.state = command.next_state;
    }

}

impl Default for Turing {
    fn default() -> (r: Self)
        ensures
            r.wf(),
    {
        Self::new()
    }
}


impl Turing {
    /// The grid, the head's position and state, and the rules (to save the state).
    pub fn parts(&self) -> (r: (&TorusTile<u8>, Cube, u8, &Vec<Command>))
        ensures
            *r.0 == self.grid_spec(),
            r.1 == self.pos_spec(),
            r.2 == self.state_spec(),
            r.3@ == self.rules_spec(),
    {
        (&self.grid, self.pos, self.state, &self.rule_lut)
    }

    /// A machine from saved parts; `None` where they break `wf`.
    pub fn from_parts(grid: TorusTile<u8>, pos: Cube, state: u8, rule_lut: Vec<Command>) -> (r: Option<Turing>)
        ensures
            r matches Some(t) ==> t.wf() && t.grid_spec() == grid && t.pos_spec() == pos && t.state_spec()
                == state && t.rules_spec() == rule_lut@,
            r is None <==> !parts_ok(grid, pos, state, rule_lut@),
    {
        if grid.iter_cells().len() != 1024 || state >= STATES || rule_lut.len() != LUT_SIZE {
            return None;
        }
        if !(0 <= pos.x && pos.x < 32 && -63 < pos.y && pos.y <= 0) {
            return None;
        }
        let cells = grid.iter_cells();
        let mut k: usize = 0;
        while k < cells.len()
            invariant
                cells@ == grid@,
                0 <= k <= cells@.len(),
                forall|a: int| 0 <= a < k ==> #[trigger] cells@[a] < SYMBOLS,
            decreases cells@.len() - k,
        {
            if cells[k] >= SYMBOLS {
                return None;
            }
            k = k + 1;
        }
        let mut j: usize = 0;
        while j < rule_lut.len()
            invariant
                rule_lut@.len() == LUT_SIZE,
                0 <= j <= LUT_SIZE,
                forall|a: int| 0 <= a < j ==> command_ok(#[trigger] rule_lut@[a]),
            decreases LUT_SIZE - j,
        {
            let c = rule_lut[j];
            if c.next_state >= STATES || c.next_symbol >= SYMBOLS {
                return None;
            }
            j = j + 1;
        }
        Some(Turing { grid, pos, state, rule_lut })
    }
}

impl HexgridView for Turing {
    open spec fn viewable(&self) -> bool {
        self.wf()
    }

    open spec fn shows(&self, pos: Cube, r: Option<CellView>) -> bool {
        r matches Some(v) && v.energy is None && v.direction is None && v.cell_type == (if torus_index(
            pos.x as int,
            pos.y as int
        ) == torus_index(self.pos_spec().x as int, self.pos_spec().y as int) {
            0
        } else {
            self.grid_spec()@[torus_index(pos.x as int, pos.y as int)] + 1
        })
    }

    /// How the cell at `pos` is rendered: the head as type 0, a symbol `s` as `s + 1`.
    fn cell_view(&self, pos: Cube) -> (r: Option<CellView>) {
        let cell_type: u8 = if self.grid.is_same_pos(pos, self.pos) {
            0
        } else {
            self.grid.cell(pos) + 1
        };
        Some(CellView { cell_type, energy: None, direction: None })
    }
}

} // verus!
