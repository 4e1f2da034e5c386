//! A Turing machine on a wrapping hex grid stored as a `Tile`: a head with a
//! few states reads and writes symbols and moves in one of the six directions.
use vstd::prelude::*;

use crate::coords::Cube;
use crate::hexgrid_view::CellView;
use crate::rng::{random_seed, seed_rng, seeded};
use crate::tile::Tile;
use crate::torus_tile::{cells_len, torus_index};
use crate::turing::{command_ok, random_rule, rule_drawn, start_pos, Command, LUT_SIZE, STATES, SYMBOLS};

verus! {

/// The machine: the grid of symbols, the head's position and state, and the rules.
pub struct Turing2 {
    pub grid: Tile<u8>,
    pos: Cube,
    state: u8,
    rule_lut: Vec<Command>,
}

/// Whether a grid, a head position and state and a rule table make a machine.
pub open spec fn parts_ok(grid: Tile<u8>, pos: Cube, state: u8, rules: Seq<Command>) -> bool {
    &&& grid@.len() == cells_len()
    &&& forall|i: int| 0 <= i < cells_len() ==> #[trigger] grid@[i] < SYMBOLS
    &&& state < STATES
    &&& rules.len() == LUT_SIZE
    &&& forall|i: int| 0 <= i < LUT_SIZE ==> command_ok(#[trigger] rules[i])
    &&& 0 <= pos.x < 32 && -63 < pos.y <= 0
}

impl Turing2 {
    pub closed spec fn grid_spec(self) -> Tile<u8> {
        self.grid
    }

    pub closed spec fn pos_spec(self) -> Cube {
        self.pos
    }

    pub closed spec fn state_spec(self) -> u8 {
        self.state
    }

    pub closed spec fn rules_spec(self) -> Seq<Command> {
        self.rule_lut@
    }

    /// What every machine keeps: a full grid of symbols that exist, a state
    /// that exists, a full rule table, and a head on the grid's storage.
    pub open spec fn wf(self) -> bool {
        parts_ok(self.grid_spec(), self.pos_spec(), self.state_spec(), self.rules_spec())
    }

    /// A machine with rules drawn from a generator seeded with `seed`, on an
    /// empty grid, in state 0.
    pub fn new_with_seed(seed: u64) -> (r: Turing2)
        ensures
            r.wf(),
            r.rules_spec() == rule_drawn(seeded(seed), LUT_SIZE as nat).0,
            r.state_spec() == 0,
            r.pos_spec() == (Cube { x: 3i32, y: -8i32 }),
            forall|i: int| 0 <= i < cells_len() ==> #[trigger] r.grid_spec()@[i] == 0,
    {
        let mut rng = seed_rng(seed);
        let rule_lut = random_rule(&mut rng);
        Turing2 { grid: Tile::new(0), rule_lut, pos: start_pos(), state: 0 }
    }

    /// A machine seeded at random.
    pub fn new() -> (r: Turing2)
        ensures
            r.wf(),
            r.state_spec() == 0,
            r.pos_spec() == (Cube { x: 3i32, y: -8i32 }),
            forall|i: int| 0 <= i < cells_len() ==> #[trigger] r.grid_spec()@[i] == 0,
    {
        Self::new_with_seed(random_seed())
    }

    /// One step: the head looks up the command for its state and the symbol
    /// under it, writes the new symbol, moves, and takes the new state.
    pub fn step(&mut self)
        requires
            old(self).wf(),
        ensures
            final(self).wf(),
            final(self).rules_spec() == old(self).rules_spec(),
            ({
                let p = old(self).pos_spec();
                let here = torus_index(p.x as int, p.y as int);
                let c = old(self).rules_spec()[old(self).state_spec() * SYMBOLS + old(self).grid_spec()@[here]];
                &&& final(self).grid_spec()@ == old(self).grid_spec()@.update(here, c.next_symbol)
                &&& final(self).state_spec() == c.next_state
                &&& torus_index(final(self).pos_spec().x as int, final(self).pos_spec().y as int)
                    == torus_index(p.x + c.next_action.dx(), p.y + c.next_action.dy())
            }),
    {
        let symbol = self.grid.get_cell(self.pos);
        let key: usize = self.state as usize * 4 + symbol as usize;
        let command = self.rule_lut[key];
        self.grid.set_cell(self.pos, command.next_symbol);
        let moved = self.pos.add_direction(command.next_action);
        self.pos = Tile::<u8>::wrap_pos(moved);
        self.state = command.next_state;
    }

    /// How the cell at `pos` is rendered: the head as type 0, a symbol `s` as `s + 1`.
    pub fn get_cell_view(&self, pos: Cube) -> (r: CellView)
        requires
            self.wf(),
        ensures
            r.energy is None,
            r.direction is None,
            r.cell_type == (if torus_index(
                pos.x as int,
                pos.y as int,
            ) == torus_index(self.pos_spec().x as int, self.pos_spec().y as int) {
                0
            } else {
                self.grid_spec()@[torus_index(pos.x as int, pos.y as int)] + 1
            }),
    {
        let cell_type: u8 = if self.grid.is_same_pos(pos, self.pos) {
            0
        } else {
            self.grid.get_cell(pos) + 1
        };
        CellView { cell_type, energy: None, direction: None }
    }
}

impl Default for Turing2 {
    fn default() -> (r: Self)
        ensures
            r.wf(),
    {
        Self::new()
    }
}

impl Turing2 {
    /// The grid, the head's position and state, and the rules (to save the state).
    pub fn parts(&self) -> (r: (&Tile<u8>, Cube, u8, &Vec<Command>))
        ensures
            *r.0 == self.grid_spec(),
            r.1 == self.pos_spec(),
            r.2 == self.state_spec(),
            r.3@ == self.rules_spec(),
    {
        (&self.grid, self.pos, self.state, &self.rule_lut)
    }

    /// A machine from saved parts; `None` where they break `wf`.
    pub fn from_parts(grid: Tile<u8>, pos: Cube, state: u8, rule_lut: Vec<Command>) -> (r: Option<Turing2>)
        ensures
            r matches Some(t) ==> t.wf() && t.grid_spec() == grid && t.pos_spec() == pos && t.state_spec()
                == state && t.rules_spec() == rule_lut@,
            r is None <==> !parts_ok(grid, pos, state, rule_lut@),
    {
        if grid.iter_cells().len() != 1024 || state >= STATES || rule_lut.len() != LUT_SIZE {
            return None;
        }
        if !(0 <= pos.x && pos.x < 32 && -63 < pos.y && pos.y <= 0) {
            return None;
        }
        let cells = grid.iter_cells();
        let mut k: usize = 0;
        while k < cells.len()
            invariant
                cells@ == grid@,
                0 <= k <= cells@.len(),
                forall|a: int| 0 <= a < k ==> #[trigger] cells@[a] < SYMBOLS,
            decreases cells@.len() - k,
        {
            if cells[k] >= SYMBOLS {
                return None;
            }
            k = k + 1;
        }
        let mut j: usize = 0;
        while j < rule_lut.len()
            invariant
                rule_lut@.len() == LUT_SIZE,
                0 <= j <= LUT_SIZE,
                forall|a: int| 0 <= a < j ==> command_ok(#[trigger] rule_lut@[a]),
            decreases LUT_SIZE - j,
        {
            let c = rule_lut[j];
            if c.next_state >= STATES || c.next_symbol >= SYMBOLS {
                return None;
            }
            j = j + 1;
        }
        Some(Turing2 { grid, pos, state, rule_lut })
    }
}

} // verus!
