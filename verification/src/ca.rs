//! A cellular automaton with transactions.
//!
//! Cells can move or swap through exclusive transactions between two
//! neighbours. Each cell may request a transaction towards each of its
//! neighbours, and takes part in at most one transaction (chosen at random).
//! A transaction executes only when both of its cells chose it. After the
//! transactions, a normal CA update step follows: each cell updates itself
//! from its own state and the state of its neighbours.
use vstd::prelude::*;

use crate::axial_tile::{dz, AxialTile};
use crate::coords::{Cube, Direction, Neighbourhood};
use crate::rng::{choose_from, index_draw, SimRng};
use crate::torus_tile::{cells_len, torus_pos, TorusTile};

verus! {

/// What a transaction does to its two cells.
#[derive(Clone, Copy)]
pub struct TransactionResult<Cell: Copy> {
    pub source: Cell,
    pub target: Cell,
}

/// The rules of a cellular automaton with transactions.
pub trait TransactionalCaRule {
    type Cell: Copy;

    /// The result of the transaction from `source` to the neighbour `target`
    /// (in `direction` from the source), or `None` where it is not allowed.
    spec fn transaction_spec(
        &self,
        source: Self::Cell,
        target: Self::Cell,
        direction: Direction,
    ) -> Option<TransactionResult<Self::Cell>>;

    /// Checks whether a transaction from source to target is allowed, and
    /// what the result would be. A pure function (no randomness).
    fn transaction(&self, source: Self::Cell, target: Self::Cell, direction: Direction) -> (r:
        Option<TransactionResult<Self::Cell>>)
        ensures
            r == self.transaction_spec(source, target, direction),
    ;

    /// Whether `out` is a CA update that `step` may give for `neighbourhood`.
    spec fn step_gives(&self, neighbourhood: Neighbourhood<Self::Cell>, out: Self::Cell) -> bool;

    /// The update of the center of `neighbourhood` that `step`
    /// makes from the generator in state `rng`, and the generator's next state.
    spec fn step_drawn(&self, neighbourhood: Neighbourhood<Self::Cell>, rng: SimRng) -> (Self::Cell, SimRng);

    /// Calculates a CA update.
    fn step(&self, neighbourhood: Neighbourhood<Self::Cell>, rng: &mut SimRng) -> (r: Self::Cell)
        ensures
            self.step_gives(neighbourhood, r),
            (r, *final(rng)) == self.step_drawn(neighbourhood, *old(rng)),
    ;
}

/// The transaction that a cell chose.
#[derive(Clone, Copy, PartialEq, Eq, Debug, Structural)]
pub enum Decision {
    NoTransaction,
    /// The cell is the source of a transaction towards the neighbour in this direction.
    Source(Direction),
    /// The cell is the target of a transaction from the neighbour in this direction.
    Target(Direction),
}

impl Decision {
    /// The same transaction, as the other cell sees it.
    pub open spec fn inverted(self) -> Decision {
        match self {
            Decision::NoTransaction => Decision::NoTransaction,
            Decision::Source(dir) => Decision::Target(dir.opposite()),
            Decision::Target(dir) => Decision::Source(dir.opposite()),
        }
    }

    /// The same transaction, as the other cell sees it.
    pub fn invert(self) -> (r: Self)
        ensures
            r == self.inverted(),
    {
        match self {
            Decision::NoTransaction => Decision::NoTransaction,
            Decision::Source(dir) => Decision::Target(dir.neg()),
            Decision::Target(dir) => Decision::Source(dir.neg()),
        }
    }
}

/// Inverting a decision twice gives it back.
pub proof fn lemma_invert_involution(d: Decision)
    ensures
        d.inverted().inverted() == d,
{
    match d {
        Decision::NoTransaction => {},
        Decision::Source(dir) => {
            crate::coords::lemma_opposite_involution(dir);
        },
        Decision::Target(dir) => {
            crate::coords::lemma_opposite_involution(dir);
        },
    }
}

/// A transaction executes on both of its cells or on neither: where a cell
/// chose to be the source towards a neighbour that chose to be the target,
/// the source gets the transaction's new source and the target its new
/// target, both from the same transaction.
pub proof fn lemma_transaction_is_exclusive<R: TransactionalCaRule>(
    rule: &R,
    cells_a: Neighbourhood<R::Cell>,
    decisions_a: Neighbourhood<Decision>,
    cells_b: Neighbourhood<R::Cell>,
    decisions_b: Neighbourhood<Decision>,
    dir: Direction,
)
    requires
        cells_a.neighbours@[dir.idx()] == cells_b.center,
        cells_b.neighbours@[dir.opposite().idx()] == cells_a.center,
        decisions_a.neighbours@[dir.idx()] == decisions_b.center,
        decisions_b.neighbours@[dir.opposite().idx()] == decisions_a.center,
        decisions_a.center == Decision::Source(dir),
        decisions_b.center == Decision::Target(dir.opposite()),
    ensures
        transact_spec(rule, cells_a, decisions_a) == rule.transaction_spec(
            cells_a.center,
            cells_b.center,
            dir,
        )->0.source,
        transact_spec(rule, cells_b, decisions_b) == rule.transaction_spec(
            cells_a.center,
            cells_b.center,
            dir,
        )->0.target,
{
    crate::coords::lemma_opposite_involution(dir);
}

/// Whether the cell at the center of `nh` may be the source of a transaction
/// in direction `dir`.
pub open spec fn can_source<R: TransactionalCaRule>(
    rule: &R,
    nh: Neighbourhood<R::Cell>,
    dir: Direction,
) -> bool {
    rule.transaction_spec(nh.center, nh.neighbours@[dir.idx()], dir) is Some
}

/// Whether the cell at the center of `nh` may be the target of a transaction
/// from direction `dir`.
pub open spec fn can_target<R: TransactionalCaRule>(
    rule: &R,
    nh: Neighbourhood<R::Cell>,
    dir: Direction,
) -> bool {
    rule.transaction_spec(nh.neighbours@[dir.idx()], nh.center, dir.opposite()) is Some
}

/// Whether `d` is a transaction that the center of `nh` may choose.
pub open spec fn decision_valid<R: TransactionalCaRule>(
    rule: &R,
    nh: Neighbourhood<R::Cell>,
    d: Decision,
) -> bool {
    match d {
        Decision::NoTransaction => true,
        Decision::Source(dir) => can_source(rule, nh, dir),
        Decision::Target(dir) => can_target(rule, nh, dir),
    }
}

/// Whether a transaction that both cells of `cells` chose (per `decisions`)
/// may execute.
pub open spec fn decision_ready<R: TransactionalCaRule>(
    rule: &R,
    cells: Neighbourhood<R::Cell>,
    decisions: Neighbourhood<Decision>,
) -> bool {
    match decisions.center {
        Decision::NoTransaction => true,
        Decision::Source(dir) => decisions.neighbours@[dir.idx()] == decisions.center.inverted()
            ==> can_source(rule, cells, dir),
        Decision::Target(dir) => decisions.neighbours@[dir.idx()] == decisions.center.inverted()
            ==> can_target(rule, cells, dir),
    }
}

/// Whether the center of `nh` may take part in any transaction.
pub open spec fn has_candidate<R: TransactionalCaRule>(rule: &R, nh: Neighbourhood<R::Cell>) -> bool {
    exists|dir: Direction| can_source(rule, nh, dir) || can_target(rule, nh, dir)
}

/// The new value of the center of `cells`, after the transactions chosen by
/// the cells of the neighbourhood (`decisions`) were executed: a transaction
/// executes where the neighbour chose the same transaction.
pub open spec fn transact_spec<R: TransactionalCaRule>(
    rule: &R,
    cells: Neighbourhood<R::Cell>,
    decisions: Neighbourhood<Decision>,
) -> R::Cell {
    match decisions.center {
        Decision::NoTransaction => cells.center,
        Decision::Source(dir) => {
            if decisions.center.inverted() == decisions.neighbours@[dir.idx()] {
                rule.transaction_spec(cells.center, cells.neighbours@[dir.idx()], dir)->0.source
            } else {
                cells.center
            }
        },
        Decision::Target(dir) => {
            if decisions.center.inverted() == decisions.neighbours@[dir.idx()] {
                rule.transaction_spec(
                    cells.neighbours@[dir.idx()],
                    cells.center,
                    dir.opposite(),
                )->0.target
            } else {
                cells.center
            }
        },
    }
}

/// Whether `d` is a choice that step 1 may make for the center of `nh`: a
/// transaction it may take part in, and none only where there is none.
pub open spec fn chosen<R: TransactionalCaRule>(rule: &R, nh: Neighbourhood<R::Cell>, d: Decision) -> bool {
    &&& decision_valid(rule, nh, d)
    &&& (d == Decision::NoTransaction <==> !has_candidate(rule, nh))
}

/// Without conflicts a transaction is certain: where the only transaction a
/// cell may take part in is as the source towards `dir`, and the only one
/// its neighbour there may take part in is as the target of it, step 1
/// makes both choose it, and it executes on both.
pub proof fn lemma_no_conflict_executes<R: TransactionalCaRule>(
    rule: &R,
    cells_a: Neighbourhood<R::Cell>,
    decisions_a: Neighbourhood<Decision>,
    cells_b: Neighbourhood<R::Cell>,
    decisions_b: Neighbourhood<Decision>,
    dir: Direction,
)
    requires
        cells_a.neighbours@[dir.idx()] == cells_b.center,
        cells_b.neighbours@[dir.opposite().idx()] == cells_a.center,
        decisions_a.neighbours@[dir.idx()] == decisions_b.center,
        decisions_b.neighbours@[dir.opposite().idx()] == decisions_a.center,
        can_source(rule, cells_a, dir),
        forall|d: Decision|
            d != Decision::NoTransaction && #[trigger] decision_valid(rule, cells_a, d) ==> d == Decision::Source(dir),
        forall|d: Decision|
            d != Decision::NoTransaction && #[trigger] decision_valid(rule, cells_b, d) ==> d == Decision::Target(
                dir.opposite(),
            ),
        chosen(rule, cells_a, decisions_a.center),
        chosen(rule, cells_b, decisions_b.center),
    ensures
        decisions_a.center == Decision::Source(dir),
        decisions_b.center == Decision::Target(dir.opposite()),
        transact_spec(rule, cells_a, decisions_a) == rule.transaction_spec(
            cells_a.center,
            cells_b.center,
            dir,
        )->0.source,
        transact_spec(rule, cells_b, decisions_b) == rule.transaction_spec(
            cells_a.center,
            cells_b.center,
            dir,
        )->0.target,
{
    crate::coords::lemma_opposite_involution(dir);
    assert(has_candidate(rule, cells_a));
    assert(can_target(rule, cells_b, dir.opposite()));
    assert(has_candidate(rule, cells_b));
    lemma_transaction_is_exclusive(rule, cells_a, decisions_a, cells_b, decisions_b, dir);
}

/// The transactions as source that the center of `nh` may take part in,
/// towards the first `k` directions (clockwise from north-west), in order.
pub open spec fn source_choices<R: TransactionalCaRule>(rule: &R, nh: Neighbourhood<R::Cell>, k: int) -> Seq<
    Decision,
>
    decreases k,
{
    if k <= 0 {
        Seq::empty()
    } else {
        let prev = source_choices(rule, nh, k - 1);
        let dir = Direction::from_idx(k - 1);
        if can_source(rule, nh, dir) {
            prev.push(Decision::Source(dir))
        } else {
            prev
        }
    }
}

/// The transactions as target that the center of `nh` may take part in,
/// from the first `k` directions (clockwise from north-west), in order.
pub open spec fn target_choices<R: TransactionalCaRule>(rule: &R, nh: Neighbourhood<R::Cell>, k: int) -> Seq<
    Decision,
>
    decreases k,
{
    if k <= 0 {
        Seq::empty()
    } else {
        let prev = target_choices(rule, nh, k - 1);
        let dir = Direction::from_idx(k - 1);
        if can_target(rule, nh, dir) {
            prev.push(Decision::Target(dir))
        } else {
            prev
        }
    }
}

/// The choice that step 1 makes for the center of `nh` from the generator in
/// state `rng`, and the generator's next state: `choose_from` over the
/// transactions as source, then as target; none where there is none.
pub open spec fn step1_drawn<R: TransactionalCaRule>(rule: &R, nh: Neighbourhood<R::Cell>, rng: SimRng) -> (
    Decision,
    SimRng,
) {
    let items = source_choices(rule, nh, 6) + target_choices(rule, nh, 6);
    if items.len() == 0 {
        (Decision::NoTransaction, rng)
    } else if items.len() == 1 {
        (items[0], rng)
    } else {
        let d = index_draw(rng, items.len() as usize);
        (items[d.0 as int], d.1)
    }
}

/// Step 1: each cell chooses at random one of the transactions it may take part in.
pub fn step1<R: TransactionalCaRule>(rule: &R, nh: Neighbourhood<R::Cell>, rng: &mut SimRng) -> (r:
    Decision)
    ensures
        chosen(rule, nh, r),
        (r, *final(rng)) == step1_drawn(rule, nh, *old(rng)),
{
    broadcast use vstd::seq_lib::group_seq_properties;

    let mut choices: Vec<Decision> = Vec::new();
    let mut i: usize = 0;
    while i < 6
        invariant
            0 <= i <= 6,
            forall|k: int| 0 <= k < choices@.len() ==> decision_valid(rule, nh, #[trigger] choices@[k]),
            forall|k: int| 0 <= k < choices@.len() ==> #[trigger] choices@[k] != Decision::NoTransaction,
            forall|dir: Direction|
                dir.idx() < i && can_source(rule, nh, dir) ==> #[trigger] choices@.contains(
                    Decision::Source(dir),
                ),
            choices@ == source_choices(rule, nh, i as int),
        decreases 6 - i,
    {
        let dir = Direction::from_index(i);
        let ghost old_choices = choices@;
        if rule.transaction(nh.center, nh.neighbours[i], dir).is_some() {
            choices.push(Decision::Source(dir));
        }
        proof {
            assert forall|d2: Direction|
                d2.idx() < i + 1 && can_source(rule, nh, d2) implies #[trigger] choices@.contains(
                Decision::Source(d2),
            ) by {
                if d2.idx() < i {
                    assert(old_choices.contains(Decision::Source(d2)));
                    let k = choose|k: int|
                        0 <= k < old_choices.len() && old_choices[k] == Decision::Source(d2);
                    assert(choices@[k] == Decision::Source(d2));
                } else {
                    assert(d2 == dir);
                    assert(choices@[choices@.len() - 1] == Decision::Source(dir));
                }
            }
        }
        i = i + 1;
    }
    let mut i: usize = 0;
    while i < 6
        invariant
            0 <= i <= 6,
            forall|k: int| 0 <= k < choices@.len() ==> decision_valid(rule, nh, #[trigger] choices@[k]),
            forall|k: int| 0 <= k < choices@.len() ==> #[trigger] choices@[k] != Decision::NoTransaction,
            forall|dir: Direction|
                can_source(rule, nh, dir) ==> #[trigger] choices@.contains(Decision::Source(dir)),
            forall|dir: Direction|
                dir.idx() < i && can_target(rule, nh, dir) ==> #[trigger] choices@.contains(
                    Decision::Target(dir),
                ),
            choices@ == source_choices(rule, nh, 6) + target_choices(rule, nh, i as int),
        decreases 6 - i,
    {
        let dir = Direction::from_index(i);
        let ghost old_choices = choices@;
        if rule.transaction(nh.neighbours[i], nh.center, dir.neg()).is_some() {
            choices.push(Decision::Target(dir));
        }
        proof {
            assert forall|d2: Direction|
                can_source(rule, nh, d2) implies #[trigger] choices@.contains(Decision::Source(d2)) by {
                assert(old_choices.contains(Decision::Source(d2)));
                let k = choose|k: int|
                    0 <= k < old_choices.len() && old_choices[k] == Decision::Source(d2);
                assert(choices@[k] == Decision::Source(d2));
            }
            assert forall|d2: Direction|
                d2.idx() < i + 1 && can_target(rule, nh, d2) implies #[trigger] choices@.contains(
                Decision::Target(d2),
            ) by {
                if d2.idx() < i {
                    assert(old_choices.contains(Decision::Target(d2)));
                    let k = choose|k: int|
                        0 <= k < old_choices.len() && old_choices[k] == Decision::Target(d2);
                    assert(choices@[k] == Decision::Target(d2));
                } else {
                    assert(d2 == dir);
                    assert(choices@[choices@.len() - 1] == Decision::Target(dir));
                }
            }
        }
        i = i + 1;
    }
    proof {
        if has_candidate(rule, nh) {
            let dir = choose|dir: Direction| can_source(rule, nh, dir) || can_target(rule, nh, dir);
            if can_source(rule, nh, dir) {
                assert(choices@.contains(Decision::Source(dir)));
            } else {
                assert(choices@.contains(Decision::Target(dir)));
            }
        }
    }
    match choose_from(rng, &choices) {
        Some(d) => {
            proof {
                let k = choose|k: int| 0 <= k < choices@.len() && choices@[k] == d;
                assert(decision_valid(rule, nh, choices@[k]));
                assert(choices@[k] != Decision::NoTransaction);
                if !has_candidate(rule, nh) {
                    match d {
                        Decision::Source(dir) => assert(can_source(rule, nh, dir)),
                        Decision::Target(dir) => assert(can_target(rule, nh, dir)),
                        Decision::NoTransaction => {},
                    }
                }
            }
            d
        },
        None => Decision::NoTransaction,
    }
}

/// Step 2: execute the transactions where both cells agree.
pub fn step2<R: TransactionalCaRule>(
    rule: &R,
    cells: Neighbourhood<R::Cell>,
    decisions: Neighbourhood<Decision>,
) -> (r: R::Cell)
    requires
        decision_ready(rule, cells, decisions),
    ensures
        r == transact_spec(rule, cells, decisions),
{
    match decisions.center {
        Decision::NoTransaction => cells.center,
        Decision::Source(direction) => {
            let idx = direction.index();
            if decisions.center.invert() == decisions.neighbours[idx] {
                rule.transaction(cells.center, cells.neighbours[idx], direction).unwrap().source
            } else {
                cells.center
            }
        },
        Decision::Target(direction) => {
            let idx = direction.index();
            if decisions.center.invert() == decisions.neighbours[idx] {
                rule.transaction(cells.neighbours[idx], cells.center, direction.neg()).unwrap().target
            } else {
                cells.center
            }
        },
    }
}

/// The state of the generator, starting in state `rng`, after step 1 over
/// `tile` (`decide_torus`) decided the first `k` cells in storage order.
pub open spec fn decide_torus_rng<R: TransactionalCaRule>(rule: &R, tile: TorusTile<R::Cell>, rng: SimRng, k: nat) -> SimRng
    decreases k,
{
    if k == 0 {
        rng
    } else {
        step1_drawn(rule, tile.nh_of_index(k - 1), decide_torus_rng(rule, tile, rng, (k - 1) as nat)).1
    }
}

/// The state of the generator, starting in state `rng`, after the updates
/// of `step_torus` over the cells `moved` made the first `k` cells.
pub open spec fn update_torus_rng<R: TransactionalCaRule>(rule: &R, moved: TorusTile<R::Cell>, rng: SimRng, k: nat) -> SimRng
    decreases k,
{
    if k == 0 {
        rng
    } else {
        rule.step_drawn(moved.nh_of_index(k - 1), update_torus_rng(rule, moved, rng, (k - 1) as nat)).1
    }
}

/// The decisions of step 1 for every cell of a tile.
pub fn decide_torus<R: TransactionalCaRule>(
    tile: &TorusTile<R::Cell>,
    rule: &R,
    rng: &mut SimRng,
) -> (r: TorusTile<Decision>)
    requires
        tile@.len() == cells_len(),
    ensures
        r@.len() == cells_len(),
        forall|i: int|
            0 <= i < cells_len() ==> chosen(rule, tile.nh_of_index(i), #[trigger] r@[i]),
        forall|i: int|
            0 <= i < cells_len() ==> #[trigger] r@[i] == step1_drawn(
                rule,
                tile.nh_of_index(i),
                decide_torus_rng(rule, *tile, *old(rng), i as nat),
            ).0,
        *final(rng) == decide_torus_rng(rule, *tile, *old(rng), cells_len() as nat),
{
    let ghost rng0 = *rng;
    let nhs = tile.neighbourhoods();
    let mut out: Vec<Decision> = Vec::new();
    let mut i: usize = 0;
    while i < nhs.len()
        invariant
            nhs@.len() == cells_len(),
            forall|k: int| 0 <= k < cells_len() ==> #[trigger] nhs@[k] == tile.nh_of_index(k),
            0 <= i <= nhs@.len(),
            out@.len() == i,
            forall|k: int|
                0 <= k < i ==> chosen(rule, tile.nh_of_index(k), #[trigger] out@[k]),
            forall|k: int|
                0 <= k < i ==> #[trigger] out@[k] == step1_drawn(
                    rule,
                    tile.nh_of_index(k),
                    decide_torus_rng(rule, *tile, rng0, k as nat),
                ).0,
            *rng == decide_torus_rng(rule, *tile, rng0, i as nat),
        decreases nhs@.len() - i,
    {
        let d = step1(rule, nhs[i], rng);
        out.push(d);
        i = i + 1;
    }
    TorusTile::from_vec(out)
}

/// The cells of a tile after executing the transactions that `decisions` choose.
pub fn transact_torus<R: TransactionalCaRule>(
    tile: &TorusTile<R::Cell>,
    rule: &R,
    decisions: &TorusTile<Decision>,
) -> (r: TorusTile<R::Cell>)
    requires
        tile@.len() == cells_len(),
        decisions@.len() == cells_len(),
        forall|i: int|
            0 <= i < cells_len() ==> chosen(rule, tile.nh_of_index(i), #[trigger] decisions@[i]),
    ensures
        r@.len() == cells_len(),
        forall|i: int|
            0 <= i < cells_len() ==> #[trigger] r@[i] == transact_spec(
                rule,
                tile.nh_of_index(i),
                decisions.nh_of_index(i),
            ),
{
    let cells = tile.neighbourhoods();
    let decs = decisions.neighbourhoods();
    let mut out: Vec<R::Cell> = Vec::new();
    let mut i: usize = 0;
    while i < cells.len()
        invariant
            cells@.len() == cells_len(),
            decs@.len() == cells_len(),
            forall|k: int| 0 <= k < cells_len() ==> #[trigger] cells@[k] == tile.nh_of_index(k),
            forall|k: int| 0 <= k < cells_len() ==> #[trigger] decs@[k] == decisions.nh_of_index(k),
            forall|k: int|
                0 <= k < cells_len() ==> decisions.is_neighbourhood(
                    crate::torus_tile::torus_pos(k).x as int,
                    crate::torus_tile::torus_pos(k).y as int,
                    #[trigger] decs@[k],
                ),
            forall|k: int|
                0 <= k < cells_len() ==> chosen(rule, tile.nh_of_index(k), #[trigger] decisions@[k]),
            0 <= i <= cells@.len(),
            out@.len() == i,
            forall|k: int|
                0 <= k < i ==> #[trigger] out@[k] == transact_spec(
                    rule,
                    tile.nh_of_index(k),
                    decisions.nh_of_index(k),
                ),
        decreases cells@.len() - i,
    {
        let c = cells[i];
        let d = decs[i];
        proof {
            crate::torus_tile::lemma_torus_pos_index(i as int);
            assert(decisions.is_neighbourhood(
                crate::torus_tile::torus_pos(i as int).x as int,
                crate::torus_tile::torus_pos(i as int).y as int,
                decs@[i as int],
            ));
            assert(d.center == decisions@[i as int]);
            assert(chosen(rule, c, d.center));
        }
        out.push(step2(rule, c, d));
        i = i + 1;
    }
    TorusTile::from_vec(out)
}

/// Whether `moved` is `tile` after the transactions that `decisions` choose,
/// each decision one that step 1 may make for its cell (`chosen`).
pub open spec fn torus_transacted<R: TransactionalCaRule>(
    rule: &R,
    tile: TorusTile<R::Cell>,
    decisions: TorusTile<Decision>,
    moved: TorusTile<R::Cell>,
) -> bool {
    &&& decisions@.len() == cells_len()
    &&& moved@.len() == cells_len()
    &&& forall|i: int|
        0 <= i < cells_len() ==> chosen(rule, tile.nh_of_index(i), #[trigger] decisions@[i])
    &&& forall|i: int|
        0 <= i < cells_len() ==> #[trigger] moved@[i] == transact_spec(
            rule,
            tile.nh_of_index(i),
            decisions.nh_of_index(i),
        )
}

/// Whether `step1` holds the cells of `tile` with decisions that step 1 may
/// make for them (`chosen`; the border cells: `border`, without a
/// transaction), and `moved`
/// the cells after the chosen transactions (border cells: `border`).
pub open spec fn axial_transacted<R: TransactionalCaRule>(
    rule: &R,
    tile: AxialTile<R::Cell>,
    border: R::Cell,
    step1: AxialTile<(R::Cell, Decision)>,
    moved: AxialTile<R::Cell>,
) -> bool {
    &&& step1.well_sized()
    &&& moved.well_sized()
    &&& step1.spec_width() == tile.spec_width()
    &&& step1.spec_height() == tile.spec_height()
    &&& moved.spec_width() == tile.spec_width()
    &&& moved.spec_height() == tile.spec_height()
    &&& forall|q: int, rr: int|
        0 <= q < tile.spec_width() && 0 <= rr < tile.spec_height() && !tile.interior(q, rr) ==> #[trigger] step1.at(
            q,
            rr,
        ) == (border, Decision::NoTransaction)
    &&& forall|q: int, rr: int|
        tile.interior(q, rr) ==> (#[trigger] step1.at(q, rr)).0 == tile.at(q, rr) && chosen(
            rule,
            tile.nh_at(q, rr),
            step1.at(q, rr).1,
        )
    &&& forall|q: int, rr: int|
        0 <= q < tile.spec_width() && 0 <= rr < tile.spec_height() && !tile.interior(q, rr)
            ==> #[trigger] moved.at(q, rr) == border
    &&& forall|q: int, rr: int|
        tile.interior(q, rr) ==> #[trigger] moved.at(q, rr) == transact_spec(
            rule,
            cells_of(step1.nh_at(q, rr)),
            decisions_of(step1.nh_at(q, rr)),
        )
}

/// One step of the automaton on a map with borders: choose the transactions
/// of the interior cells, execute them, then update every interior cell with
/// `rule.step`. The border cells become `border`.
pub fn step_axial<R: TransactionalCaRule>(
    tile: &AxialTile<R::Cell>,
    border: R::Cell,
    rule: &R,
    rng: &mut SimRng,
) -> (r: AxialTile<R::Cell>)
    requires
        tile.well_sized(),
    ensures
        r.spec_width() == tile.spec_width(),
        r.spec_height() == tile.spec_height(),
        r.well_sized(),
        forall|q: int, rr: int|
            0 <= q < tile.spec_width() && 0 <= rr < tile.spec_height() && !tile.interior(q, rr) ==> #[trigger] r.at(
                q,
                rr,
            ) == border,
        exists|step1: AxialTile<(R::Cell, Decision)>, moved: AxialTile<R::Cell>|
            #[trigger] axial_transacted(rule, *tile, border, step1, moved) && (forall|q: int, rr: int|
                tile.interior(q, rr) ==> rule.step_gives(moved.nh_at(q, rr), #[trigger] r.at(q, rr)))
                && (forall|q: int, rr: int|
                tile.interior(q, rr) ==> (#[trigger] step1.at(q, rr)).1 == step1_drawn(
                    rule,
                    tile.nh_at(q, rr),
                    decide_rng_before(rule, *tile, *old(rng), q, rr),
                ).0) && (forall|q: int, rr: int|
                tile.interior(q, rr) ==> #[trigger] r.at(q, rr) == rule.step_drawn(
                    moved.nh_at(q, rr),
                    update_rng_before(
                        rule,
                        moved,
                        decide_rng_before(rule, *tile, *old(rng), 1, tile.spec_height() - 1),
                        q,
                        rr,
                    ),
                ).0) && (*final(rng) == update_rng_before(
                rule,
                moved,
                decide_rng_before(rule, *tile, *old(rng), 1, tile.spec_height() - 1),
                1,
                tile.spec_height() - 1,
            )),
{
    let ghost rng0 = *rng;
    let step1 = decide_axial(tile, border, rule, rng);
    let ghost rng1 = *rng;
    let moved = transact_axial(tile, &step1, border, rule);
    assert(axial_transacted(rule, *tile, border, step1, moved));
    let w = moved.width();
    let h = moved.height();
    let mut result = AxialTile::new(w, h, border);
    proof {
        assert forall|q: int, rr: int| 0 <= q < w && 0 <= rr < h implies #[trigger] result.at(q, rr)
            == border by {
            crate::axial_tile::lemma_index_bound(w as int, h as int, q, rr);
        }
    }
    let mut r: i32 = 1;
    while r < h - 1
        invariant
            moved.well_sized(),
            w == moved.spec_width(),
            h == moved.spec_height(),
            1 <= r,
            r <= h - 1 || h < 2,
            h < 2 ==> r == 1,
            forall|q: int, rr: int|
                moved.interior(q, rr) && rr < r ==> #[trigger] result.at(q, rr) == rule.step_drawn(
                    moved.nh_at(q, rr),
                    update_rng_before(rule, moved, rng1, q, rr),
                ).0,
            *rng == update_rng_before(rule, moved, rng1, 1, r as int),
            result.spec_width() == w,
            result.spec_height() == h,
            result.well_sized(),
            forall|q: int, rr: int|
                0 <= q < w && 0 <= rr < h && !moved.interior(q, rr) ==> #[trigger] result.at(q, rr)
                    == border,
            forall|q: int, rr: int|
                moved.interior(q, rr) && rr < r ==> rule.step_gives(moved.nh_at(q, rr), #[trigger] result.at(q, rr)),
        decreases h - r,
    {
        let mut q: i32 = 1;
        while q < w - 1
            invariant
                moved.well_sized(),
                w == moved.spec_width(),
                h == moved.spec_height(),
                1 <= r < h - 1,
                1 <= q,
                q <= w - 1 || w < 2,
                w < 2 ==> q == 1,
                forall|qq: int, rr: int|
                    moved.interior(qq, rr) && (rr < r || (rr == r && qq < q)) ==> #[trigger] result.at(qq, rr)
                        == rule.step_drawn(moved.nh_at(qq, rr), update_rng_before(rule, moved, rng1, qq, rr)).0,
                *rng == update_rng_before(rule, moved, rng1, q as int, r as int),
                result.spec_width() == w,
                result.spec_height() == h,
                result.well_sized(),
                forall|qq: int, rr: int|
                    0 <= qq < w && 0 <= rr < h && !moved.interior(qq, rr) ==> #[trigger] result.at(
                        qq,
                        rr,
                    ) == border,
                forall|qq: int, rr: int|
                    moved.interior(qq, rr) && (rr < r || (rr == r && qq < q)) ==> rule.step_gives(
                        moved.nh_at(qq, rr),
                        #[trigger] result.at(qq, rr),
                    ),
            decreases w - q,
        {
            proof {
                crate::axial_tile::lemma_dims(w as int, h as int, 0);
            }
            let pos = Cube { x: q, y: -q - r };
            let nh = moved.neighbourhood(pos).unwrap();
            proof {
                moved.lemma_nh_unique(q as int, r as int, nh);
            }
            let v = rule.step(nh, rng);
            let ghost old_result = result;
            result.set_cell(pos, v);
            proof {
                crate::axial_tile::lemma_set_cell_at(old_result, result, q as int, r as int, v);
            }
            q = q + 1;
        }
        proof {
            assert(update_rng_before(rule, moved, rng1, 1, r + 1) == update_rng_before(
                rule,
                moved,
                rng1,
                w - 1,
                r as int,
            ));
            if w < 2 {
                assert(update_rng_before(rule, moved, rng1, w - 1, r as int) == update_rng_before(
                    rule,
                    moved,
                    rng1,
                    1,
                    r as int,
                ));
            }
        }
        r = r + 1;
    }
    proof {
        if h < 2 {
            assert(update_rng_before(rule, moved, rng1, 1, h - 1) == rng1);
        }
    }
    result
}

/// One step of the automaton on a tile with wrapping edges: choose the
/// transactions, execute them, then update every cell with `rule.step`.
pub fn step_torus<R: TransactionalCaRule>(tile: &TorusTile<R::Cell>, rule: &R, rng: &mut SimRng) -> (r:
    TorusTile<R::Cell>)
    requires
        tile@.len() == cells_len(),
    ensures
        r@.len() == cells_len(),
        exists|decisions: TorusTile<Decision>, moved: TorusTile<R::Cell>|
            #[trigger] torus_transacted(rule, *tile, decisions, moved) && (forall|i: int|
                0 <= i < cells_len() ==> rule.step_gives(moved.nh_of_index(i), #[trigger] r@[i])) && (forall|
                i: int,
            |
                0 <= i < cells_len() ==> #[trigger] decisions@[i] == step1_drawn(
                    rule,
                    tile.nh_of_index(i),
                    decide_torus_rng(rule, *tile, *old(rng), i as nat),
                ).0) && (forall|i: int|
                0 <= i < cells_len() ==> #[trigger] r@[i] == rule.step_drawn(
                    moved.nh_of_index(i),
                    update_torus_rng(
                        rule,
                        moved,
                        decide_torus_rng(rule, *tile, *old(rng), cells_len() as nat),
                        i as nat,
                    ),
                ).0) && (*final(rng) == update_torus_rng(
                rule,
                moved,
                decide_torus_rng(rule, *tile, *old(rng), cells_len() as nat),
                cells_len() as nat,
            )),
{
    let decisions = decide_torus(tile, rule, rng);
    let ghost rng1 = *rng;
    let moved = transact_torus(tile, rule, &decisions);
    assert(torus_transacted(rule, *tile, decisions, moved));
    let nhs = moved.neighbourhoods();
    let mut out: Vec<R::Cell> = Vec::new();
    let mut i: usize = 0;
    while i < nhs.len()
        invariant
            nhs@.len() == cells_len(),
            moved@.len() == cells_len(),
            forall|k: int|
                0 <= k < cells_len() ==> moved.is_neighbourhood(
                    torus_pos(k).x as int,
                    torus_pos(k).y as int,
                    #[trigger] nhs@[k],
                ),
            0 <= i <= nhs@.len(),
            out@.len() == i,
            forall|k: int| 0 <= k < i ==> rule.step_gives(moved.nh_of_index(k), #[trigger] out@[k]),
            forall|k: int|
                0 <= k < i ==> #[trigger] out@[k] == rule.step_drawn(
                    moved.nh_of_index(k),
                    update_torus_rng(rule, moved, rng1, k as nat),
                ).0,
            *rng == update_torus_rng(rule, moved, rng1, i as nat),
        decreases nhs@.len() - i,
    {
        proof {
            moved.lemma_nh_unique(i as int, nhs@[i as int]);
        }
        out.push(rule.step(nhs[i], rng));
        i = i + 1;
    }
    TorusTile::from_vec(out)
}

/// The state of the generator, starting in state `rng`, when step 1 over
/// `tile` (`decide_axial`) comes to the interior cell (q, r): the interior
/// cells are visited row by row from (1, 1), each drawing as `step1_drawn`
/// says. (q, r) = (1, h - 1) gives the state after all of them.
pub open spec fn decide_rng_before<R: TransactionalCaRule>(
    rule: &R,
    tile: AxialTile<R::Cell>,
    rng: SimRng,
    q: int,
    r: int,
) -> SimRng
    decreases r, q,
{
    if r <= 1 && q <= 1 {
        rng
    } else if q <= 1 {
        decide_rng_before(rule, tile, rng, tile.spec_width() - 1, r - 1)
    } else {
        step1_drawn(rule, tile.nh_at(q - 1, r), decide_rng_before(rule, tile, rng, q - 1, r)).1
    }
}

/// The state of the generator, starting in state `rng`, when the updates
/// of `step_axial` over the cells `moved` come to the interior cell (q, r):
/// row by row from (1, 1), each drawing as `rule.step_drawn` says.
pub open spec fn update_rng_before<R: TransactionalCaRule>(
    rule: &R,
    moved: AxialTile<R::Cell>,
    rng: SimRng,
    q: int,
    r: int,
) -> SimRng
    decreases r, q,
{
    if r <= 1 && q <= 1 {
        rng
    } else if q <= 1 {
        update_rng_before(rule, moved, rng, moved.spec_width() - 1, r - 1)
    } else {
        rule.step_drawn(moved.nh_at(q - 1, r), update_rng_before(rule, moved, rng, q - 1, r)).1
    }
}

/// The decisions of step 1 for every interior cell of a tile (each paired
/// with the cell); the border cells get `(border, NoTransaction)`.
pub fn decide_axial<R: TransactionalCaRule>(
    tile: &AxialTile<R::Cell>,
    border: R::Cell,
    rule: &R,
    rng: &mut SimRng,
) -> (r: AxialTile<(R::Cell, Decision)>)
    requires
        tile.well_sized(),
    ensures
        r.spec_width() == tile.spec_width(),
        r.spec_height() == tile.spec_height(),
        r.well_sized(),
        forall|q: int, rr: int|
            0 <= q < tile.spec_width() && 0 <= rr < tile.spec_height() && !tile.interior(q, rr) ==> #[trigger] r.at(
                q,
                rr,
            ) == (border, Decision::NoTransaction),
        forall|q: int, rr: int|
            tile.interior(q, rr) ==> (#[trigger] r.at(q, rr)).0 == tile.at(q, rr) && chosen(
                rule,
                tile.nh_at(q, rr),
                r.at(q, rr).1,
            ),
        forall|q: int, rr: int|
            tile.interior(q, rr) ==> (#[trigger] r.at(q, rr)).1 == step1_drawn(
                rule,
                tile.nh_at(q, rr),
                decide_rng_before(rule, *tile, *old(rng), q, rr),
            ).0,
        *final(rng) == decide_rng_before(rule, *tile, *old(rng), 1, tile.spec_height() - 1),
{
    let ghost rng0 = *rng;
    let w = tile.width();
    let h = tile.height();
    let mut result = AxialTile::new(w, h, (border, Decision::NoTransaction));
    proof {
        assert forall|q: int, rr: int| 0 <= q < w && 0 <= rr < h implies #[trigger] result.at(q, rr)
            == (border, Decision::NoTransaction) by {
            crate::axial_tile::lemma_index_bound(w as int, h as int, q, rr);
        }
    }
    let mut r: i32 = 1;
    while r < h - 1
        invariant
            tile.well_sized(),
            w == tile.spec_width(),
            h == tile.spec_height(),
            1 <= r,
            r <= h - 1 || h < 2,
            h < 2 ==> r == 1,
            forall|q: int, rr: int|
                tile.interior(q, rr) && rr < r ==> (#[trigger] result.at(q, rr)).1 == step1_drawn(
                    rule,
                    tile.nh_at(q, rr),
                    decide_rng_before(rule, *tile, rng0, q, rr),
                ).0,
            *rng == decide_rng_before(rule, *tile, rng0, 1, r as int),
            result.spec_width() == w,
            result.spec_height() == h,
            result.well_sized(),
            forall|q: int, rr: int|
                0 <= q < w && 0 <= rr < h && !(tile.interior(q, rr) && rr < r) ==> #[trigger] result.at(
                    q,
                    rr,
                ) == (border, Decision::NoTransaction),
            forall|q: int, rr: int|
                tile.interior(q, rr) && rr < r ==> (#[trigger] result.at(q, rr)).0 == tile.at(q, rr)
                    && chosen(rule, tile.nh_at(q, rr), result.at(q, rr).1),
        decreases h - r,
    {
        let mut q: i32 = 1;
        while q < w - 1
            invariant
                tile.well_sized(),
                w == tile.spec_width(),
                h == tile.spec_height(),
                1 <= r < h - 1,
                1 <= q,
                q <= w - 1 || w < 2,
                w < 2 ==> q == 1,
                forall|qq: int, rr: int|
                    tile.interior(qq, rr) && (rr < r || (rr == r && qq < q)) ==> (#[trigger] result.at(
                        qq,
                        rr,
                    )).1 == step1_drawn(rule, tile.nh_at(qq, rr), decide_rng_before(rule, *tile, rng0, qq, rr)).0,
                *rng == decide_rng_before(rule, *tile, rng0, q as int, r as int),
                result.spec_width() == w,
                result.spec_height() == h,
                result.well_sized(),
                forall|qq: int, rr: int|
                    0 <= qq < w && 0 <= rr < h && !(tile.interior(qq, rr) && (rr < r || (rr == r
                        && qq < q))) ==> #[trigger] result.at(qq, rr) == (border, Decision::NoTransaction),
                forall|qq: int, rr: int|
                    tile.interior(qq, rr) && (rr < r || (rr == r && qq < q)) ==> (#[trigger] result.at(
                        qq,
                        rr,
                    )).0 == tile.at(qq, rr) && chosen(rule, tile.nh_at(qq, rr), result.at(qq, rr).1),
            decreases w - q,
        {
            proof {
                crate::axial_tile::lemma_dims(w as int, h as int, 0);
            }
            let pos = Cube { x: q, y: -q - r };
            let nh = tile.neighbourhood(pos).unwrap();
            proof {
                tile.lemma_nh_unique(q as int, r as int, nh);
            }
            let d = step1(rule, nh, rng);
            let ghost old_result = result;
            result.set_cell(pos, (nh.center, d));
            proof {
                crate::axial_tile::lemma_set_cell_at(old_result, result, q as int, r as int, (nh.center, d));
            }
            q = q + 1;
        }
        proof {
            assert(decide_rng_before(rule, *tile, rng0, 1, r + 1) == decide_rng_before(
                rule,
                *tile,
                rng0,
                w - 1,
                r as int,
            ));
            if w < 2 {
                assert(decide_rng_before(rule, *tile, rng0, w - 1, r as int) == decide_rng_before(
                    rule,
                    *tile,
                    rng0,
                    1,
                    r as int,
                ));
            }
        }
        r = r + 1;
    }
    proof {
        if h < 2 {
            assert(decide_rng_before(rule, *tile, rng0, 1, h - 1) == rng0);
        }
    }
    result
}

/// The cells of a tile after executing the transactions chosen in `step1`
/// (the result of `decide_axial` for `tile`), for the interior cells; the
/// border cells become `border`.
pub fn transact_axial<R: TransactionalCaRule>(
    tile: &AxialTile<R::Cell>,
    step1: &AxialTile<(R::Cell, Decision)>,
    border: R::Cell,
    rule: &R,
) -> (r: AxialTile<R::Cell>)
    requires
        tile.well_sized(),
        step1.well_sized(),
        step1.spec_width() == tile.spec_width(),
        step1.spec_height() == tile.spec_height(),
        forall|q: int, rr: int|
            0 <= q < tile.spec_width() && 0 <= rr < tile.spec_height() && !tile.interior(q, rr) ==> #[trigger] step1.at(
                q,
                rr,
            ) == (border, Decision::NoTransaction),
        forall|q: int, rr: int|
            tile.interior(q, rr) ==> (#[trigger] step1.at(q, rr)).0 == tile.at(q, rr) && chosen(
                rule,
                tile.nh_at(q, rr),
                step1.at(q, rr).1,
            ),
    ensures
        r.spec_width() == step1.spec_width(),
        r.spec_height() == step1.spec_height(),
        r.well_sized(),
        forall|q: int, rr: int|
            0 <= q < step1.spec_width() && 0 <= rr < step1.spec_height() && !step1.interior(q, rr)
                ==> #[trigger] r.at(q, rr) == border,
        forall|q: int, rr: int|
            step1.interior(q, rr) ==> #[trigger] r.at(q, rr) == transact_spec(
                rule,
                cells_of(step1.nh_at(q, rr)),
                decisions_of(step1.nh_at(q, rr)),
            ),
{
    let w = step1.width();
    let h = step1.height();
    let mut result = AxialTile::new(w, h, border);
    proof {
        assert forall|q: int, rr: int| 0 <= q < w && 0 <= rr < h implies #[trigger] result.at(q, rr)
            == border by {
            crate::axial_tile::lemma_index_bound(w as int, h as int, q, rr);
        }
    }
    let mut r: i32 = 1;
    while r < h - 1
        invariant
            tile.well_sized(),
            step1.well_sized(),
            w == step1.spec_width(),
            h == step1.spec_height(),
            step1.spec_width() == tile.spec_width(),
            step1.spec_height() == tile.spec_height(),
            forall|q: int, rr: int|
                0 <= q < tile.spec_width() && 0 <= rr < tile.spec_height() && !tile.interior(q, rr)
                    ==> #[trigger] step1.at(q, rr) == (border, Decision::NoTransaction),
            forall|q: int, rr: int|
                tile.interior(q, rr) ==> (#[trigger] step1.at(q, rr)).0 == tile.at(q, rr)
                    && chosen(rule, tile.nh_at(q, rr), step1.at(q, rr).1),
            1 <= r,
            r <= h - 1 || h < 2,
            result.spec_width() == w,
            result.spec_height() == h,
            result.well_sized(),
            forall|q: int, rr: int|
                0 <= q < w && 0 <= rr < h && !(step1.interior(q, rr) && rr < r) ==> #[trigger] result.at(
                    q,
                    rr,
                ) == border,
            forall|q: int, rr: int|
                step1.interior(q, rr) && rr < r ==> #[trigger] result.at(q, rr) == transact_spec(
                    rule,
                    cells_of(step1.nh_at(q, rr)),
                    decisions_of(step1.nh_at(q, rr)),
                ),
        decreases h - r,
    {
        let mut q: i32 = 1;
        while q < w - 1
            invariant
                tile.well_sized(),
                step1.well_sized(),
                w == step1.spec_width(),
                h == step1.spec_height(),
                step1.spec_width() == tile.spec_width(),
                step1.spec_height() == tile.spec_height(),
                forall|q: int, rr: int|
                    0 <= q < tile.spec_width() && 0 <= rr < tile.spec_height() && !tile.interior(q, rr)
                        ==> #[trigger] step1.at(q, rr) == (border, Decision::NoTransaction),
                forall|q: int, rr: int|
                    tile.interior(q, rr) ==> (#[trigger] step1.at(q, rr)).0 == tile.at(q, rr)
                        && chosen(rule, tile.nh_at(q, rr), step1.at(q, rr).1),
                1 <= r < h - 1,
                1 <= q,
                q <= w - 1 || w < 2,
                result.spec_width() == w,
                result.spec_height() == h,
                result.well_sized(),
                forall|qq: int, rr: int|
                    0 <= qq < w && 0 <= rr < h && !(step1.interior(qq, rr) && (rr < r || (rr == r
                        && qq < q))) ==> #[trigger] result.at(qq, rr) == border,
                forall|qq: int, rr: int|
                    step1.interior(qq, rr) && (rr < r || (rr == r && qq < q)) ==> #[trigger] result.at(
                        qq,
                        rr,
                    ) == transact_spec(
                        rule,
                        cells_of(step1.nh_at(qq, rr)),
                        decisions_of(step1.nh_at(qq, rr)),
                    ),
            decreases w - q,
        {
            proof {
                crate::axial_tile::lemma_dims(w as int, h as int, 0);
            }
            let pos = Cube { x: q, y: -q - r };
            let nh = step1.neighbourhood(pos).unwrap();
            let tnh = tile.neighbourhood(pos).unwrap();
            proof {
                step1.lemma_nh_unique(q as int, r as int, nh);
                tile.lemma_nh_unique(q as int, r as int, tnh);
            }
            let cells = split_cells(nh);
            let decisions = split_decisions(nh);
            proof {
                lemma_ready(rule, tile, step1, border, q as int, r as int, nh, tnh, cells, decisions);
            }
            let v = step2(rule, cells, decisions);
            let ghost old_result = result;
            result.set_cell(pos, v);
            proof {
                crate::axial_tile::lemma_set_cell_at(old_result, result, q as int, r as int, v);
            }
            q = q + 1;
        }
        r = r + 1;
    }
    result
}

proof fn lemma_ready<R: TransactionalCaRule>(
    rule: &R,
    tile: &AxialTile<R::Cell>,
    step1: &AxialTile<(R::Cell, Decision)>,
    border: R::Cell,
    q: int,
    r: int,
    nh: Neighbourhood<(R::Cell, Decision)>,
    tnh: Neighbourhood<R::Cell>,
    cells: Neighbourhood<R::Cell>,
    decisions: Neighbourhood<Decision>,
)
    requires
        tile.interior(q, r),
        step1.spec_width() == tile.spec_width(),
        step1.spec_height() == tile.spec_height(),
        forall|q: int, rr: int|
            0 <= q < tile.spec_width() && 0 <= rr < tile.spec_height() && !tile.interior(q, rr) ==> #[trigger] step1.at(
                q,
                rr,
            ) == (border, Decision::NoTransaction),
        forall|q: int, rr: int|
            tile.interior(q, rr) ==> (#[trigger] step1.at(q, rr)).0 == tile.at(q, rr) && chosen(
                rule,
                tile.nh_at(q, rr),
                step1.at(q, rr).1,
            ),
        step1.is_neighbourhood(q, r, nh),
        tile.is_neighbourhood(q, r, tnh),
        tile.nh_at(q, r) == tnh,
        cells == cells_of(nh),
        decisions == decisions_of(nh),
        cells.center == nh.center.0,
        decisions.center == nh.center.1,
        forall|i: int| 0 <= i < 6 ==> #[trigger] cells.neighbours@[i] == nh.neighbours@[i].0,
        forall|i: int| 0 <= i < 6 ==> #[trigger] decisions.neighbours@[i] == nh.neighbours@[i].1,
    ensures
        decision_ready(rule, cells, decisions),
{
    let d = step1.at(q, r).1;
    assert(decisions.center == d);
    match d {
        Decision::NoTransaction => {},
        Decision::Source(dir) | Decision::Target(dir) => {
            let i = dir.idx();
            let qq = q + dir.dx();
            let rr = r + dz(dir);
            assert(Direction::from_idx(i) == dir);
            assert(nh.neighbours@[i] == step1.at(qq, rr));
            assert(tnh.neighbours@[i] == tile.at(qq, rr));
            if decisions.neighbours@[i] == d.inverted() {
                if !tile.interior(qq, rr) {
                    assert(step1.at(qq, rr) == (border, Decision::NoTransaction));
                } else {
                    assert(step1.at(qq, rr).0 == tile.at(qq, rr));
                    assert(cells.neighbours@[i] == tnh.neighbours@[i]);
                    assert(cells.center == tnh.center);
                    assert(chosen(rule, tnh, d));
                }
            }
        },
    }
}

/// The cells of a neighbourhood of (cell, decision) pairs.
pub open spec fn cells_of<C: Copy>(nh: Neighbourhood<(C, Decision)>) -> Neighbourhood<C> {
    choose|n: Neighbourhood<C>|
        n.center == nh.center.0 && forall|i: int| 0 <= i < 6 ==> #[trigger] n.neighbours@[i]
            == nh.neighbours@[i].0
}

/// The decisions of a neighbourhood of (cell, decision) pairs.
pub open spec fn decisions_of<C: Copy>(nh: Neighbourhood<(C, Decision)>) -> Neighbourhood<Decision> {
    choose|n: Neighbourhood<Decision>|
        n.center == nh.center.1 && forall|i: int| 0 <= i < 6 ==> #[trigger] n.neighbours@[i]
            == nh.neighbours@[i].1
}

fn split_cells<C: Copy>(nh: Neighbourhood<(C, Decision)>) -> (r: Neighbourhood<C>)
    ensures
        r == cells_of(nh),
        r.center == nh.center.0,
        forall|i: int| 0 <= i < 6 ==> #[trigger] r.neighbours@[i] == nh.neighbours@[i].0,
{
    broadcast use vstd::array::group_array_axioms;

    let r = Neighbourhood {
        center: nh.center.0,
        neighbours: [
            nh.neighbours[0].0,
            nh.neighbours[1].0,
            nh.neighbours[2].0,
            nh.neighbours[3].0,
            nh.neighbours[4].0,
            nh.neighbours[5].0,
        ],
    };
    proof {
        let m = cells_of(nh);
        assert(r.center == nh.center.0 && forall|i: int|
            0 <= i < 6 ==> #[trigger] r.neighbours@[i] == nh.neighbours@[i].0);
        assert forall|i: int| 0 <= i < 6 implies m.neighbours[i] == r.neighbours[i] by {
            assert(m.neighbours@[i] == nh.neighbours@[i].0);
        }
        assert(m.neighbours =~= r.neighbours);
    }
    r
}

fn split_decisions<C: Copy>(nh: Neighbourhood<(C, Decision)>) -> (r: Neighbourhood<Decision>)
    ensures
        r == decisions_of(nh),
        r.center == nh.center.1,
        forall|i: int| 0 <= i < 6 ==> #[trigger] r.neighbours@[i] == nh.neighbours@[i].1,
{
    broadcast use vstd::array::group_array_axioms;

    let r = Neighbourhood {
        center: nh.center.1,
        neighbours: [
            nh.neighbours[0].1,
            nh.neighbours[1].1,
            nh.neighbours[2].1,
            nh.neighbours[3].1,
            nh.neighbours[4].1,
            nh.neighbours[5].1,
        ],
    };
    proof {
        let m = decisions_of(nh);
        assert(r.center == nh.center.1 && forall|i: int|
            0 <= i < 6 ==> #[trigger] r.neighbours@[i] == nh.neighbours@[i].1);
        assert forall|i: int| 0 <= i < 6 implies m.neighbours[i] == r.neighbours[i] by {
            assert(m.neighbours@[i] == nh.neighbours@[i].1);
        }
        assert(m.neighbours =~= r.neighbours);
    }
    r
}

} // verus!
