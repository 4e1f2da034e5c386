//! Random updates of independent pairs of neighbouring cells.
use vstd::prelude::*;

use crate::axial_tile::{dz, pos_drawn, AxialTile};
use crate::coords::{Direction, Neighbourhood};
use crate::rng::{choose_from, index_draw, SimRng};

verus! {

/// A rule that updates a pair of neighbouring cells together.
pub trait PairRule {
    type Cell: Copy + Eq;

    /// Whether `out` holds new values for the centers of `source` and
    /// `target` (the neighbour in `direction`) that the rule allows.
    spec fn pair_gives(
        &self,
        source: Neighbourhood<Self::Cell>,
        target: Neighbourhood<Self::Cell>,
        direction: Direction,
        out: (Self::Cell, Self::Cell),
    ) -> bool;

    fn pair_rule(
        &self,
        source: Neighbourhood<Self::Cell>,
        target: Neighbourhood<Self::Cell>,
        direction: Direction,
    ) -> (r: (Self::Cell, Self::Cell))
        ensures
            self.pair_gives(source, target, direction, r),
    ;
}

/// Whether two tiles hold the same cells in the same shape.
pub open spec fn same_tile<C: Copy>(a: AxialTile<C>, b: AxialTile<C>) -> bool {
    &&& a.spec_width() == b.spec_width()
    &&& a.spec_height() == b.spec_height()
    &&& a@ == b@
}

/// Whether `after` is `before` with the pair at the interior positions
/// (`sq`, `sr`) and its neighbour in direction `d` updated to `out`, values
/// that the rule allows for their neighbourhoods; every other cell kept.
pub open spec fn pair_updated<R: PairRule>(
    rule: &R,
    before: AxialTile<R::Cell>,
    after: AxialTile<R::Cell>,
    sq: int,
    sr: int,
    d: Direction,
    out: (R::Cell, R::Cell),
) -> bool {
    let tq = sq + d.dx();
    let tr = sr + dz(d);
    &&& before.interior(sq, sr)
    &&& before.interior(tq, tr)
    &&& rule.pair_gives(before.nh_at(sq, sr), before.nh_at(tq, tr), d, out)
    &&& after.well_sized()
    &&& after.spec_width() == before.spec_width()
    &&& after.spec_height() == before.spec_height()
    &&& after.at(sq, sr) == out.0
    &&& after.at(tq, tr) == out.1
    &&& forall|q: int, r: int|
        0 <= q < before.spec_width() && 0 <= r < before.spec_height() && !(q == sq && r == sr) && !(q == tq
            && r == tr) ==> #[trigger] after.at(q, r) == before.at(q, r)
}

/// Whether `after` is what one attempt makes of `before`: the same tile, or
/// one pair updated (`pair_updated`).
pub open spec fn pair_step<R: PairRule>(rule: &R, before: AxialTile<R::Cell>, after: AxialTile<R::Cell>) -> bool {
    ||| same_tile(before, after)
    ||| exists|sq: int, sr: int, d: Direction, out: (R::Cell, R::Cell)|
        #[trigger] pair_updated(rule, before, after, sq, sr, d, out)
}

/// Whether the tiles `ts` are the attempts, one after the other, that lead
/// from `before` to `after`: `ts` starts with `before`'s cells and ends with
/// `after`, and each tile is what one attempt makes of the one before it.
pub open spec fn pair_trace<R: PairRule>(
    rule: &R,
    before: AxialTile<R::Cell>,
    after: AxialTile<R::Cell>,
    ts: Seq<AxialTile<R::Cell>>,
) -> bool {
    &&& ts.len() >= 1
    &&& same_tile(before, ts[0])
    &&& ts.last() == after
    &&& forall|i: int| 0 <= i < ts.len() - 1 ==> #[trigger] pair_step(rule, ts[i], ts[i + 1])
}

/// Whether `after`, with the generator in state `g2`, is what one attempt
/// makes of `before` from the generator in state `g`: the attempt draws the
/// source position (`pos_drawn`), then the direction of the target
/// (`index_draw` among the six, clockwise from north-west); where both cells
/// are interior the pair may be updated (`pair_updated`, or left where one
/// of them is the border value), otherwise the tile stays.
pub open spec fn pair_attempt_drawn<R: PairRule>(
    rule: &R,
    before: AxialTile<R::Cell>,
    after: AxialTile<R::Cell>,
    g: SimRng,
    g2: SimRng,
) -> bool {
    let p = pos_drawn(g, before.spec_width() as i32, before.spec_height() as i32);
    let dd = index_draw(p.1, 6);
    let d = Direction::from_idx(dd.0 as int);
    let sq = p.0.x as int;
    let sr = p.0.spec_z();
    &&& g2 == dd.1
    &&& if before.interior(sq, sr) && before.interior(sq + d.dx(), sr + dz(d)) {
        same_tile(before, after) || exists|out: (R::Cell, R::Cell)|
            #[trigger] pair_updated(rule, before, after, sq, sr, d, out)
    } else {
        same_tile(before, after)
    }
}

/// Whether the generator states `gs` go with the attempts `ts`: the first
/// is `rng`, the last `rng2`, and each attempt draws from one to the next.
pub open spec fn pair_draws<R: PairRule>(
    rule: &R,
    ts: Seq<AxialTile<R::Cell>>,
    gs: Seq<SimRng>,
    rng: SimRng,
    rng2: SimRng,
) -> bool {
    &&& gs.len() == ts.len()
    &&& gs.len() >= 1
    &&& gs[0] == rng
    &&& gs.last() == rng2
    &&& forall|i: int| 0 <= i < ts.len() - 1 ==> #[trigger] pair_attempt_drawn(rule, ts[i], ts[i + 1], gs[i], gs[i + 1])
}

/// Apply `rule` to `area / 16` random pairs of neighbouring cells, one after
/// the other; a pair is skipped where one of its cells lies at the edge of
/// the storage or is `border`. The cells at the edge are never changed.
pub fn step_axial<R: PairRule>(tile: &AxialTile<R::Cell>, border: R::Cell, rule: &R, rng: &mut SimRng) -> (r:
    AxialTile<R::Cell>)
    requires
        tile.well_sized(),
    ensures
        r.well_sized(),
        r.spec_width() == tile.spec_width(),
        r.spec_height() == tile.spec_height(),
        forall|q: int, rr: int|
            0 <= q < tile.spec_width() && 0 <= rr < tile.spec_height() && !tile.interior(q, rr)
                ==> #[trigger] r.at(q, rr) == tile.at(q, rr),
        exists|ts: Seq<AxialTile<R::Cell>>|
            ts.len() == tile@.len() / 16 + 1 && #[trigger] pair_trace(rule, *tile, r, ts) && exists|
                gs: Seq<SimRng>,
            | pair_draws(rule, ts, gs, *old(rng), *final(rng)),
{
    let ghost rng0 = *rng;
    let ghost mut gs: Seq<SimRng> = seq![*rng];
    let ghost given = *tile;
    let mut tile = tile.duplicate();
    let ghost orig = tile;
    let ghost mut trace: Seq<AxialTile<R::Cell>> = seq![tile];
    let steps = tile.area() / 16;
    let dirs = Direction::all();
    let dir_vec = vec![dirs[0], dirs[1], dirs[2], dirs[3], dirs[4], dirs[5]];
    let mut k: i32 = 0;
    while k < steps
        invariant
            tile.well_sized(),
            orig.well_sized(),
            tile.spec_width() == orig.spec_width(),
            tile.spec_height() == orig.spec_height(),
            dir_vec@.len() == 6,
            forall|q: int, rr: int|
                0 <= q < orig.spec_width() && 0 <= rr < orig.spec_height() && !orig.interior(q, rr)
                    ==> #[trigger] tile.at(q, rr) == orig.at(q, rr),
            same_tile(given, orig),
            0 <= k <= steps,
            steps == orig@.len() / 16,
            trace.len() == k + 1,
            pair_trace(rule, given, tile, trace),
            forall|j: int| 0 <= j < 6 ==> #[trigger] dir_vec@[j] == Direction::from_idx(j),
            pair_draws(rule, trace, gs, rng0, *rng),
        decreases steps - k,
    {
        let ghost g_before = *rng;
        let ghost prev_gs = gs;
        let source_pos = tile.random_pos(rng);
        let direction = match choose_from(rng, &dir_vec) {
            Some(d) => d,
            None => {
                proof {
                    let prev = trace;
                    trace = trace.push(tile);
                    assert(pair_step(rule, tile, tile));
                    assert forall|i: int| 0 <= i < trace.len() - 1 implies #[trigger] pair_step(rule, trace[i], trace[i + 1]) by {
                        if i < prev.len() - 1 {
                            assert(trace[i] == prev[i] && trace[i + 1] == prev[i + 1]);
                        }
                    }
                }
                k = k + 1;
                continue;
            },
        };
        let ghost start = tile;
        proof {
            crate::axial_tile::lemma_dims(tile.spec_width(), tile.spec_height(), 0);
        }
        let target_pos = source_pos.add_direction(direction);
        let source = tile.neighbourhood(source_pos);
        let target = tile.neighbourhood(target_pos);
        match (source, target) {
            (Some(source), Some(target)) => {
                if !(source.center == border || target.center == border) {
                    let (s, t) = rule.pair_rule(source, target, direction);
                    let ghost before = tile;
                    tile.set_cell(source_pos, s);
                    let ghost mid = tile;
                    tile.set_cell(target_pos, t);
                    proof {
                        crate::axial_tile::lemma_set_cell_at(
                            before,
                            mid,
                            source_pos.x as int,
                            source_pos.spec_z(),
                            s,
                        );
                        crate::axial_tile::lemma_set_cell_at(
                            mid,
                            tile,
                            target_pos.x as int,
                            target_pos.spec_z(),
                            t,
                        );
                        start.lemma_nh_unique(source_pos.x as int, source_pos.spec_z(), source);
                        start.lemma_nh_unique(target_pos.x as int, target_pos.spec_z(), target);
                        assert(pair_updated(
                            rule,
                            start,
                            tile,
                            source_pos.x as int,
                            source_pos.spec_z(),
                            direction,
                            (s, t),
                        ));
                    }
                }
            },
            _ => {},
        }
        proof {
            assert(pair_step(rule, start, tile));
            assert(pair_attempt_drawn(rule, start, tile, g_before, *rng));
            gs = gs.push(*rng);
            let prev = trace;
            trace = trace.push(tile);
            assert forall|i: int| 0 <= i < trace.len() - 1 implies #[trigger] pair_attempt_drawn(
                rule,
                trace[i],
                trace[i + 1],
                gs[i],
                gs[i + 1],
            ) by {
                if i < prev.len() - 1 {
                    assert(trace[i] == prev[i] && trace[i + 1] == prev[i + 1]);
                    assert(gs[i] == prev_gs[i] && gs[i + 1] == prev_gs[i + 1]);
                }
            }
            assert forall|i: int| 0 <= i < trace.len() - 1 implies #[trigger] pair_step(rule, trace[i], trace[i + 1]) by {
                if i < prev.len() - 1 {
                    assert(trace[i] == prev[i] && trace[i + 1] == prev[i + 1]);
                }
            }
        }
        k = k + 1;
    }
    assert(trace.len() == orig@.len() / 16 + 1);
    tile
}

} // verus!
