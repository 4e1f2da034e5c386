//! Vapour: particles that drift, mostly downwards.
use vstd::prelude::*;

use crate::bit_particles::{bit, swap_bits_spec, BitParticles};
use crate::coords::{mask_set, swap_set, Direction, DirectionSet, Neighbourhood};
use crate::rng::{random_u8, u8_draw, SimRng};

verus! {

/// Vapour moves one step: each cell collects the particles that its
/// neighbours sent towards it, and keeps its resting particles.
pub fn step(nh: Neighbourhood<BitParticles>) -> (r: BitParticles)
    ensures
        r.resting_count() == nh.center.resting_count(),
        bit(r.value(), 6) == bit(nh.center.value(), 6),
        bit(r.value(), 7) == bit(nh.center.value(), 7),
        forall|d: Direction|
            #[trigger] r.outgoing_set().contains(d) == nh.neighbours@[d.opposite().idx()].outgoing_set().contains(d),
{
    BitParticles::ca_step(nh)
}

/// The strong downwards bias of vapour: straight moves down and up are made
/// to zig-zag, then, where `rnd < 250`, moves towards north-east or north-west
/// turn sideways and sideways moves turn down.
pub open spec fn downward_bias(o: Set<Direction>, rnd: u8) -> Set<Direction> {
    let o1 = swap_set(
        swap_set(o, Direction::SouthWest, Direction::SouthEast),
        Direction::NorthWest,
        Direction::NorthEast,
    );
    if rnd < 250 {
        let o2 = if o1.contains(Direction::NorthEast) {
            swap_set(o1, Direction::NorthEast, Direction::East)
        } else if !o1.contains(Direction::SouthEast) {
            swap_set(o1, Direction::SouthEast, Direction::East)
        } else {
            o1
        };
        if o2.contains(Direction::NorthWest) {
            swap_set(o2, Direction::NorthWest, Direction::West)
        } else if !o2.contains(Direction::SouthWest) {
            swap_set(o2, Direction::SouthWest, Direction::West)
        } else {
            o2
        }
    } else {
        o1
    }
}

/// The downwards bias applied to a set of directions, for the random byte `rnd`.
pub fn bias_outgoing(outgoing: DirectionSet, rnd: u8) -> (r: DirectionSet)
    ensures
        r@ == downward_bias(outgoing@, rnd),
{
    let mut o = outgoing;
    o = o.swapped(Direction::SouthWest, Direction::SouthEast);  // straight down (zig-zag)
    o = o.swapped(Direction::NorthWest, Direction::NorthEast);  // straight up
    if rnd < 250 {
        if o.contains(Direction::NorthEast) {
            o = o.swapped(Direction::NorthEast, Direction::East)
        } else if !o.contains(Direction::SouthEast) {
            o = o.swapped(Direction::SouthEast, Direction::East)
        }
        if o.contains(Direction::NorthWest) {
            o = o.swapped(Direction::NorthWest, Direction::West)
        } else if !o.contains(Direction::SouthWest) {
            o = o.swapped(Direction::SouthWest, Direction::West)
        }
    }
    o
}

/// The particles after the resting rule: one resting particle where
/// `rnd_rest < 200`, otherwise a single resting particle evaporates.
pub open spec fn rest_rule(v: u8, rnd_rest: u8) -> u8 {
    if rnd_rest < 200 {
        (v & 63u8) | 64u8
    } else if bit(v, 6) + bit(v, 7) == 1 {
        (v & 63u8) | 0u8
    } else {
        v
    }
}

/// The particles after the optional exchange of two bits picked by `shuffle`.
pub open spec fn shuffle_rule(v: u8, shuffle: Option<u8>) -> u8 {
    match shuffle {
        Some(s) => swap_bits_spec(v, s & 7u8, (s >> 4u8) & 7u8),
        None => v,
    }
}

/// Whether `after` is what the rules of vapour in air make of `before`, for
/// the random draws `rnd_rest`, `shuffle` and `rnd_bias`.
pub open spec fn air_rules_result(before: BitParticles, rnd_rest: u8, shuffle: Option<u8>, rnd_bias: u8, after: BitParticles) -> bool {
    let v = shuffle_rule(rest_rule(before.value(), rnd_rest), shuffle);
    &&& after.outgoing_set() == downward_bias(mask_set(v), rnd_bias)
    &&& bit(after.value(), 6) == bit(v, 6)
    &&& bit(after.value(), 7) == bit(v, 7)
}

/// The rules of vapour in air, for given random draws: condense into one
/// resting particle where `rnd_rest < 200`, else evaporate a single resting
/// particle; exchange two bits where `shuffle` picks them; then drift
/// downwards (`bias_outgoing` with `rnd_bias`).
pub fn apply_air_rules_with(vapour: &mut BitParticles, rnd_rest: u8, shuffle: Option<u8>, rnd_bias: u8)
    ensures
        air_rules_result(*old(vapour), rnd_rest, shuffle, rnd_bias, *final(vapour)),
{
    if rnd_rest < 200 {
        vapour.set_resting(1);
    } else {
        if vapour.resting() == 1 {
            vapour.set_resting(0);
        }
    }
    proof {
        lemma_or_zero(old(vapour).value());
    }
    match shuffle {
        Some(s) => vapour.shuffle8_with(s),
        None => {},
    }
    let o = bias_outgoing(vapour.outgoing(), rnd_bias);
    vapour.set_outgoing(o);
}

proof fn lemma_or_zero(v: u8)
    by (bit_vector)
    ensures
        (v & 63u8) | 0u8 == v & 63u8,
{
}

/// The draws of the rules of vapour in air from the generator in state
/// `rng`: a byte for condensing; a byte that allows an exchange when below
/// 3, and then the byte that picks its two bits; a byte for the drift; and
/// the generator's next state.
pub open spec fn air_draws(rng: SimRng) -> (u8, Option<u8>, u8, SimRng) {
    let a = u8_draw(rng);
    let b = u8_draw(a.1);
    let c = u8_draw(b.1);
    let shuffle = if b.0 < 3 {
        Some(c.0)
    } else {
        None
    };
    let r2 = if b.0 < 3 {
        c.1
    } else {
        b.1
    };
    let d = u8_draw(r2);
    (a.0, shuffle, d.0, d.1)
}

/// The rules of vapour in air, with random draws: condense most of the
/// time, rarely exchange two random bits, then drift downwards.
pub fn apply_air_rules(vapour: &mut BitParticles, rng: &mut SimRng)
    ensures
        exists|rnd_rest: u8, shuffle: Option<u8>, rnd_bias: u8|
            #[trigger] air_rules_result(*old(vapour), rnd_rest, shuffle, rnd_bias, *final(vapour)),
        air_rules_result(
            *old(vapour),
            air_draws(*old(rng)).0,
            air_draws(*old(rng)).1,
            air_draws(*old(rng)).2,
            *final(vapour),
        ),
        *final(rng) == air_draws(*old(rng)).3,
{
    let rnd_rest = random_u8(rng);
    let shuffle = if random_u8(rng) < 3 {
        Some(random_u8(rng))
    } else {
        None
    };
    let rnd_bias = random_u8(rng);
    apply_air_rules_with(vapour, rnd_rest, shuffle, rnd_bias);
}

} // verus!
