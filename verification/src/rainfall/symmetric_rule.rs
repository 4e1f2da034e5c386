//! Mass transfer between neighbouring plant cells, the same rule in every direction.
use vstd::prelude::*;

use crate::bit_particles::{bit, resting_bits, swap_bits_spec, BitParticles};
use crate::coords::{mirror_set, swap_set, Angle, Direction, DirectionSet, Neighbourhood};
use crate::probabilities::Prob15;
use crate::rng::{random_u8, u16_draw, u8_draw, SimRng};
use crate::probabilities::sample15;

verus! {

/// The parameters of the mass transfer rule of one plant type.
#[derive(Clone, Copy)]
pub struct SymmetricRule {
    /// Migration needs a resting particle at the source (blob-sticks-together behaviour).
    pub migration_requires_src_full: bool,
    /// Migration needs a target without resting particles.
    pub migration_requires_dst_empty: bool,
    pub prob_shuffle: Prob15,
    pub prob_turn: Prob15,
    pub prob_reflect_in: Prob15,
    pub prob_reflect_out: Prob15,
}

impl SymmetricRule {
    /// Whether a particle may move from a cell with `src_resting` resting
    /// particles to one with `dst_resting`.
    pub open spec fn allowed(self, src_resting: int, dst_resting: int) -> bool {
        if self.migration_requires_src_full && src_resting == 0 {
            false
        } else if self.migration_requires_dst_empty && dst_resting != 0 {
            false
        } else {
            true
        }
    }

    /// Whether the center holds a particle moving towards `dir` after the
    /// transfer with the neighbour `neigh` there (`None` where the neighbour
    /// takes no part in transfers).
    pub open spec fn transfer_bit(self, center: BitParticles, neigh: Option<BitParticles>, dir: Direction) -> bool {
        let has_outgoing = center.outgoing_set().contains(dir);
        match neigh {
            Some(n) => {
                let has_incoming = n.outgoing_set().contains(dir.opposite());
                if has_outgoing && !has_incoming {
                    // the particle stays where moving out is not allowed
                    !self.allowed(center.resting_count(), n.resting_count())
                } else if !has_outgoing && has_incoming {
                    // the particle arrives where moving in is allowed
                    self.allowed(n.resting_count(), center.resting_count())
                } else {
                    // no transfer
                    has_outgoing
                }
            },
            None => has_outgoing,
        }
    }

    /// Step 1: exchange moving particles with the neighbours. Each moving
    /// particle of the center moves to the neighbour it points to, and each
    /// particle of a neighbour pointing to the center moves in, where allowed;
    /// a slot that both cells fill keeps both.
    pub fn step1_transfer(&self, nh: Neighbourhood<Option<BitParticles>>) -> (r: BitParticles)
        requires
            nh.center is Some,
        ensures
            r.resting_count() == nh.center->0.resting_count(),
            r.value() & 192u8 == resting_bits(nh.center->0.resting_count() as u8),
            forall|d: Direction|
                #[trigger] r.outgoing_set().contains(d) == self.transfer_bit(
                    nh.center->0,
                    nh.neighbours@[d.idx()],
                    d,
                ),
    {
        let center = nh.center.unwrap();
        let outgoing = center.outgoing();
        let mut next = DirectionSet::none();
        let mut i: usize = 0;
        while i < 6
            invariant
                0 <= i <= 6,
                nh.center == Some(center),
                outgoing@ == center.outgoing_set(),
                forall|d: Direction|
                    #[trigger] next@.contains(d) == (d.idx() < i && self.transfer_bit(
                        center,
                        nh.neighbours@[d.idx()],
                        d,
                    )),
            decreases 6 - i,
        {
            let dir = Direction::from_index(i);
            let has_outgoing = outgoing.contains(dir);
            let keep = match nh.neighbours[i] {
                Some(neigh) => {
                    let has_incoming = neigh.outgoing().contains(dir.neg());
                    if has_outgoing && !has_incoming {
                        !self.outgoing_allowed(center.resting(), neigh.resting())
                    } else if !has_outgoing && has_incoming {
                        self.outgoing_allowed(neigh.resting(), center.resting())
                    } else {
                        has_outgoing
                    }
                },
                None => has_outgoing,
            };
            next = next.with(dir, keep);
            i = i + 1;
        }
        proof {
            lemma_resting_at_most_two(center);
        }
        BitParticles::new(next, center.resting())
    }

    /// Whether a particle may move from a cell with `src_resting` resting
    /// particles to one with `dst_resting`.
    pub fn outgoing_allowed(&self, src_resting: u8, dst_resting: u8) -> (r: bool)
        ensures
            r == self.allowed(src_resting as int, dst_resting as int),
    {
        if self.migration_requires_src_full && src_resting == 0 {
            false
        } else if self.migration_requires_dst_empty && dst_resting != 0 {
            false
        } else {
            true
        }
    }

    /// Step 2: random changes of direction, each with its own probability:
    /// reflect all, exchange two random bits, turn one pair of directions,
    /// reflect all again. The number of particles stays the same.
    pub fn step2_shuffle(&self, particles: &mut BitParticles, rng: &mut SimRng)
        ensures
            final(particles).particle_count() == old(particles).particle_count(),
            self.shuffled(*old(particles), *final(particles)),
            shuffle2_result(
                *old(particles),
                self.shuffle2_draws(*old(rng)).0,
                self.shuffle2_draws(*old(rng)).1,
                self.shuffle2_draws(*old(rng)).2,
                self.shuffle2_draws(*old(rng)).3,
                *final(particles),
            ),
            *final(rng) == self.shuffle2_draws(*old(rng)).4,
    {
        let ghost p0 = *particles;
        let reflect_in = self.prob_reflect_in.sample(rng);
        if reflect_in {
            particles.reflect_all();
        }
        let ghost p1 = *particles;
        let ghost mut shuffle: Option<u8> = None;
        if self.prob_shuffle.sample(rng) {
            particles.shuffle8_cheap(rng);
            proof {
                let rnd = choose|rnd: u8|
                    particles.value() == swap_bits_spec(p1.value(), rnd & 7u8, (rnd >> 4u8) & 7u8);
                shuffle = Some(rnd);
            }
        }
        let ghost p2 = *particles;
        let ghost mut turn: Option<Direction> = None;
        if self.prob_turn.sample(rng) {
            let rnd = random_u8(rng);
            if let Some(dir) = Direction::try_from_int(rnd as i32) {
                let turned = particles.outgoing().swapped(dir, dir.add_angle(Angle::Right));
                particles.set_outgoing(turned);
                proof {
                    turn = Some(dir);
                    crate::coords::lemma_swap_involution(p2.outgoing_set(), dir, dir.turned(Angle::Right));
                    crate::bit_particles::lemma_count_split(p2);
                    crate::bit_particles::lemma_count_split(*particles);
                }
            }
        }
        let ghost p3 = *particles;
        let reflect_out = self.prob_reflect_out.sample(rng);
        if reflect_out {
            particles.reflect_all();
        }
        proof {
            assert(reflect_step(reflect_in, p0, p1));
            assert(shuffle_step(shuffle, p1, p2));
            assert(turn_step(turn, p2, p3));
            assert(reflect_step(reflect_out, p3, *particles));
            assert(shuffle2_result(p0, reflect_in, shuffle, turn, reflect_out, *particles));
        }
    }
}

impl SymmetricRule {
    /// The outcomes of the random events of step 2 from the generator in
    /// state `rng`, in the order they are drawn, and the generator's next
    /// state: whether to reflect (a 16-bit draw against `prob_reflect_in`);
    /// whether to exchange two bits (against `prob_shuffle`), and then the
    /// byte that picks them; whether to turn (against `prob_turn`), and then
    /// the byte that picks the direction (none from 6 on); whether to reflect
    /// again (against `prob_reflect_out`).
    pub open spec fn shuffle2_draws(self, rng: SimRng) -> (bool, Option<u8>, Option<Direction>, bool, SimRng) {
        let a = u16_draw(rng);
        let reflect_in = sample15(self.prob_reflect_in.value() as u16, a.0);
        let b = u16_draw(a.1);
        let c = u8_draw(b.1);
        let shuffle_on = sample15(self.prob_shuffle.value() as u16, b.0);
        let shuffle = if shuffle_on {
            Some(c.0)
        } else {
            None
        };
        let r3 = if shuffle_on {
            c.1
        } else {
            b.1
        };
        let d = u16_draw(r3);
        let e = u8_draw(d.1);
        let turn_on = sample15(self.prob_turn.value() as u16, d.0);
        let turn = if turn_on && e.0 < 6 {
            Some(Direction::from_idx(e.0 as int))
        } else {
            None
        };
        let r5 = if turn_on {
            e.1
        } else {
            d.1
        };
        let f = u16_draw(r5);
        (reflect_in, shuffle, turn, sample15(self.prob_reflect_out.value() as u16, f.0), f.1)
    }

    /// Whether step 2 may turn `before` into `after`: for some outcomes of
    /// the random events (`shuffle2_result`), where an event of probability
    /// zero never happens and one of probability one always does (the turn
    /// also needs its random direction to exist).
    pub open spec fn shuffled(self, before: BitParticles, after: BitParticles) -> bool {
        exists|reflect_in: bool, shuffle: Option<u8>, turn: Option<Direction>, reflect_out: bool|
            #[trigger] shuffle2_result(before, reflect_in, shuffle, turn, reflect_out, after)
                && (self.prob_reflect_in.value() == 0 ==> !reflect_in)
                && (self.prob_reflect_in.value() == 32768 ==> reflect_in)
                && (self.prob_shuffle.value() == 0 ==> shuffle is None)
                && (self.prob_shuffle.value() == 32768 ==> shuffle is Some)
                && (self.prob_turn.value() == 0 ==> turn is None)
                && (self.prob_reflect_out.value() == 0 ==> !reflect_out)
                && (self.prob_reflect_out.value() == 32768 ==> reflect_out)
    }
}

/// Whether `after` is `before` with its moving particles reflected (where
/// `reflect` holds) or unchanged.
pub open spec fn reflect_step(reflect: bool, before: BitParticles, after: BitParticles) -> bool {
    if reflect {
        &&& after.outgoing_set() == mirror_set(before.outgoing_set())
        &&& bit(after.value(), 6) == bit(before.value(), 6)
        &&& bit(after.value(), 7) == bit(before.value(), 7)
    } else {
        after == before
    }
}

/// Whether `after` is `before` with the two bits that `shuffle` picks
/// exchanged, or unchanged where there is no exchange.
pub open spec fn shuffle_step(shuffle: Option<u8>, before: BitParticles, after: BitParticles) -> bool {
    match shuffle {
        Some(rnd) => after.value() == swap_bits_spec(before.value(), rnd & 7u8, (rnd >> 4u8) & 7u8),
        None => after == before,
    }
}

/// Whether `after` is `before` with the moving particles of the direction
/// `turn` and of the next one clockwise exchanged, or unchanged where there
/// is no turn.
pub open spec fn turn_step(turn: Option<Direction>, before: BitParticles, after: BitParticles) -> bool {
    match turn {
        Some(d) => {
            &&& after.outgoing_set() == swap_set(before.outgoing_set(), d, d.turned(Angle::Right))
            &&& bit(after.value(), 6) == bit(before.value(), 6)
            &&& bit(after.value(), 7) == bit(before.value(), 7)
        },
        None => after == before,
    }
}

/// Whether `after` is what step 2 makes of `before` with the given random
/// outcomes: reflect, exchange two bits, turn a pair of directions, reflect.
pub open spec fn shuffle2_result(
    before: BitParticles,
    reflect_in: bool,
    shuffle: Option<u8>,
    turn: Option<Direction>,
    reflect_out: bool,
    after: BitParticles,
) -> bool {
    exists|p1: BitParticles, p2: BitParticles, p3: BitParticles|
        #![trigger reflect_step(reflect_in, before, p1), turn_step(turn, p2, p3)]
        reflect_step(reflect_in, before, p1) && shuffle_step(shuffle, p1, p2) && turn_step(turn, p2, p3)
            && reflect_step(reflect_out, p3, after)
}

/// Step 2 has one outcome for given outcomes of its random events.
pub proof fn lemma_shuffle2_unique(
    before: BitParticles,
    reflect_in: bool,
    shuffle: Option<u8>,
    turn: Option<Direction>,
    reflect_out: bool,
    a1: BitParticles,
    a2: BitParticles,
)
    requires
        shuffle2_result(before, reflect_in, shuffle, turn, reflect_out, a1),
        shuffle2_result(before, reflect_in, shuffle, turn, reflect_out, a2),
    ensures
        a1 == a2,
{
    let (p1, p2, p3) = choose|p1: BitParticles, p2: BitParticles, p3: BitParticles|
        #![trigger reflect_step(reflect_in, before, p1), turn_step(turn, p2, p3)]
        reflect_step(reflect_in, before, p1) && shuffle_step(shuffle, p1, p2) && turn_step(turn, p2, p3)
            && reflect_step(reflect_out, p3, a1);
    let (q1, q2, q3) = choose|p1: BitParticles, p2: BitParticles, p3: BitParticles|
        #![trigger reflect_step(reflect_in, before, p1), turn_step(turn, p2, p3)]
        reflect_step(reflect_in, before, p1) && shuffle_step(shuffle, p1, p2) && turn_step(turn, p2, p3)
            && reflect_step(reflect_out, p3, a2);
    if reflect_in {
        crate::bit_particles::lemma_value_from_parts(p1.value(), q1.value());
    }
    assert(p1 == q1);
    assert(p2.value() == q2.value());
    assert(p2 == q2);
    if turn is Some {
        crate::bit_particles::lemma_value_from_parts(p3.value(), q3.value());
    }
    assert(p3 == q3);
    if reflect_out {
        crate::bit_particles::lemma_value_from_parts(a1.value(), a2.value());
    }
}

proof fn lemma_resting_at_most_two(p: BitParticles)
    ensures
        p.resting_count() <= 2,
{
    crate::bit_particles::lemma_count_split(p);
}

/// The transfer conserves particles: between two cells that take part in
/// transfers with each other, the particles in the two slots facing each
/// other before the transfer are as many as after it.
pub proof fn lemma_transfer_conserves(rule: SymmetricRule, a: BitParticles, b: BitParticles, d: Direction)
    ensures
        (if rule.transfer_bit(a, Some(b), d) { 1int } else { 0 }) + (if rule.transfer_bit(
            b,
            Some(a),
            d.opposite(),
        ) {
            1int
        } else {
            0
        }) == (if a.outgoing_set().contains(d) { 1int } else { 0 }) + (if b.outgoing_set().contains(
            d.opposite(),
        ) {
            1int
        } else {
            0
        }),
{
    crate::coords::lemma_opposite_involution(d);
}

} // verus!
