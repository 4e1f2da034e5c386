//! Up to eight particles in a hex cell: six moving ones, one per direction
//! (bits 0 to 5), and up to two resting ones (bits 6 and 7).
use vstd::prelude::*;

use crate::coords::{dir_count, has_bit, mask_set, mirror_set, mod6, rotated_set, Direction, DirectionSet, Neighbourhood};
use crate::rng::{random_u32, random_u8, u32_draw, u8_draw, SimRng};

verus! {

/// Bit `i` of `v` as a number.
pub open spec fn bit(v: u8, i: u8) -> u8 {
    (v >> i) & 1u8
}

/// The value `v` after the first `k` of the four exchanges of two bits that
/// `rnd` picks: exchange `j` swaps bit `(rnd >> 8j) & 7` with bit
/// `(rnd >> (8j + 4)) & 7`.
pub open spec fn shuffle4_spec(v: u8, rnd: u32, k: nat) -> u8
    decreases k,
{
    if k == 0 {
        v
    } else {
        let prev = shuffle4_spec(v, rnd, (k - 1) as nat);
        let s = (8 * (k - 1)) as u32;
        swap_bits_spec(prev, ((rnd >> s) as u8) & 7u8, ((rnd >> (s + 4u32)) as u8) & 7u8)
    }
}

/// The direction index (0 to 5) that a random 32-bit value picks: the value
/// scaled to `0..6`.
pub open spec fn scaled6(rnd: u32) -> u8 {
    ((((rnd as u64) * 6u64) as u64) >> 32u64) as u8
}

/// Number of set bits of `v`.
pub open spec fn popcount8(v: u8) -> int {
    bit(v, 0) + bit(v, 1) + bit(v, 2) + bit(v, 3) + bit(v, 4) + bit(v, 5) + bit(v, 6) + bit(v, 7)
}

/// `v` with bits `i` and `j` exchanged.
pub open spec fn swap_bits_spec(v: u8, i: u8, j: u8) -> u8 {
    if bit(v, i) != bit(v, j) {
        v ^ ((1u8 << i) | (1u8 << j))
    } else {
        v
    }
}

/// Exchanging two bits moves each to the other's place, leaves the other
/// bits alone and keeps the number of set bits.
pub proof fn lemma_swap_bits(v: u8, i: u8, j: u8)
    by (bit_vector)
    requires
        i < 8,
        j < 8,
    ensures
        bit(swap_bits_spec(v, i, j), i) == bit(v, j),
        bit(swap_bits_spec(v, i, j), j) == bit(v, i),
        forall|k: u8| k < 8 && k != i && k != j ==> bit(swap_bits_spec(v, i, j), k) == bit(v, k),
        popcount8(swap_bits_spec(v, i, j)) == popcount8(v),
{
}

proof fn lemma_particle_bits(v: u8, o: u8)
    by (bit_vector)
    requires
        o < 64,
    ensures
        ((v & 192u8) | o) & 63u8 == o,
        ((v & 192u8) | o) & 192u8 == v & 192u8,
        forall|k: u8| k < 6 ==> (((((v & 192u8) | o) >> k) & 1u8 == 1u8) == ((o >> k) & 1u8 == 1u8)),
        forall|k: u8| 6 <= k < 8 ==> bit((v & 192u8) | o, k) == bit(v, k),
        (v & 63u8) < 64,
        (v & 63u8) & 192u8 == 0u8,
        forall|k: u8| k < 6 ==> ((((v & 63u8) >> k) & 1u8 == 1u8) == ((v >> k) & 1u8 == 1u8)),
        bit(v & 192u8, 6) + bit(v & 192u8, 7) == bit(v, 6) + bit(v, 7),
{
}

proof fn lemma_resting_bits(v: u8, r: u8)
    by (bit_vector)
    requires
        r == 0u8 || r == 64u8 || r == 192u8,
    ensures
        forall|k: u8| k < 6 ==> bit((v & 63u8) | r, k) == bit(v, k),
        bit((v & 63u8) | r, 6) == bit(r, 6),
        bit((v & 63u8) | r, 7) == bit(r, 7),
        r == 0u8 ==> bit(r, 6) == 0 && bit(r, 7) == 0,
        r == 64u8 ==> bit(r, 6) == 1 && bit(r, 7) == 0,
        r == 192u8 ==> bit(r, 6) == 1 && bit(r, 7) == 1,
{
}

proof fn lemma_count_expr(v: u8)
    by (bit_vector)
    ensures
        (v & 1u8) + ((v >> 1u8) & 1u8) + ((v >> 2u8) & 1u8) + ((v >> 3u8) & 1u8) + ((v >> 4u8)
            & 1u8) + ((v >> 5u8) & 1u8) + ((v >> 6u8) & 1u8) + ((v >> 7u8) & 1u8) == popcount8(v),
        popcount8(v) <= 8,
        ((v & 192u8) >> 6u8) & 1u8 == bit(v, 6),
        ((v & 192u8) >> 7u8) & 1u8 == bit(v, 7),
{
}

/// The bits 6 and 7 that stand for `resting` resting particles.
pub open spec fn resting_bits(resting: u8) -> u8 {
    if resting == 0 {
        0u8
    } else if resting == 1 {
        64u8
    } else {
        192u8
    }
}

proof fn lemma_bits01(v: u8)
    by (bit_vector)
    ensures
        bit(v, 0) <= 1 && bit(v, 1) <= 1 && bit(v, 2) <= 1 && bit(v, 3) <= 1,
        bit(v, 4) <= 1 && bit(v, 5) <= 1 && bit(v, 6) <= 1 && bit(v, 7) <= 1,
        has_bit(v, 0) == (bit(v, 0) == 1) && has_bit(v, 1) == (bit(v, 1) == 1),
        has_bit(v, 2) == (bit(v, 2) == 1) && has_bit(v, 3) == (bit(v, 3) == 1),
        has_bit(v, 4) == (bit(v, 4) == 1) && has_bit(v, 5) == (bit(v, 5) == 1),
{
}

/// The particles are the moving ones and the resting ones.
pub proof fn lemma_count_split(p: BitParticles)
    ensures
        p.particle_count() == dir_count(p.outgoing_set()) + p.resting_count(),
        p.resting_count() <= 2,
        dir_count(p.outgoing_set()) <= 6,
{
    lemma_bits01(p.value());
    let s = p.outgoing_set();
    assert(s.contains(Direction::NorthWest) == has_bit(p.value(), 0));
    assert(s.contains(Direction::NorthEast) == has_bit(p.value(), 1));
    assert(s.contains(Direction::East) == has_bit(p.value(), 2));
    assert(s.contains(Direction::SouthEast) == has_bit(p.value(), 3));
    assert(s.contains(Direction::SouthWest) == has_bit(p.value(), 4));
    assert(s.contains(Direction::West) == has_bit(p.value(), 5));
}

/// Reflecting the moving particles keeps their number.
pub proof fn lemma_reflect_keeps_count(a: BitParticles, b: BitParticles)
    requires
        b.outgoing_set() == mirror_set(a.outgoing_set()),
        b.resting_count() == a.resting_count(),
    ensures
        b.particle_count() == a.particle_count(),
{
    crate::coords::lemma_mirror_count(a.outgoing_set());
    lemma_count_split(a);
    lemma_count_split(b);
}

/// The particles of a hex cell, one bit each.
#[derive(Clone, Copy, PartialEq, Eq, Debug, Structural)]
pub struct BitParticles(pub u8);

impl BitParticles {
    /// All eight bits.
    pub open spec fn value(self) -> u8 {
        self.0
    }

    /// The directions of the moving particles.
    pub open spec fn outgoing_set(self) -> Set<Direction> {
        mask_set(self.value())
    }

    /// Number of resting particles.
    pub open spec fn resting_count(self) -> int {
        bit(self.value(), 6) + bit(self.value(), 7)
    }

    /// Number of particles.
    pub open spec fn particle_count(self) -> int {
        popcount8(self.value())
    }

    pub fn empty() -> (r: Self)
        ensures
            r.value() == 0,
            r.outgoing_set() == Set::<Direction>::empty(),
            r.resting_count() == 0,
    {
        let r = BitParticles(0b00000000);
        proof {
            assert forall|d: Direction| !r.outgoing_set().contains(d) by {
                lemma_zero_bit(d.idx() as u8);
            }
            assert(r.outgoing_set() =~= Set::<Direction>::empty());
            lemma_zero_bit(6);
            lemma_zero_bit(7);
        }
        r
    }

    /// All eight particles: one moving in every direction and two resting.
    pub fn full() -> (r: Self)
        ensures
            r.value() == 255,
    {
        BitParticles(0b11111111)
    }

    /// Particles moving in the directions of `outgoing`, with `resting` resting ones.
    pub fn new(outgoing: DirectionSet, resting: u8) -> (r: Self)
        requires
            resting <= 2,
        ensures
            r.outgoing_set() == outgoing@,
            r.resting_count() == resting,
            r.value() & 192u8 == resting_bits(resting),
    {
        let mut p = BitParticles::empty();
        p.set_outgoing(outgoing);
        let ghost mid = p.value();
        p.set_resting(resting);
        proof {
            lemma_resting_mask(mid, resting_bits(resting));
        }
        p
    }

    /// Number of particles.
    pub fn count(&self) -> (r: u8)
        ensures
            r == self.particle_count(),
            r <= 8,
    {
        let v = self.0;
        proof {
            lemma_count_expr(v);
        }
        (v & 1) + ((v >> 1) & 1) + ((v >> 2) & 1) + ((v >> 3) & 1) + ((v >> 4) & 1) + ((v >> 5) & 1)
            + ((v >> 6) & 1) + ((v >> 7) & 1)
    }

    /// The directions of the moving particles.
    pub fn outgoing(&self) -> (r: DirectionSet)
        ensures
            r@ == self.outgoing_set(),
    {
        proof {
            lemma_particle_bits(self.0, 0);
        }
        let r = DirectionSet::from_bits(self.0 & 0b00111111);
        proof {
            assert forall|d: Direction| r@.contains(d) == self.outgoing_set().contains(d) by {
                lemma_particle_bits(self.0, 0);
            }
            assert(r@ =~= self.outgoing_set());
        }
        r
    }

    /// Number of resting particles.
    pub fn resting(&self) -> (r: u8)
        ensures
            r == self.resting_count(),
    {
        let v = self.0 & 0b11000000;
        proof {
            lemma_particle_bits(self.0, 0);
            lemma_count_expr(v);
            lemma_low_zero(self.0);
        }
        (v & 1) + ((v >> 1) & 1) + ((v >> 2) & 1) + ((v >> 3) & 1) + ((v >> 4) & 1) + ((v >> 5) & 1)
            + ((v >> 6) & 1) + ((v >> 7) & 1)
    }

    /// Cellular automaton step: every particle moves one step forward. The
    /// result holds the particles of the neighbours that moved towards the
    /// center, and the resting particles of the center.
    pub fn ca_step(nh: Neighbourhood<Self>) -> (r: Self)
        ensures
            r.resting_count() == nh.center.resting_count(),
            bit(r.value(), 6) == bit(nh.center.value(), 6),
            bit(r.value(), 7) == bit(nh.center.value(), 7),
            forall|d: Direction|
                #[trigger] r.outgoing_set().contains(d) == nh.neighbours@[d.opposite().idx()].outgoing_set().contains(d),
    {
        let mut incoming = DirectionSet::none();
        let mut i: usize = 0;
        while i < 6
            invariant
                0 <= i <= 6,
                forall|d: Direction|
                    #[trigger] incoming@.contains(d) == (d.idx() < i
                        && nh.neighbours@[d.opposite().idx()].outgoing_set().contains(d)),
            decreases 6 - i,
        {
            let dir = Direction::from_index(i);
            let from = nh.neighbours[dir.neg().index()];
            incoming = incoming.with(dir, from.outgoing().contains(dir));
            i = i + 1;
        }
        let mut r = nh.center;
        r.set_outgoing(incoming);
        r
    }

    /// Replace the moving particles by particles moving towards `outgoing`.
    pub fn set_outgoing(&mut self, outgoing: DirectionSet)
        ensures
            final(self).outgoing_set() == outgoing@,
            final(self).value() == (old(self).value() & 192u8) | outgoing.bits_spec(),
            final(self).resting_count() == old(self).resting_count(),
            bit(final(self).value(), 6) == bit(old(self).value(), 6),
            bit(final(self).value(), 7) == bit(old(self).value(), 7),
    {
        let o = outgoing.bits();
        let v = self.0;
        proof {
            lemma_particle_bits(v, o);
        }
        self.0 = (v & 0b11000000) | o;
        proof {
            assert forall|d: Direction| self.outgoing_set().contains(d) == outgoing@.contains(d) by {
                lemma_particle_bits(v, o);
            }
            assert(self.outgoing_set() =~= outgoing@);
        }
    }

    /// Replace the resting particles by `resting` ones (at most two).
    pub fn set_resting(&mut self, resting: u8)
        requires
            resting <= 2,
        ensures
            final(self).outgoing_set() == old(self).outgoing_set(),
            final(self).resting_count() == resting,
            final(self).value() == (old(self).value() & 63u8) | resting_bits(resting),
            forall|k: u8| k < 6 ==> bit(final(self).value(), k) == bit(old(self).value(), k),
    {
        let v = self.0;
        let bits: u8 = match resting {
            0 => 0b00000000,
            1 => 0b01000000,
            _ => 0b11000000,
        };
        proof {
            lemma_resting_bits(v, bits);
        }
        self.0 = (v & 0b00111111) | bits;
        proof {
            assert forall|d: Direction|
                self.outgoing_set().contains(d) == old(self).outgoing_set().contains(d) by {
                lemma_resting_bits(v, bits);
                lemma_bit_eq(self.0, v, d.idx() as u8);
            }
            assert(self.outgoing_set() =~= old(self).outgoing_set());
        }
    }

    /// Reverse the direction of every moving particle.
    pub fn reflect_all(&mut self)
        ensures
            final(self).outgoing_set() == mirror_set(old(self).outgoing_set()),
            final(self).resting_count() == old(self).resting_count(),
            final(self).particle_count() == old(self).particle_count(),
            bit(final(self).value(), 6) == bit(old(self).value(), 6),
            bit(final(self).value(), 7) == bit(old(self).value(), 7),
    {
        let mirrored = self.outgoing().mirrored();
        self.set_outgoing(mirrored);
        proof {
            lemma_reflect_keeps_count(*old(self), *self);
        }
    }

    /// Exchange bits `i` and `j`.
    pub fn swap_bits(&mut self, i: u8, j: u8)
        requires
            i < 8,
            j < 8,
        ensures
            final(self).value() == swap_bits_spec(old(self).value(), i, j),
            final(self).particle_count() == old(self).particle_count(),
    {
        proof {
            lemma_swap_bits(self.0, i, j);
        }
        let bit1 = (self.0 & (1u8 << i)) != 0;
        let bit2 = (self.0 & (1u8 << j)) != 0;
        proof {
            lemma_test_bit(self.0, i);
            lemma_test_bit(self.0, j);
        }
        if bit1 != bit2 {
            self.0 = self.0 ^ ((1u8 << i) | (1u8 << j));
        }
    }

    /// Exchange the two bits that the random byte `rnd` picks: bit `rnd & 7`
    /// and bit `(rnd >> 4) & 7`.
    pub fn shuffle8_with(&mut self, rnd: u8)
        ensures
            final(self).value() == swap_bits_spec(old(self).value(), rnd & 7u8, (rnd >> 4u8) & 7u8),
            final(self).particle_count() == old(self).particle_count(),
    {
        let idx1 = rnd & 0b111;
        let idx2 = (rnd >> 4) & 0b111;
        proof {
            lemma_low3(rnd);
        }
        self.swap_bits(idx1, idx2);
    }

    /// Exchange two randomly chosen bits (which may be the same bit).
    pub fn shuffle8_cheap(&mut self, rng: &mut SimRng)
        ensures
            final(self).particle_count() == old(self).particle_count(),
            exists|rnd: u8|
                final(self).value() == swap_bits_spec(old(self).value(), rnd & 7u8, (rnd >> 4u8) & 7u8),
            final(self).value() == swap_bits_spec(
                old(self).value(),
                u8_draw(*old(rng)).0 & 7u8,
                (u8_draw(*old(rng)).0 >> 4u8) & 7u8,
            ),
            *final(rng) == u8_draw(*old(rng)).1,
    {
        let rnd = random_u8(rng);
        self.shuffle8_with(rnd);
    }

    /// Four exchanges of two bits each, the bits picked by the nibbles of `rnd`
    /// (lowest first): exchange `k` swaps bit `(rnd >> 8k) & 7` with bit
    /// `(rnd >> (8k + 4)) & 7`.
    pub fn shuffle8_4x_with(&mut self, rnd: u32)
        ensures
            final(self).value() == shuffle4_spec(old(self).value(), rnd, 4),
            final(self).particle_count() == old(self).particle_count(),
    {
        let orig = rnd;
        let mut rnd = rnd;
        let mut k: u32 = 0;
        assert(orig >> 0u32 == orig) by (bit_vector);
        while k < 4
            invariant
                0 <= k <= 4,
                k < 4 ==> rnd == orig >> ((8 * k) as u32),
                self.value() == shuffle4_spec(old(self).value(), orig, k as nat),
                self.particle_count() == old(self).particle_count(),
            decreases 4 - k,
        {
            let ghost s: u32 = (8 * k) as u32;
            let b1 = rnd as u8;
            let idx1 = b1 & 0b111;
            rnd = rnd >> 4;
            let b2 = rnd as u8;
            let idx2 = b2 & 0b111;
            rnd = rnd >> 4;
            proof {
                lemma_low3(b1);
                lemma_low3(b2);
                assert((orig >> s) >> 4u32 == orig >> (s + 4u32)) by (bit_vector)
                    requires
                        s <= 24u32,
                ;
                assert(((orig >> s) >> 4u32) >> 4u32 == orig >> (s + 8u32)) by (bit_vector)
                    requires
                        s <= 16u32 || s == 24u32,
                ;
            }
            self.swap_bits(idx1, idx2);
            k = k + 1;
        }
    }

    /// Four exchanges of two randomly chosen bits each.
    pub fn shuffle8_cheap_4x(&mut self, rng: &mut SimRng)
        ensures
            final(self).particle_count() == old(self).particle_count(),
            exists|rnd: u32| final(self).value() == #[trigger] shuffle4_spec(old(self).value(), rnd, 4),
            final(self).value() == shuffle4_spec(old(self).value(), u32_draw(*old(rng)).0, 4),
            *final(rng) == u32_draw(*old(rng)).1,
    {
        let rnd = random_u32(rng);
        self.shuffle8_4x_with(rnd);
    }

    /// Exchange the moving particles of the direction at clockwise position
    /// `idx1` and the next one clockwise.
    pub fn swap_neighbours_at(&mut self, idx1: u8)
        requires
            idx1 < 6,
        ensures
            final(self).value() == swap_bits_spec(
                old(self).value(),
                idx1,
                if idx1 == 5 {
                    0u8
                } else {
                    (idx1 + 1) as u8
                },
            ),
            final(self).particle_count() == old(self).particle_count(),
            final(self).resting_count() == old(self).resting_count(),
    {
        let idx2 = if idx1 == 5 {
            0
        } else {
            idx1 + 1
        };
        proof {
            lemma_swap_bits(self.0, idx1, idx2);
        }
        self.swap_bits(idx1, idx2);
    }

    /// Exchange the moving particles of directions `d1` and `d2`.
    pub fn swap_directions(&mut self, d1: Direction, d2: Direction)
        ensures
            final(self).value() == swap_bits_spec(old(self).value(), d1.idx() as u8, d2.idx() as u8),
            final(self).particle_count() == old(self).particle_count(),
    {
        self.swap_bits(d1.index() as u8, d2.index() as u8);
    }

    /// Turn every moving particle by `steps` clockwise steps of 60 degrees
    /// (counter-clockwise for negative `steps`).
    pub fn rotate(&mut self, steps: i32)
        requires
            -6 <= steps <= 6,
        ensures
            final(self).outgoing_set() == rotated_set(old(self).outgoing_set(), steps as int),
            bit(final(self).value(), 6) == bit(old(self).value(), 6),
            bit(final(self).value(), 7) == bit(old(self).value(), 7),
            final(self).particle_count() == old(self).particle_count(),
    {
        let old_out = self.outgoing();
        let mut out = DirectionSet::none();
        let mut i: usize = 0;
        while i < 6
            invariant
                0 <= i <= 6,
                -6 <= steps <= 6,
                old_out@ == old(self).outgoing_set(),
                forall|d: Direction|
                    #[trigger] out@.contains(d) == (mod6(d.idx() - steps) < i && old_out@.contains(
                        Direction::from_idx(d.idx() - steps),
                    )),
            decreases 6 - i,
        {
            let from = Direction::from_index(i);
            let to = Direction::from_int(i as i32 + steps);
            proof {
                lemma_rotate_step(i as int, steps as int, to, from);
            }
            if old_out.contains(from) {
                out = out.with(to, true);
            }
            i = i + 1;
        }
        proof {
            assert forall|d: Direction| out@.contains(d) == rotated_set(old_out@, steps as int).contains(d) by {
                d.lemma_idx_range();
            }
            assert(out@ =~= rotated_set(old_out@, steps as int));
        }
        let ghost before = *self;
        self.set_outgoing(out);
        proof {
            lemma_count_split(before);
            lemma_count_split(*self);
            crate::coords::lemma_rotated_count(before.outgoing_set(), steps as int);
        }
    }

    /// Exchange the moving particles of a random direction and the next one clockwise.
    pub fn swap_random_neighbours(&mut self, rng: &mut SimRng)
        ensures
            final(self).particle_count() == old(self).particle_count(),
            final(self).resting_count() == old(self).resting_count(),
            ({
                let i = scaled6(u32_draw(*old(rng)).0);
                final(self).value() == swap_bits_spec(
                    old(self).value(),
                    i,
                    if i == 5 {
                        0u8
                    } else {
                        (i + 1) as u8
                    },
                )
            }),
            *final(rng) == u32_draw(*old(rng)).1,
    {
        let rnd = random_u32(rng);
        let idx1 = ((rnd as u64 * 6) >> 32) as u8;
        proof {
            lemma_scale6(rnd);
        }
        self.swap_neighbours_at(idx1);
    }
}

proof fn lemma_rotate_step(i: int, steps: int, to: Direction, from: Direction)
    requires
        0 <= i < 6,
        to == Direction::from_idx(i + steps),
        from == Direction::from_idx(i),
    ensures
        forall|d: Direction| mod6(d.idx() - steps) == i <==> d == to,
        Direction::from_idx(to.idx() - steps) == from,
{
    Direction::lemma_from_idx(i + steps);
    Direction::lemma_from_idx(to.idx() - steps);
    assert forall|d: Direction| mod6(d.idx() - steps) == i <==> d == to by {
        d.lemma_idx_range();
        to.lemma_idx_range();
    }
}

proof fn lemma_resting_mask(v: u8, rb: u8)
    by (bit_vector)
    requires
        rb == 0u8 || rb == 64u8 || rb == 192u8,
    ensures
        ((v & 63u8) | rb) & 192u8 == rb,
{
}

/// A value whose six low bits are clear, with the resting bits of one particle.
pub proof fn lemma_low_bits_of(v: u8)
    requires
        v & 192u8 == 64u8,
        mask_set(v) == Set::<Direction>::empty(),
    ensures
        v == 64,
{
    assert(!mask_set(v).contains(Direction::NorthWest));
    assert(!mask_set(v).contains(Direction::NorthEast));
    assert(!mask_set(v).contains(Direction::East));
    assert(!mask_set(v).contains(Direction::SouthEast));
    assert(!mask_set(v).contains(Direction::SouthWest));
    assert(!mask_set(v).contains(Direction::West));
    lemma_value_from_bits(v);
}

proof fn lemma_value_from_bits(v: u8)
    by (bit_vector)
    requires
        v & 192u8 == 64u8,
        (v >> 0u8) & 1u8 != 1u8,
        (v >> 1u8) & 1u8 != 1u8,
        (v >> 2u8) & 1u8 != 1u8,
        (v >> 3u8) & 1u8 != 1u8,
        (v >> 4u8) & 1u8 != 1u8,
        (v >> 5u8) & 1u8 != 1u8,
    ensures
        v == 64u8,
{
}

proof fn lemma_zero_bit(j: u8)
    by (bit_vector)
    ensures
        !((0u8 >> j) & 1u8 == 1u8),
        bit(0u8, j) == 0,
{
}

proof fn lemma_low_zero(v: u8)
    by (bit_vector)
    ensures
        ((v & 192u8) & 1u8) == 0,
        (((v & 192u8) >> 1u8) & 1u8) == 0,
        (((v & 192u8) >> 2u8) & 1u8) == 0,
        (((v & 192u8) >> 3u8) & 1u8) == 0,
        (((v & 192u8) >> 4u8) & 1u8) == 0,
        (((v & 192u8) >> 5u8) & 1u8) == 0,
{
}

proof fn lemma_bit_eq(a: u8, b: u8, k: u8)
    by (bit_vector)
    requires
        k < 8,
        bit(a, k) == bit(b, k),
    ensures
        ((a >> k) & 1u8 == 1u8) == ((b >> k) & 1u8 == 1u8),
{
}

proof fn lemma_test_bit(v: u8, i: u8)
    by (bit_vector)
    requires
        i < 8,
    ensures
        ((v & (1u8 << i)) != 0u8) == (bit(v, i) == 1u8),
        bit(v, i) <= 1u8,
{
}

proof fn lemma_low3(v: u8)
    by (bit_vector)
    ensures
        (v & 7u8) < 8,
        ((v >> 4u8) & 7u8) < 8,
{
}

proof fn lemma_scale6(rnd: u32)
    by (bit_vector)
    ensures
        (((rnd as u64) * 6u64) as u64 >> 32u64) < 6u64,
{
}

/// The six low bits of two bytes agree where their moving particles do.
proof fn lemma_low_bits_agree(x: u8, y: u8)
    requires
        mask_set(x) == mask_set(y),
    ensures
        x & 63u8 == y & 63u8,
{
    assert(mask_set(x).contains(Direction::NorthWest) == has_bit(x, 0u8));
    assert(mask_set(y).contains(Direction::NorthWest) == has_bit(y, 0u8));
    assert(mask_set(x).contains(Direction::NorthEast) == has_bit(x, 1u8));
    assert(mask_set(y).contains(Direction::NorthEast) == has_bit(y, 1u8));
    assert(mask_set(x).contains(Direction::East) == has_bit(x, 2u8));
    assert(mask_set(y).contains(Direction::East) == has_bit(y, 2u8));
    assert(mask_set(x).contains(Direction::SouthEast) == has_bit(x, 3u8));
    assert(mask_set(y).contains(Direction::SouthEast) == has_bit(y, 3u8));
    assert(mask_set(x).contains(Direction::SouthWest) == has_bit(x, 4u8));
    assert(mask_set(y).contains(Direction::SouthWest) == has_bit(y, 4u8));
    assert(mask_set(x).contains(Direction::West) == has_bit(x, 5u8));
    assert(mask_set(y).contains(Direction::West) == has_bit(y, 5u8));
    assert(x & 63u8 == y & 63u8) by (bit_vector)
        requires
            ((x >> 0u8) & 1u8 == 1u8) == ((y >> 0u8) & 1u8 == 1u8),
            ((x >> 1u8) & 1u8 == 1u8) == ((y >> 1u8) & 1u8 == 1u8),
            ((x >> 2u8) & 1u8 == 1u8) == ((y >> 2u8) & 1u8 == 1u8),
            ((x >> 3u8) & 1u8 == 1u8) == ((y >> 3u8) & 1u8 == 1u8),
            ((x >> 4u8) & 1u8 == 1u8) == ((y >> 4u8) & 1u8 == 1u8),
            ((x >> 5u8) & 1u8 == 1u8) == ((y >> 5u8) & 1u8 == 1u8),
    ;
}

/// A byte is fixed by its moving particles and its two high bits.
pub proof fn lemma_value_from_parts(x: u8, y: u8)
    requires
        mask_set(x) == mask_set(y),
        bit(x, 6) == bit(y, 6),
        bit(x, 7) == bit(y, 7),
    ensures
        x == y,
{
    lemma_low_bits_agree(x, y);
    assert(x == y) by (bit_vector)
        requires
            x & 63u8 == y & 63u8,
            (x >> 6u8) & 1u8 == (y >> 6u8) & 1u8,
            (x >> 7u8) & 1u8 == (y >> 7u8) & 1u8,
    ;
}

/// A byte is fixed by its moving particles and its resting bits.
pub proof fn lemma_value_from_resting(x: u8, y: u8)
    requires
        mask_set(x) == mask_set(y),
        x & 192u8 == y & 192u8,
    ensures
        x == y,
{
    lemma_low_bits_agree(x, y);
    assert(x == y) by (bit_vector)
        requires
            x & 63u8 == y & 63u8,
            x & 192u8 == y & 192u8,
    ;
}

} // verus!
