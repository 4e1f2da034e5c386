//! Fixed-point probabilities, sampled with one random draw each.
use vstd::prelude::*;

use crate::rng::{random_u16, random_u8, u16_draw, u8_draw, SimRng};

verus! {

/// A probability in steps of 1/128: the value `v` (at most 128) stands for `v / 128`.
#[derive(Clone, Copy, PartialEq, Eq, Debug, Structural)]
pub struct Prob7(u8);

/// A probability in steps of 1/32768: the value `v` (at most 32768) stands for `v / 32768`.
#[derive(Clone, Copy, PartialEq, Eq, Debug, Structural)]
pub struct Prob15(u16);

/// Whether the random byte `rnd` makes an event of probability `p / 128` happen.
pub open spec fn sample7(p: u8, rnd: u8) -> bool {
    (rnd & 0x7Fu8) < p
}

/// Whether the random value `rnd` makes an event of probability `p / 32768` happen.
pub open spec fn sample15(p: u16, rnd: u16) -> bool {
    (rnd & 0x7FFFu16) < p
}

proof fn lemma_mask7(rnd: u8)
    by (bit_vector)
    ensures
        (rnd & 0x7Fu8) < 128,
{
}

proof fn lemma_mask15(rnd: u16)
    by (bit_vector)
    ensures
        (rnd & 0x7FFFu16) < 32768,
{
}

impl Prob7 {
    pub closed spec fn value(self) -> int {
        self.0 as int
    }

    #[verifier::type_invariant]
    spec fn inv(self) -> bool {
        self.0 <= 128
    }

    /// Probability zero.
    pub fn zero() -> (r: Self)
        ensures
            r.value() == 0,
    {
        Self(0)
    }

    /// Probability one half.
    pub fn half() -> (r: Self)
        ensures
            r.value() == 64,
    {
        Self(64)
    }

    /// Probability one.
    pub fn one() -> (r: Self)
        ensures
            r.value() == 128,
    {
        Self(128)
    }

    /// The probability `v / 128`.
    pub fn from_fixed(v: u8) -> (r: Self)
        requires
            v <= 128,
        ensures
            r.value() == v,
    {
        Self(v)
    }

    /// The fixed-point value: the probability times 128.
    pub fn fixed(&self) -> (r: u8)
        ensures
            r == self.value(),
            r <= 128,
    {
        proof {
            use_type_invariant(self);
        }
        self.0
    }

    /// Whether the event happens for the random byte `rnd`.
    pub fn sample_with(self, rnd: u8) -> (r: bool)
        ensures
            r == sample7(self.value() as u8, rnd),
            self.value() == 0 ==> !r,
            self.value() == 128 ==> r,
    {
        proof {
            lemma_mask7(rnd);
        }
        rnd & 0b01111111 < self.0
    }

    /// Sample the event with one random byte.
    pub fn sample(self, rng: &mut SimRng) -> (r: bool)
        ensures
            exists|rnd: u8| r == #[trigger] sample7(self.value() as u8, rnd),
            self.value() == 0 ==> !r,
            self.value() == 128 ==> r,
            r == sample7(self.value() as u8, u8_draw(*old(rng)).0),
            *final(rng) == u8_draw(*old(rng)).1,
    {
        let rnd = random_u8(rng);
        self.sample_with(rnd)
    }
}

impl Prob15 {
    pub closed spec fn value(self) -> int {
        self.0 as int
    }

    #[verifier::type_invariant]
    spec fn inv(self) -> bool {
        self.0 <= 32768
    }

    /// Probability zero.
    pub fn zero() -> (r: Self)
        ensures
            r.value() == 0,
    {
        Self(0)
    }

    /// Probability one half.
    pub fn half() -> (r: Self)
        ensures
            r.value() == 16384,
    {
        Self(16384)
    }

    /// Probability one.
    pub fn one() -> (r: Self)
        ensures
            r.value() == 32768,
    {
        Self(32768)
    }

    /// The probability `v / 32768`.
    pub fn from_fixed(v: u16) -> (r: Self)
        requires
            v <= 32768,
        ensures
            r.value() == v,
    {
        Self(v)
    }

    /// The fixed-point value: the probability times 32768.
    pub fn fixed(&self) -> (r: u16)
        ensures
            r == self.value(),
            r <= 32768,
    {
        proof {
            use_type_invariant(self);
        }
        self.0
    }

    /// Whether the event happens for the random value `rnd`.
    pub fn sample_with(self, rnd: u16) -> (r: bool)
        ensures
            r == sample15(self.value() as u16, rnd),
            self.value() == 0 ==> !r,
            self.value() == 32768 ==> r,
    {
        proof {
            lemma_mask15(rnd);
        }
        rnd & 0x7FFF < self.0
    }

    /// Sample the event with one random 16-bit value.
    pub fn sample(self, rng: &mut SimRng) -> (r: bool)
        ensures
            exists|rnd: u16| r == #[trigger] sample15(self.value() as u16, rnd),
            self.value() == 0 ==> !r,
            self.value() == 32768 ==> r,
            r == sample15(self.value() as u16, u16_draw(*old(rng)).0),
            *final(rng) == u16_draw(*old(rng)).1,
    {
        let rnd = random_u16(rng);
        self.sample_with(rnd)
    }
}

} // verus!
