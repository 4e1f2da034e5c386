//! The random number generator of the simulations, and the draws they make.
//!
//! The generator is a deterministic function of its state: each draw gives a
//! value and the generator's next state, both fixed by the state before the
//! draw. The names below stand for these results; of the values nothing is
//! stated beyond the range that the `rand` documentation promises.
use vstd::prelude::*;

verus! {

#[verifier::external_type_specification]
#[verifier::external_body]
pub struct ExXoshiro256PlusPlus(rand_xoshiro::Xoshiro256PlusPlus);

/// The generator used by all simulations.
pub type SimRng = rand_xoshiro::Xoshiro256PlusPlus;

/// What `rand::Rng::random_range(0..n)` on `i32` draws from the generator in
/// state `rng`, and the generator's next state.
pub uninterp spec fn below_i32_draw(rng: SimRng, n: i32) -> (i32, SimRng);

/// What `rand::Rng::random_range(0..n)` on `u8` draws from the generator in
/// state `rng`, and the generator's next state.
pub uninterp spec fn below_u8_draw(rng: SimRng, n: u8) -> (u8, SimRng);

/// What `rand::Rng::random_ratio(numerator, denominator)` draws from the
/// generator in state `rng`, and the generator's next state.
pub uninterp spec fn ratio_draw(rng: SimRng, numerator: u32, denominator: u32) -> (bool, SimRng);

/// What `rand::Rng::random::<bool>()` draws from the generator in state
/// `rng`, and the generator's next state.
pub uninterp spec fn bool_draw(rng: SimRng) -> (bool, SimRng);

/// What `rand::Rng::random::<u8>()` draws from the generator in state `rng`,
/// and the generator's next state.
pub uninterp spec fn u8_draw(rng: SimRng) -> (u8, SimRng);

/// What `rand::Rng::random::<u16>()` draws from the generator in state
/// `rng`, and the generator's next state.
pub uninterp spec fn u16_draw(rng: SimRng) -> (u16, SimRng);

/// What `rand::Rng::random::<u32>()` draws from the generator in state
/// `rng`, and the generator's next state.
pub uninterp spec fn u32_draw(rng: SimRng) -> (u32, SimRng);

/// The index that `rand::seq::IteratorRandom::choose` draws (with
/// `random_range(..len)`) on an iterator of known length `len` of at least
/// two items, from the generator in state `rng`, and the generator's next
/// state.
pub uninterp spec fn index_draw(rng: SimRng, len: usize) -> (usize, SimRng);

/// `rand::Rng::random_range(0..n)`: a value drawn uniformly from `0..n`.
/// Its documentation promises a value in the range and a panic on an empty
/// range, which `requires` leaves out.
#[verifier::external_body]
pub fn random_below(rng: &mut SimRng, n: i32) -> (r: i32)
    requires
        n > 0,
    ensures
        0 <= r < n,
        (r, *final(rng)) == below_i32_draw(*old(rng), n),
{
    rand::Rng::random_range(rng, 0..n)
}

/// `rand::Rng::random_range(0..n)` on bytes: a value drawn uniformly from `0..n`.
/// A panic on an empty range is left out by `requires`.
#[verifier::external_body]
pub fn random_u8_below(rng: &mut SimRng, n: u8) -> (r: u8)
    requires
        n > 0,
    ensures
        r < n,
        (r, *final(rng)) == below_u8_draw(*old(rng), n),
{
    rand::Rng::random_range(rng, 0..n)
}

/// `rand::Rng::random_ratio(numerator, denominator)`: `true` with a chance of
/// `numerator` in `denominator`. Its documentation promises `false` for a
/// numerator of 0 and `true` where the two are equal; the panic on a ratio
/// above one or a zero denominator is left out by `requires`.
#[verifier::external_body]
pub fn random_ratio(rng: &mut SimRng, numerator: u32, denominator: u32) -> (r: bool)
    requires
        0 < denominator,
        numerator <= denominator,
    ensures
        numerator == 0 ==> !r,
        numerator == denominator ==> r,
        (r, *final(rng)) == ratio_draw(*old(rng), numerator, denominator),
{
    rand::Rng::random_ratio(rng, numerator, denominator)
}

/// The generator that `SimRng::seed_from_u64(seed)` builds.
pub uninterp spec fn seeded(seed: u64) -> SimRng;

/// `rand::SeedableRng::seed_from_u64` of `rand_xoshiro`: a generator whose
/// state is expanded from `seed` by SplitMix64, a fixed function of the seed.
#[verifier::external_body]
pub fn seed_rng(seed: u64) -> (r: SimRng)
    ensures
        r == seeded(seed),
{
    <SimRng as rand::SeedableRng>::seed_from_u64(seed)
}

/// `rand::RngCore::next_u64` on the thread-local generator of `rand`: a seed
/// that depends on chance, of which nothing is stated.
#[verifier::external_body]
pub fn random_seed() -> u64 {
    rand::RngCore::next_u64(&mut rand::rng())
}

/// `rand::SeedableRng::from_rng` on the thread-local generator of `rand`:
/// a generator seeded by chance, of which nothing is stated.
#[verifier::external_body]
pub fn fresh_rng() -> SimRng {
    <SimRng as rand::SeedableRng>::from_rng(&mut rand::rng())
}

/// `rand::Rng::random::<bool>()`: a fair coin.
#[verifier::external_body]
pub fn random_bool(rng: &mut SimRng) -> (r: bool)
    ensures
        (r, *final(rng)) == bool_draw(*old(rng)),
{
    rand::Rng::random::<bool>(rng)
}

/// `rand::Rng::random::<u8>()`: a uniformly drawn byte.
#[verifier::external_body]
pub fn random_u8(rng: &mut SimRng) -> (r: u8)
    ensures
        (r, *final(rng)) == u8_draw(*old(rng)),
{
    rand::Rng::random::<u8>(rng)
}

/// `rand::Rng::random::<u16>()`: a uniformly drawn 16-bit value.
#[verifier::external_body]
pub fn random_u16(rng: &mut SimRng) -> (r: u16)
    ensures
        (r, *final(rng)) == u16_draw(*old(rng)),
{
    rand::Rng::random::<u16>(rng)
}

/// `rand::Rng::random::<u32>()`: a uniformly drawn 32-bit value.
#[verifier::external_body]
pub fn random_u32(rng: &mut SimRng) -> (r: u32)
    ensures
        (r, *final(rng)) == u32_draw(*old(rng)),
{
    rand::Rng::random::<u32>(rng)
}

/// `rand::seq::IteratorRandom::choose` over the items: one item drawn
/// uniformly, or `None` when there is none. On an iterator of known length
/// its source draws nothing for no item or one item, and otherwise takes the
/// item at the index `random_range(..len)` draws (`index_draw`).
#[verifier::external_body]
pub fn choose_from<T: Copy>(rng: &mut SimRng, items: &Vec<T>) -> (r: Option<T>)
    ensures
        r is None <==> items@.len() == 0,
        r matches Some(t) ==> items@.contains(t),
        items@.len() <= 1 ==> *final(rng) == *old(rng),
        items@.len() == 1 ==> r == Some(items@[0]),
        items@.len() >= 2 ==> r == Some(items@[index_draw(*old(rng), items@.len() as usize).0 as int]),
        items@.len() >= 2 ==> index_draw(*old(rng), items@.len() as usize).0 < items@.len() && r is Some,
        items@.len() >= 2 ==> *final(rng) == index_draw(*old(rng), items@.len() as usize).1,
{
    rand::seq::IteratorRandom::choose(items.iter(), rng).copied()
}

} // verus!
