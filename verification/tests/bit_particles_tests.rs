use progenitor::rng::{random_u32, random_u8};
use progenitor::bit_particles::BitParticles;
use progenitor::coords::{Direction, DirectionSet};
use progenitor::rng::seed_rng;

#[test]
fn test_shuffle_cheap() {
    let mut rng = seed_rng(42);
    for i in 0..255 {
        let mut p = BitParticles(i);
        let count_before = p.count();
        p.shuffle8_cheap(&mut rng);
        p.shuffle8_cheap_4x(&mut rng);
        let count_after = p.count();
        assert_eq!(count_before, count_after);
    }
}

#[test]
fn particles_new_and_parts() {
    let p = BitParticles::new(DirectionSet::single(Direction::East), 2);
    assert_eq!(p.count(), 3);
    assert_eq!(p.resting(), 2);
    assert!(p.outgoing().contains(Direction::East));
    assert!(!p.outgoing().contains(Direction::West));
    assert_eq!(BitParticles::full().count(), 8);
    assert_eq!(BitParticles::empty().count(), 0);
}

#[test]
fn reflect_keeps_count_and_mirrors() {
    let mut p = BitParticles::new(DirectionSet::single(Direction::NorthEast), 1);
    p.reflect_all();
    assert!(p.outgoing().contains(Direction::SouthWest));
    assert!(!p.outgoing().contains(Direction::NorthEast));
    assert_eq!(p.count(), 2);
}

#[test]
fn rotate_turns_particles() {
    let mut p = BitParticles::new(DirectionSet::single(Direction::NorthWest), 0);
    p.rotate(1);
    assert!(p.outgoing().contains(Direction::NorthEast));
    p.rotate(-1);
    p.rotate(-1);
    assert!(p.outgoing().contains(Direction::West));
    assert_eq!(p.count(), 1);
}

#[test]
fn swap_directions_exchanges_slots() {
    let mut p = BitParticles::new(DirectionSet::single(Direction::East), 0);
    p.swap_directions(Direction::East, Direction::West);
    assert!(p.outgoing().contains(Direction::West));
    assert!(!p.outgoing().contains(Direction::East));
}

#[test]
fn set_resting_and_outgoing() {
    let mut p = BitParticles::empty();
    p.set_resting(2);
    assert_eq!(p.0, 0b11000000);
    p.set_outgoing(DirectionSet::all());
    assert_eq!(p.0, 0b11111111);
    p.set_resting(0);
    assert_eq!(p.0, 0b00111111);
}

#[test]
fn shuffle_4x_exchanges_the_picked_bits() {
    // first exchange: bits 0 and 1; the others exchange bit 0 with itself
    let mut p = BitParticles(0b0000_0001);
    p.shuffle8_4x_with(0x0000_0010);
    assert_eq!(p.0, 0b0000_0010);
    // second exchange: bits 2 and 7
    let mut q = BitParticles(0b0000_0100);
    q.shuffle8_4x_with(0x0000_7200);
    assert_eq!(q.0, 0b1000_0000);
    // the number of particles never changes
    let mut r = BitParticles(0b1010_0110);
    r.shuffle8_4x_with(0x1234_5678);
    assert_eq!(r.count(), 4);
}

#[test]
fn cheap_shuffles_use_the_next_draw() {
    for seed in 0..20u64 {
        let start = BitParticles(0b1010_0101);
        let mut a = seed_rng(seed);
        let mut b = seed_rng(seed);
        let mut p = start;
        p.shuffle8_cheap(&mut a);
        let mut q = start;
        q.shuffle8_with(random_u8(&mut b));
        assert_eq!(p.0, q.0);
        assert_eq!(a, b);

        let mut p = start;
        p.shuffle8_cheap_4x(&mut a);
        let mut q = start;
        q.shuffle8_4x_with(random_u32(&mut b));
        assert_eq!(p.0, q.0);
        assert_eq!(a, b);
    }
}
