use progenitor::rng::{random_u16, random_u8};
use progenitor::probabilities::{Prob15, Prob7};
use progenitor::rng::seed_rng;

#[test]
fn test_prob_7() {
    let mut rng = seed_rng(42);
    const N: u64 = 1000;
    let p_zero = Prob7::zero();
    let p_one = Prob7::one();
    let none = (0..N).map(|_| p_zero.sample(&mut rng) as u64).sum::<u64>();
    let all = (0..N).map(|_| p_one.sample(&mut rng) as u64).sum::<u64>();
    assert_eq!(none, 0);
    assert_eq!(all, N);

    let p_half = Prob7::half();
    let about_half = (0..N).map(|_| p_half.sample(&mut rng) as u64).sum::<u64>();
    assert!(about_half > N * 3 / 8);
    assert!(about_half < N * 5 / 8);
}

#[test]
fn test_prob_15() {
    let mut rng = seed_rng(42);
    const N: u64 = 1000;
    let p_zero = Prob15::zero();
    let p_one = Prob15::one();
    let none = (0..N).map(|_| p_zero.sample(&mut rng) as u64).sum::<u64>();
    let all = (0..N).map(|_| p_one.sample(&mut rng) as u64).sum::<u64>();
    assert_eq!(none, 0);
    assert_eq!(all, N);

    let p_half = Prob15::half();
    let about_half = (0..N).map(|_| p_half.sample(&mut rng) as u64).sum::<u64>();
    assert!(about_half > N * 3 / 8);
    assert!(about_half < N * 5 / 8);
}

#[test]
fn fixed_point_values() {
    assert_eq!(Prob7::half().fixed(), 64);
    assert_eq!(Prob7::one().fixed(), 128);
    assert_eq!(Prob15::half().fixed(), 1 << 14);
    assert_eq!(Prob15::one().fixed(), 1 << 15);
    assert!(!Prob7::from_fixed(10).sample_with(10));
    assert!(Prob7::from_fixed(10).sample_with(9));
    assert!(Prob7::from_fixed(10).sample_with(128 + 9));
}

#[test]
fn samples_use_the_next_draw() {
    for seed in 0..20u64 {
        let p = Prob7::from_fixed(37);
        let mut a = seed_rng(seed);
        let mut b = seed_rng(seed);
        let r = p.sample(&mut a);
        let u = random_u8(&mut b);
        assert_eq!(r, (u & 0x7F) < 37);
        assert_eq!(a, b);

        let q = Prob15::from_fixed(12345);
        let r = q.sample(&mut a);
        let u = random_u16(&mut b);
        assert_eq!(r, (u & 0x7FFF) < 12345);
        assert_eq!(a, b);
    }
}
