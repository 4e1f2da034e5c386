use progenitor::features::FeatureAccumulator;

fn acc(values: &[(i32, u16)]) -> FeatureAccumulator {
    let mut a = FeatureAccumulator::default();
    for &(v, w) in values {
        a.push_weighted(v, w);
    }
    a
}

#[test]
fn accumulator_sums_weighted_values() {
    let mut a = FeatureAccumulator::default();
    a.push(3);
    a.push(-5);
    a.push_weighted(2, 4);
    // the weight counts towards the total weight only
    assert_eq!(a.sum(), 3 - 5 + 2);
    assert_eq!(a.weight(), 6);
}

#[test]
fn merging_does_not_depend_on_grouping() {
    let a = acc(&[(1, 1), (7, 2)]);
    let b = acc(&[(-3, 5)]);
    let c = acc(&[(10, 1), (0, 3)]);
    let left = FeatureAccumulator::merge(FeatureAccumulator::merge(a, b), c);
    let right = FeatureAccumulator::merge(a, FeatureAccumulator::merge(b, c));
    assert_eq!(left.sum(), right.sum());
    assert_eq!(left.weight(), right.weight());
    let swapped = FeatureAccumulator::merge(b, a);
    let ab = FeatureAccumulator::merge(a, b);
    assert_eq!(swapped.sum(), ab.sum());
    assert_eq!(swapped.weight(), ab.weight());
    let with_empty = FeatureAccumulator::merge(a, FeatureAccumulator::default());
    assert_eq!(with_empty.sum(), a.sum());
    assert_eq!(with_empty.weight(), a.weight());
}
