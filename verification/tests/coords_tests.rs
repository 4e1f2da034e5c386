use progenitor::coords::{Cube, Direction, DirectionSet, Neighbourhood, Offset};

#[test]
fn direction_set_examples() {
    let all = DirectionSet::all();
    assert!(all.contains(Direction::NorthEast));

    let none = DirectionSet::none();
    assert!(!none.contains(Direction::NorthEast));

    let single = DirectionSet::single(Direction::NorthEast);
    assert!(single.contains(Direction::NorthEast));
    assert!(!single.contains(Direction::East));

    let some = DirectionSet::matching(|d| d == Direction::East || d == Direction::NorthWest);
    assert!(some.contains(Direction::East));
    assert!(some.contains(Direction::NorthWest));
    assert!(!some.contains(Direction::NorthEast));
}

#[test]
fn offset_to_cube_example() {
    let pos: Cube = Cube::from_offset(Offset { col: -1, row: -1 });
    assert_eq!(pos, Cube { x: 0, y: 1 });
}

#[test]
fn cube_to_offset_example() {
    let pos: Offset = Offset::from_cube(Cube { x: 0, y: 1 });
    assert_eq!(pos, Offset { col: -1, row: -1 });
}

#[test]
fn offset_roundtrip() {
    for row in -5..5 {
        for col in -5..5 {
            let o = Offset { col, row };
            assert_eq!(Offset::from_cube(Cube::from_offset(o)), o);
        }
    }
}

#[test]
fn direction_arithmetic() {
    assert_eq!(Direction::from_int(-1), Direction::West);
    assert_eq!(Direction::from_int(8), Direction::East);
    assert_eq!(Direction::try_from_int(6), None);
    assert_eq!(Direction::try_from_int(3), Some(Direction::SouthEast));
    for d in Direction::all() {
        assert_eq!(d.neg().neg(), d);
        assert_ne!(d.neg(), d);
        let p = Cube { x: 3, y: -7 };
        assert_eq!(p.add_direction(d).sub_direction(d), p);
        assert_eq!(p.distance(p.add_direction(d)), 1);
    }
    assert_eq!(Direction::NorthWest.name_short(), "NW");
    assert_eq!(Direction::SouthWest.name_long(), "SouthWest");
    assert_eq!(Cube { x: 0, y: 0 }.distance(Cube { x: 2, y: -5 }), 5);
}

#[test]
fn direction_set_operations() {
    let s = DirectionSet::none()
        .with(Direction::NorthWest, true)
        .with(Direction::East, true);
    assert_eq!(s.count(), 2);
    assert_eq!(s.bits(), 0b000101);
    let m = s.mirrored();
    assert!(m.contains(Direction::SouthEast) && m.contains(Direction::West));
    assert_eq!(m.count(), 2);
    assert_eq!(m.mirrored(), s);
    let w = s.swapped(Direction::East, Direction::SouthWest);
    assert!(w.contains(Direction::SouthWest) && !w.contains(Direction::East));
    assert_eq!(w.swapped(Direction::East, Direction::SouthWest), s);
    assert_eq!(s.with(Direction::East, false), DirectionSet::single(Direction::NorthWest));
    assert_eq!(DirectionSet::from_bits(0b111111), DirectionSet::all());
    assert_eq!(DirectionSet::all().count(), 6);
    let t = s.transmuted(|d| d.neg());
    assert_eq!(t, m);
}

#[test]
fn neighbourhood_helpers() {
    let nh = Neighbourhood { center: 0, neighbours: [1, 2, 3, 4, 5, 6] };
    assert_eq!(nh.neighbour(Direction::SouthEast), 4);
    assert_eq!(nh.count_neighbours(|v| v % 2 == 0), 3);
    let doubled = nh.map(|v| v * 2);
    assert_eq!(doubled.neighbours, [2, 4, 6, 8, 10, 12]);
    assert_eq!(nh.iter_dirs()[2], (Direction::East, 3));
    let opt = Neighbourhood { center: Some(1), neighbours: [Some(1); 6] };
    assert!(opt.valid_only().is_some());
    let mut missing = opt;
    missing.neighbours[3] = None;
    assert!(missing.valid_only().is_none());
}

#[test]
fn neighbourhood_map_identity_and_composition() {
    let nh = Neighbourhood { center: 1i32, neighbours: [2, 3, 4, 5, 6, 7] };
    let same = nh.map(|x| x);
    assert_eq!(same.center, nh.center);
    assert_eq!(same.neighbours, nh.neighbours);
    let twice = nh.map(|x| x + 1).map(|x| x * 10);
    let once = nh.map(|x| (x + 1) * 10);
    assert_eq!(twice.center, once.center);
    assert_eq!(twice.neighbours, once.neighbours);
    assert_eq!(once.neighbours, [30, 40, 50, 60, 70, 80]);
}
