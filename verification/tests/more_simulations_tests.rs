use progenitor::rng::random_u8;
use progenitor::hexgrid_view::HexgridView;
use progenitor::axial_tile::AxialTile;
use progenitor::blobs::{self, BlobCell, Blobs};
use progenitor::builders::wall_sim::{self, Action, BuilderPos, BuilderStats, BuilderWorld};
use progenitor::builders::worldgen;
use progenitor::coords::{Cube, Direction, DirectionSet, Offset};
use progenitor::hexmap;
use progenitor::hive::hive_map::{self, HiveSim};
use progenitor::rng::seed_rng;
use progenitor::sim2;
use progenitor::taskstream::{StreamAction, TaskStream};
use progenitor::tiled::{TiledMap, TiledTileLayer};
use progenitor::tumbler::Tumbler;
use progenitor::tumblers::{self, LutRule, Tumblers};
use progenitor::torus_tile::TorusTile;
use progenitor::turing::Turing;
use progenitor::turing_drawings::turing1::Turing1;
use progenitor::turing_drawings::turing2::Turing2;

#[test]
fn tumblers_start_with_blobs_in_the_center() {
    let mut world = Tumblers::new_with_seed(33);
    let center = hexmap::center(12);
    assert_eq!(world.cell_view(center).unwrap().cell_type, 0);
    assert_eq!(world.sum_visited(), 0);
    assert!(world.count_bots() >= 7);
    let visitable = world.visitable_cells();
    assert!(visitable > 0);
    for _ in 0..10 {
        world.step();
        assert!(world.sum_visited() <= visitable);
    }
    assert!(world.sum_visited() >= 1 || world.count_bots() == 0);
    let loss = world.loss_value();
    assert!(loss >= 0);
}

#[test]
fn lut_rule_without_tables_keeps_cells() {
    let rule = LutRule {
        neighbourhood_features: [[0; 3]; 12],
        neighbourhood_features_thresholds: [0; 3],
        transform: [false; 8],
        change_heading: [false; 8],
    };
    let cell = tumblers::Cell { kind: tumblers::CellType::Air, heading: Some(Direction::East) };
    let nh = progenitor::coords::Neighbourhood { center: cell, neighbours: [cell; 6] };
    let mut rng = seed_rng(1);
    let out = rule.step(nh, &mut rng);
    assert_eq!(out, cell);
    let always = LutRule { transform: [true; 8], ..rule };
    let out = always.step(nh, &mut rng);
    assert_eq!(out.kind, tumblers::CellType::Blob);
}

#[test]
fn blobs_keep_walls_and_spread() {
    let mut world = Blobs::new();
    let center = Cube { x: 8, y: -24 };
    assert_eq!(world.cell_view(center).unwrap().cell_type, 2);
    assert_eq!(world.cell_view(center).unwrap().energy, Some(3));
    let wall = Cube { x: 8 + 6, y: -24 - 6 };
    assert_eq!(world.cell_view(wall).unwrap().cell_type, 1);
    for _ in 0..5 {
        world.step();
    }
    assert_eq!(world.cell_view(wall).unwrap().cell_type, 1);
}

#[test]
fn blob_update_grows_into_empty() {
    let mut rng = seed_rng(2);
    let blob = blobs::Cell::Blob(BlobCell { mass: 5, ready: DirectionSet::none(), valid: DirectionSet::none() });
    let empty = blobs::Cell::Empty;
    let neighbours = [
        (Direction::NorthWest, blob),
        (Direction::NorthEast, empty),
        (Direction::East, empty),
        (Direction::SouthEast, empty),
        (Direction::SouthWest, empty),
        (Direction::West, empty),
    ];
    match blobs::update_cell(empty, neighbours, &mut rng) {
        blobs::Cell::Blob(b) => {
            assert_eq!(b.mass, 0);
            assert!(b.ready.contains(Direction::NorthWest));
        }
        _ => panic!("expected a new blob"),
    }
    assert!(matches!(blobs::update_cell(blobs::Cell::Wall, neighbours, &mut rng), blobs::Cell::Wall));
}

#[test]
fn builders_world_and_actions() {
    let mut world = BuilderWorld::new_with_seed(5);
    let center = hexmap::center(worldgen::RING_RADIUS);
    assert_eq!(world.visited_count(), 0);
    assert_eq!(world.cell(center), Some(wall_sim::Cell::Air));
    world.place_agent(center);
    let mut b = BuilderPos { pos: center, heading: Direction::East, exhausted: 0, last_action: Action::Wait };
    let moved = world.apply_action(&mut b, Action::Forward);
    assert_eq!(moved, wall_sim::Cell::Air);
    assert_eq!(b.pos, center.add_direction(Direction::East));
    assert_eq!(b.heading, Direction::East);
    assert_eq!(world.cell(b.pos), Some(wall_sim::Cell::Agent));
    assert_eq!(world.cell(center), Some(wall_sim::Cell::Air));
    assert_eq!(world.visited_count(), 1);
    assert_eq!(b.exhausted, 0);
    b.exhausted = 0;
    let _ = world.apply_action(&mut b, Action::BackLeft);
    assert_eq!(b.heading, Direction::East.add_angle(progenitor::coords::Angle::Right));
    assert_eq!(b.exhausted, 1);
    let view = world.cell_view(&[b], b.pos).unwrap();
    assert_eq!(view.cell_type, 0);
    assert_eq!(view.direction, Some(b.heading));
    assert!(world.cell_view(&[], Cube { x: 0, y: 0 }).is_none());
    assert!(world.hoarding_score() >= 0);
    assert!(world.wall_edges() > 0);
    assert_eq!(wall_sim::cost(Action::PullBack, wall_sim::Cell::Wall), 3);
    assert_eq!(wall_sim::cost(Action::Forward, wall_sim::Cell::Food), 0);
}

#[test]
fn turing_machines_step() {
    let mut t = Turing::new_with_seed(4);
    let start = progenitor::turing::start_pos();
    assert_eq!(t.cell_view(start).unwrap().cell_type, 0);
    for _ in 0..100 {
        t.step();
    }
    let mut t2 = Turing2::new_with_seed(4);
    for _ in 0..100 {
        t2.step();
    }
    // the same rules on the same seed give the same drawing
    for row in 0..32 {
        for col in 0..32 {
            let pos = Cube { x: col, y: -col - row };
            assert_eq!(t.cell_view(pos).unwrap().cell_type, t2.get_cell_view(pos).cell_type);
        }
    }
    let mut t1 = Turing1::new();
    for _ in 0..50 {
        t1.step();
    }
    let cells = t1.get_cells_rectangle();
    assert_eq!(cells.len(), 1024);
    // exactly one cell shows the head
    assert_eq!(cells.iter().filter(|c| c.cell_type == 2).count(), 1);
    for row in 0..32 {
        for col in 0..32 {
            let pos = Cube::from_offset(Offset { col, row });
            assert_eq!(cells[(row * 32 + col) as usize].cell_type, t1.get_cell_view(pos).cell_type);
        }
    }
    let mut walker = Tumbler::new();
    // the walker stands on its start cell, which is shown as type 0
    assert_eq!(walker.get_cell_view(Cube { x: 15, y: 15 }).cell_type, 0);
    for _ in 0..20 {
        walker.step();
    }
}

#[test]
fn sim2_keeps_grass_rows() {
    let mut world = sim2::World::new();
    world.seed(9);
    let bottom = Cube { x: 0, y: -31 };
    assert_eq!(world.cell_view(bottom).unwrap().cell_type, 1);
    let count = |w: &sim2::World| {
        let mut n = 0;
        for row in 0..32 {
            for col in 0..32 {
                if w.cell_view(Cube { x: col, y: -col - row }).unwrap().cell_type == 3 {
                    n += 1;
                }
            }
        }
        n
    };
    let sand = count(&world);
    for _ in 0..10 {
        world.step();
        assert_eq!(count(&world), sand);
    }
}

#[test]
fn hive_vapour_starts_west_in_air() {
    let mut map = AxialTile::new(8, 8, hive_map::Cell::Air);
    map.set_cell(Cube { x: 3, y: -6 }, hive_map::Cell::Wall);
    let mut sim = HiveSim::new_with_map(&map, seed_rng(3));
    let v = sim.cell_view(Cube { x: 2, y: -4 }).unwrap();
    assert_eq!(v.cell_type, 2);
    assert_eq!(v.energy, Some(2));
    assert_eq!(sim.cell_view(Cube { x: 3, y: -6 }).unwrap().cell_type, 4);
    sim.step();
    assert!(sim.cell_view(Cube { x: 0, y: 0 }).is_none());
    assert_eq!(sim.cell_view(Cube { x: 3, y: -6 }).unwrap().cell_type, 4);
}

#[test]
fn tiled_map_to_axial_tile() {
    let map = TiledMap {
        orientation: "hexagonal".to_string(),
        staggeraxis: "y".to_string(),
        staggerindex: "odd".to_string(),
        layers: vec![TiledTileLayer { data: vec![1, 2, 3, 4, 5, 6], height: 2, width: 3 }],
    };
    let tile = map.to_axial_tile(0, |i| i * 10);
    assert_eq!(tile.width(), 4);
    assert_eq!(tile.height(), 2);
    // row 0, col 0 lands at offset (1, 0)
    assert_eq!(tile.cell(Cube { x: 1, y: -1 }), Some(10));
    assert_eq!(tile.cell(Cube { x: 0, y: 0 }), Some(0));
}

#[test]
fn taskstream_delivers_in_order() {
    let mut s: TaskStream<u32> = TaskStream::new(2);
    let mut pending = vec![10u32, 20, 30];
    let mut running: Vec<(usize, u32)> = Vec::new();
    let mut delivered = Vec::new();
    loop {
        match s.next_action(!pending.is_empty()) {
            StreamAction::Spawn => {
                let task = pending.remove(0);
                let i = s.spawned();
                running.push((i, task * 2));
            }
            StreamAction::Wait => {
                // results come back in reverse order
                let (i, r) = running.pop().unwrap();
                assert!(s.expects(i));
                s.received(i, r);
            }
            StreamAction::Deliver => {
                delivered.push(s.deliver());
            }
            StreamAction::Done => break,
        }
    }
    assert_eq!(delivered, vec![(1, 20), (2, 40), (3, 60)]);
}

#[test]
fn turing_parts_round_trip() {
    let mut t = Turing::new_with_seed(9);
    for _ in 0..30 {
        t.step();
    }
    let (grid, pos, state, rules) = t.parts();
    let rebuilt = Turing::from_parts(TorusTile::from_vec(grid.iter_cells().to_vec()), pos, state, rules.clone()).unwrap();
    for row in 0..32 {
        for col in 0..32 {
            let p = Cube { x: col, y: -col - row };
            assert_eq!(t.cell_view(p).unwrap().cell_type, rebuilt.cell_view(p).unwrap().cell_type);
        }
    }
    // a state that does not exist is refused
    assert!(Turing::from_parts(TorusTile::from_vec(grid.iter_cells().to_vec()), pos, 7, rules.clone()).is_none());
    // so is a rule table of the wrong length
    assert!(Turing::from_parts(TorusTile::from_vec(grid.iter_cells().to_vec()), pos, state, Vec::new()).is_none());
}

#[test]
fn tumblers_from_one_seed_are_one_world() {
    let a = Tumblers::new_with_seed(7);
    let b = Tumblers::new_with_seed(7);
    let (_, _, _, ra) = a.parts();
    let (_, _, _, rb) = b.parts();
    assert_eq!(ra.air_rule.neighbourhood_features, rb.air_rule.neighbourhood_features);
    assert_eq!(ra.air_rule.transform, rb.air_rule.transform);
    assert_eq!(ra.blob_rule.neighbourhood_features_thresholds, rb.blob_rule.neighbourhood_features_thresholds);
    assert_eq!(ra.blob_rule.change_heading, rb.blob_rule.change_heading);
    for row in 0..25 {
        for col in 0..25 {
            let pos = Cube { x: col, y: -col - row };
            let va = a.cell_view(pos).map(|v| (v.cell_type, v.direction));
            let vb = b.cell_view(pos).map(|v| (v.cell_type, v.direction));
            assert_eq!(va, vb);
        }
    }
    // the two rules are drawn one after the other, not twice the same
    assert_ne!(ra.air_rule.neighbourhood_features, ra.blob_rule.neighbourhood_features);
}

#[test]
fn lut_rules_from_one_generator_state_are_equal() {
    let mut g1 = seed_rng(21);
    let mut g2 = seed_rng(21);
    let r1 = LutRule::new_random(&mut g1);
    let r2 = LutRule::new_random(&mut g2);
    assert_eq!(r1.neighbourhood_features, r2.neighbourhood_features);
    assert_eq!(r1.neighbourhood_features_thresholds, r2.neighbourhood_features_thresholds);
    assert_eq!(r1.transform, r2.transform);
    assert_eq!(r1.change_heading, r2.change_heading);
    let r3 = LutRule::new_random(&mut g1);
    assert_ne!(r1.neighbourhood_features, r3.neighbourhood_features);
}

#[test]
fn tumblers_from_one_seed_share_the_generator() {
    let a = Tumblers::new_with_seed(12);
    let b = Tumblers::new_with_seed(12);
    assert_eq!(a.parts().2, b.parts().2);
    let c = Tumblers::new_with_seed(13);
    assert_ne!(a.parts().2, c.parts().2);
}

#[test]
fn builders_worlds_from_one_seed_are_equal() {
    let a = BuilderWorld::new_with_seed(8);
    let b = BuilderWorld::new_with_seed(8);
    assert_eq!(a.parts().0.iter_cells(), b.parts().0.iter_cells());
}

#[test]
fn builder_turns_rest_and_record() {
    let mut b = BuilderPos { pos: Cube { x: 1, y: -2 }, heading: Direction::East, exhausted: 2, last_action: Action::Wait };
    assert!(!wall_sim::start_turn(&mut b));
    assert_eq!(b.exhausted, 1);
    assert!(!wall_sim::start_turn(&mut b));
    assert_eq!(b.exhausted, 0);
    assert!(wall_sim::start_turn(&mut b));
    assert_eq!(b.exhausted, 0);

    let mut world = BuilderWorld::new_with_seed(5);
    let center = hexmap::center(worldgen::RING_RADIUS);
    assert!(world.is_interior(center));
    assert!(!world.is_interior(Cube { x: 0, y: 0 }));
    world.place_agent(center);
    let east = center.add_direction(Direction::East);
    assert_eq!(world.agents_around(east), 1);
    assert_eq!(world.agents_around(center), 0);
    let mut stats = BuilderStats::new();
    world.record_turn(&mut stats, 2, east);
    assert_eq!(stats.encounters, 2);
    assert_eq!(stats.max_depth_reached, 1);
    assert_eq!(stats.walls_nearby, world.walls_around(east));
    world.record_turn(&mut stats, 0, center);
    assert_eq!(stats.max_depth_reached, 1);
}

#[test]
fn tiled_maps_are_checked_before_reading() {
    let layer = || vec![TiledTileLayer { data: vec![1, 2, 3, 4, 5, 6], height: 2, width: 3 }];
    let good = TiledMap {
        orientation: "hexagonal".to_string(),
        staggeraxis: "y".to_string(),
        staggerindex: "odd".to_string(),
        layers: layer(),
    };
    let tile = good.to_axial_tile_checked(0, |i| i * 10).unwrap();
    assert_eq!(tile.cell(Cube { x: 1, y: -1 }), Some(10));
    let square = TiledMap { orientation: "orthogonal".to_string(), ..good };
    assert!(square.to_axial_tile_checked(0, |i| i).is_none());
    let short = TiledMap {
        orientation: "hexagonal".to_string(),
        staggeraxis: "y".to_string(),
        staggerindex: "odd".to_string(),
        layers: vec![TiledTileLayer { data: vec![1, 2, 3], height: 2, width: 3 }],
    };
    assert!(short.to_axial_tile_checked(0, |i| i).is_none());
}

#[test]
fn turing1_rules_are_drawn_from_the_generator() {
    let mut a = seed_rng(3);
    let mut b = seed_rng(3);
    let r1 = progenitor::turing_drawings::turing1::random_rule(&mut a);
    let r2 = progenitor::turing_drawings::turing1::random_rule(&mut b);
    assert_eq!(r1.len(), 4096);
    for i in 0..r1.len() {
        assert_eq!(r1[i].next_value, r2[i].next_value);
        assert_eq!(r1[i].next_move, r2[i].next_move);
        assert_eq!(r1[i].next_state, r2[i].next_state);
    }
    assert_eq!(a, b);
}

#[test]
fn lut_rule_step_heading_comes_from_the_drawn_byte() {
    let rule = LutRule {
        neighbourhood_features: [[0; 3]; 12],
        neighbourhood_features_thresholds: [0; 3],
        transform: [false; 8],
        change_heading: [true; 8],
    };
    let cell = tumblers::Cell { kind: tumblers::CellType::Air, heading: Some(Direction::East) };
    let nh = progenitor::coords::Neighbourhood { center: cell, neighbours: [cell; 6] };
    for seed in 0..30u64 {
        let mut a = seed_rng(seed);
        let mut b = seed_rng(seed);
        let out = rule.step(nh, &mut a);
        let byte = random_u8(&mut b) % 8;
        let expected = if byte < 6 { Some(Direction::all()[byte as usize]) } else { None };
        assert_eq!(out.heading, expected);
        assert_eq!(a, b);
    }
}
