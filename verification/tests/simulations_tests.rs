use progenitor::hexgrid_view::HexgridView;
use progenitor::axial_tile::AxialTile;
use progenitor::bit_particles::BitParticles;
use progenitor::coords::{Cube, Direction, DirectionSet, Neighbourhood, Offset};
use progenitor::falling_sand;
use progenitor::falling_sand_v2;
use progenitor::growth::{Configuration, GrowthSim};
use progenitor::hexmap;
use progenitor::pairs::{self, Params};
use progenitor::probabilities::Prob15;
use progenitor::rainfall::rainfall_map::{self, CellType, RainfallSim};
use progenitor::rainfall::symmetric_rule::SymmetricRule;
use progenitor::rng::seed_rng;
use progenitor::sunburn::SunburnWorld;
use progenitor::torus_tile::SIZE;

#[test]
fn growth_starts_with_one_cell_and_never_loses_cells() {
    let mut sim = GrowthSim::new_with_config(7, Configuration::default());
    assert_eq!(sim.count_cells(), 1);
    let center = hexmap::center(21);
    let view = sim.cell_view(center).unwrap();
    assert_eq!(view.cell_type, 1);
    assert_eq!(view.energy, Some(255));
    let mut before = sim.count_cells();
    for _ in 0..40 {
        sim.step();
        let now = sim.count_cells();
        assert!(now >= before);
        before = now;
    }
    // the seed cell keeps its rule
    assert_eq!(sim.cell_view(center).unwrap().cell_type, 1);
}

#[test]
fn growth_cell_view_outside_is_none() {
    let sim = GrowthSim::new_with_config(1, Configuration { initial_energy: 100, cell_types: 3 });
    assert!(sim.cell_view(Cube { x: -1, y: 0 }).is_none());
    assert!(sim.cell_view(Cube { x: 0, y: 0 }).is_none());
    assert_eq!(sim.count_cells(), 1);
}

#[test]
fn pairs_steps_only_freeze() {
    let params = Params { p0: 100, p1: 120, p2: 30, count0: 3, count1: 4 };
    let mut world = pairs::World::new(params);
    let mut before = world.active_count();
    assert!(before <= world.area());
    for _ in 0..4 {
        world.step();
        let now = world.active_count();
        assert!(now <= before);
        before = now;
    }
}

#[test]
fn pairs_random_params_in_range() {
    let mut rng = seed_rng(3);
    for _ in 0..20 {
        let p = pairs::random_params(&mut rng);
        assert!(p.count0 <= 6);
        assert!(p.count1 <= 6);
    }
}

#[test]
fn sunburn_has_sun_on_top_and_border_outside() {
    let mut world = SunburnWorld::new();
    let center = hexmap::center(15);
    // the blob at the center
    assert_eq!(world.cell_view(center).unwrap().cell_type, 3);
    assert!(world.cell_view(Cube { x: 0, y: 0 }).is_none());
    for _ in 0..5 {
        world.step();
    }
    assert!(world.cell_view(Cube { x: 0, y: 0 }).is_none());
}

fn count_type(world: &falling_sand::World, t: u8) -> usize {
    let mut n = 0;
    for row in 0..SIZE as i32 {
        for col in 0..SIZE as i32 {
            let pos = Cube { x: col, y: -col - row };
            if world.cell_view(pos).unwrap().cell_type == t {
                n += 1;
            }
        }
    }
    n
}

#[test]
fn falling_sand_keeps_sand_and_dust() {
    let mut world = falling_sand::World::new();
    world.seed(5);
    let sand = count_type(&world, 4);
    let dust = count_type(&world, 5);
    let grass = count_type(&world, 1);
    assert!(sand >= 5 * SIZE as usize);
    for _ in 0..10 {
        world.step();
        assert_eq!(count_type(&world, 4), sand);
        assert_eq!(count_type(&world, 5), dust);
        assert_eq!(count_type(&world, 1), grass);
    }
}

#[test]
fn falling_sand_v2_view() {
    let mut world = falling_sand_v2::World::new();
    let top = Offset { col: 23, row: 1 };
    let _ = top;
    assert!(world.cell_view(Cube { x: 0, y: 0 }).is_none());
    for _ in 0..5 {
        world.step();
    }
    assert!(world.cell_view(Cube { x: 0, y: 0 }).is_none());
    let center = hexmap::center(23);
    assert!(world.cell_view(center).is_some());
}

fn plain_rule() -> CellType {
    CellType {
        sr: SymmetricRule {
            migration_requires_src_full: false,
            migration_requires_dst_empty: false,
            prob_shuffle: Prob15::zero(),
            prob_turn: Prob15::zero(),
            prob_reflect_in: Prob15::zero(),
            prob_reflect_out: Prob15::zero(),
        },
    }
}

#[test]
fn rainfall_seed_becomes_plant() {
    let mut map = AxialTile::new(12, 12, rainfall_map::Cell::Air);
    let seed_pos = Cube { x: 5, y: -10 };
    map.set_cell(seed_pos, rainfall_map::Cell::Seed);
    let rules = [plain_rule(), plain_rule(), plain_rule(), plain_rule()];
    let config = rainfall_map::Configuration { flow_swap: false };
    let mut sim = RainfallSim::new_with_map(&map, seed_rng(1), config, rules).unwrap();
    assert_eq!(sim.plant_count(), 0);
    assert_eq!(sim.cell_view(seed_pos).unwrap().cell_type, 5);
    sim.step();
    assert_eq!(sim.plant_count(), 1);
    let view = sim.cell_view(seed_pos).unwrap();
    assert_eq!(view.cell_type, 1);
    // the storage edge became border
    assert!(sim.cell_view(Cube { x: 0, y: 0 }).is_none());
    sim.step();
    assert!(sim.plant_count() >= 1);
    assert!(sim.plant_edges() >= 6);
}

#[test]
fn rainfall_rejects_unknown_plant_rule() {
    let mut map = AxialTile::new(6, 6, rainfall_map::Cell::Air);
    map.set_cell(
        Cube { x: 2, y: -4 },
        rainfall_map::Cell::Plant(rainfall_map::PlantCell { rule: 9, mass: progenitor::bit_particles::BitParticles(0) }),
    );
    let rules = [plain_rule(), plain_rule(), plain_rule(), plain_rule()];
    let config = rainfall_map::Configuration { flow_swap: false };
    assert!(RainfallSim::new_with_map(&map, seed_rng(1), config, rules).is_none());
    let _ = Direction::East;
}

#[test]
fn cells_rectangle_covers_the_tile() {
    let mut world = falling_sand::World::new();
    world.seed(3);
    let cells = world.cells_rectangle();
    assert_eq!(cells.len(), (SIZE * SIZE) as usize);
    for row in 0..SIZE as i32 {
        for col in 0..SIZE as i32 {
            let pos = Cube::from_offset(Offset { col, row });
            let expected = world.cell_view(pos).unwrap();
            let got = cells[(row * SIZE as i32 + col) as usize];
            assert_eq!(got.cell_type, expected.cell_type);
            assert_eq!(got.energy, expected.energy);
        }
    }
}

#[test]
fn cells_rectangle_marks_missing_cells() {
    let world = falling_sand_v2::World::new();
    let cells = world.cells_rectangle();
    assert_eq!(cells.len(), 1024);
    // The origin is outside the hexagonal map: shown as type 255.
    assert!(world.cell_view(Cube { x: 0, y: 0 }).is_none());
    assert_eq!(cells[0].cell_type, 255);
    assert_eq!(cells[0].energy, None);
}

#[test]
fn rainfall_configuration_mutation() {
    let config = rainfall_map::Configuration { flow_swap: false };
    assert!(config.mutated(19, true).flow_swap);
    assert!(!config.mutated(20, true).flow_swap);
    assert!(!config.mutated(255, true).flow_swap);
    let swapped = rainfall_map::Configuration { flow_swap: true };
    assert!(!swapped.mutated(0, false).flow_swap);
    assert!(swapped.mutated(200, false).flow_swap);
    let mut rng = seed_rng(11);
    let mut c = config;
    for _ in 0..50 {
        c.mutate(&mut rng);
    }
}

#[test]
fn growth_parts_round_trip() {
    let mut sim = GrowthSim::new_with_config(3, Configuration::default());
    for _ in 0..5 {
        sim.step();
    }
    let (rng, rules, state) = sim.parts();
    let copy = AxialTile::from_parts(state.width(), state.height(), state.iter_cells().to_vec()).unwrap();
    let restored = GrowthSim::from_parts(rng.clone(), *rules, copy).unwrap();
    assert_eq!(restored.count_cells(), sim.count_cells());
    // a rule that grows a cell type that does not exist is refused
    let mut bad_rules = *rules;
    bad_rules[0].growth[0] = 200;
    let copy = AxialTile::from_parts(state.width(), state.height(), state.iter_cells().to_vec()).unwrap();
    assert!(GrowthSim::from_parts(rng.clone(), bad_rules, copy).is_none());
}

#[test]
fn falling_sand_v2_keeps_mass() {
    let mut world = falling_sand_v2::World::new();
    let total = |w: &falling_sand_v2::World| -> u32 {
        w.parts().0.iter_cells().iter().map(|h| h.mass.count() as u32).sum()
    };
    let before = total(&world);
    for _ in 0..20 {
        world.step();
        assert_eq!(total(&world), before);
    }
}

#[test]
fn symmetric_transfer_conserves_particles() {
    let rule = plain_rule().sr;
    // a has a particle moving east and one resting; b (east of a) is empty
    let a = BitParticles::new(DirectionSet::single(Direction::East), 1);
    let b = BitParticles::new(DirectionSet::none(), 0);
    let east = Direction::East.index();
    let west = Direction::West.index();
    let mut na = [None; 6];
    na[east] = Some(b);
    let mut nb = [None; 6];
    nb[west] = Some(a);
    let a2 = rule.step1_transfer(Neighbourhood { center: Some(a), neighbours: na });
    let b2 = rule.step1_transfer(Neighbourhood { center: Some(b), neighbours: nb });
    let before = a.outgoing().contains(Direction::East) as u8 + b.outgoing().contains(Direction::West) as u8;
    let after = a2.outgoing().contains(Direction::East) as u8 + b2.outgoing().contains(Direction::West) as u8;
    assert_eq!(before, after);
    // with no restrictions the particle moves across
    assert!(!a2.outgoing().contains(Direction::East));
    assert!(b2.outgoing().contains(Direction::West));
}

#[test]
fn transaction_without_conflict_always_executes() {
    // grass everywhere but one grain of sand with air below it (south-east)
    let p = Cube::from_offset(Offset { col: 10, row: 10 });
    let below = p.add_direction(Direction::SouthEast);
    let tile = progenitor::torus_tile::TorusTile::from_fn(|pos| {
        if pos == p {
            falling_sand::Cell::Sand
        } else if pos == below {
            falling_sand::Cell::Air
        } else {
            falling_sand::Cell::Grass
        }
    });
    for seed in 0..20 {
        let mut rng = seed_rng(seed);
        let next = progenitor::ca::step_torus(&tile, &falling_sand::Rule, &mut rng);
        assert_eq!(next.cell(p), falling_sand::Cell::Air);
        assert_eq!(next.cell(below), falling_sand::Cell::Sand);
    }
}

#[test]
fn falling_sand_v2_edges_are_border_hexes() {
    let mut world = falling_sand_v2::World::new();
    world.step();
    let hexes = world.parts().0;
    let (w, h) = (hexes.width(), hexes.height());
    for r in 0..h {
        for q in 0..w {
            if q == 0 || r == 0 || q == w - 1 || r == h - 1 {
                let hex = hexes.cell(Cube { x: q, y: -q - r }).unwrap();
                assert!(matches!(hex.cell, falling_sand_v2::Cell::Border));
                assert_eq!(hex.mass.0, 192);
            }
        }
    }
}

#[test]
fn rainfall_edges_are_border_without_vapour() {
    let map = AxialTile::new(9, 9, rainfall_map::Cell::Air);
    let rules = [plain_rule(), plain_rule(), plain_rule(), plain_rule()];
    let config = rainfall_map::Configuration { flow_swap: false };
    let mut sim = RainfallSim::new_with_map(&map, seed_rng(3), config, rules).unwrap();
    sim.step();
    let hexes = sim.parts().0;
    for r in 0..9 {
        for q in 0..9 {
            if q == 0 || r == 0 || q == 8 || r == 8 {
                let hex = hexes.cell(Cube { x: q, y: -q - r }).unwrap();
                assert!(matches!(hex.cell, rainfall_map::Cell::Border));
                assert_eq!(hex.vapour.0, 0);
            }
        }
    }
}

#[test]
fn rainfall_map_cells_from_tile_indices() {
    assert!(matches!(rainfall_map::map_cell(0), rainfall_map::Cell::Border));
    assert!(matches!(rainfall_map::map_cell(2), rainfall_map::Cell::Wall));
    assert!(matches!(rainfall_map::map_cell(6), rainfall_map::Cell::Air));
    assert!(matches!(rainfall_map::map_cell(10), rainfall_map::Cell::Seed));
    assert!(matches!(rainfall_map::map_cell(13), rainfall_map::Cell::Object1));
    assert!(matches!(rainfall_map::map_cell(16), rainfall_map::Cell::Object2));
    assert!(matches!(rainfall_map::map_cell(7), rainfall_map::Cell::Border));
}

#[test]
fn sunburn_steps_are_fixed_by_the_generator() {
    let world = SunburnWorld::new();
    let (cells, rng) = world.parts();
    let copy = || AxialTile::from_parts(cells.width(), cells.height(), cells.iter_cells().to_vec()).unwrap();
    let mut a = SunburnWorld::from_parts(copy(), rng.clone());
    let mut b = SunburnWorld::from_parts(copy(), rng.clone());
    for _ in 0..3 {
        a.step();
        b.step();
    }
    assert_eq!(a.parts().0.iter_cells(), b.parts().0.iter_cells());
    assert_eq!(a.parts().1, b.parts().1);
}

#[test]
fn falling_sand_v2_steps_are_fixed_by_the_generator() {
    let world = falling_sand_v2::World::new();
    let (hexes, rng) = world.parts();
    let copy = || AxialTile::from_parts(hexes.width(), hexes.height(), hexes.iter_cells().to_vec()).unwrap();
    let mut a = falling_sand_v2::World::from_parts(copy(), rng.clone());
    let mut b = falling_sand_v2::World::from_parts(copy(), rng.clone());
    for _ in 0..3 {
        a.step();
        b.step();
    }
    let va: Vec<u8> = a.parts().0.iter_cells().iter().map(|h| h.mass.0).collect();
    let vb: Vec<u8> = b.parts().0.iter_cells().iter().map(|h| h.mass.0).collect();
    assert_eq!(va, vb);
    assert_eq!(a.parts().1, b.parts().1);
}
