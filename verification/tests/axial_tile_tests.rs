use progenitor::coords::{Cube, Direction, Offset};
use progenitor::hexmap;
use progenitor::AxialTile;

#[test]
fn test_count_edges() {
    for offset in Direction::all() {
        let mut cells = AxialTile::new(20, 30, 0);
        let center: Cube = Cube::from_offset(Offset { col: 5, row: 5 });
        cells.set_cell(center, 1);
        cells.set_cell(center.add_direction(offset), 2);

        // no edges
        assert_eq!(cells.count_edges(|_| false), 0);
        assert_eq!(cells.count_edges(|_| true), 0);
        // hex in center to its neighbours (each counted twice)
        assert_eq!(cells.count_edges(|i| i == 1), 6);
        assert_eq!(cells.count_edges(|i| i != 1), 6);
        // two adjacent hexes
        assert_eq!(cells.count_edges(|i| i != 0), 6 + 6 - 2);
    }
}

#[test]
fn contains_all_hexes() {
    let radius = 1;
    let map = hexmap::new(radius, 0, |_| 1);
    assert_eq!(map.iter_cells().iter().sum::<i32>(), 6 + 1);
}

#[test]
fn contains_all_borders() {
    let radius = 1;
    let map = hexmap::new(radius, 0, |_| 1);

    let is_outside = |value| value == 0;
    let cells_adjacent_to_border = map
        .iter_valid_neighbourhoods()
        .into_iter()
        .filter(|l| !is_outside(l.center))
        .filter(|l| l.neighbours.into_iter().any(is_outside))
        .count();
    assert_eq!(cells_adjacent_to_border, 6)
}

#[test]
fn validate_distances() {
    let radius = 3;

    let map = hexmap::new(radius, 0, |loc| {
        assert!(loc.dist_from_center() <= 3);
        assert!(loc.dist_from_top() <= 6);
        assert!(loc.dist_from_bottom() <= 6);
        if loc.dist_from_center() == 0 {
            assert_eq!(loc.dist_from_bottom(), loc.dist_from_top());
        }
        loc.dist_from_top()
    });
    let max_dist_from_top = *map.iter_cells().iter().max().unwrap();
    assert_eq!(max_dist_from_top, 6);

    let second_row_length = map
        .iter_cells()
        .iter()
        .filter(|&&dist_from_top| dist_from_top == 1)
        .count();
    assert_eq!(second_row_length, (radius + 2) as usize);
}

#[test]
fn cell_and_valid_follow_the_tile_bounds() {
    let mut tile = AxialTile::new(4, 3, 7u8);
    let pos = Cube { x: 3, y: -5 };
    assert!(tile.valid(pos));
    assert_eq!(tile.cell(pos), Some(7));
    tile.set_cell(pos, 9);
    assert_eq!(tile.cell(pos), Some(9));
    assert_eq!(tile.iter_cells()[2 * 4 + 3], 9);
    assert!(!tile.valid(Cube { x: 4, y: -4 }));
    assert_eq!(tile.cell(Cube { x: -1, y: 1 }), None);
    assert_eq!(tile.area(), 12);
    let vp = tile.viewport();
    assert_eq!((vp.width, vp.height), (4 + 1, 3));
}

#[test]
fn from_fn_stores_rows_of_axial_q() {
    let tile = AxialTile::from_fn(3, 2, |pos: Cube| pos.x * 10 + pos.z());
    assert_eq!(tile.iter_cells(), &[0, 10, 20, 1, 11, 21]);
}

#[test]
fn neighbourhood_only_for_interior_cells() {
    let tile = AxialTile::from_fn(4, 4, |pos: Cube| (pos.z() * 4 + pos.x) as u8);
    assert!(tile.neighbourhood(Cube { x: 0, y: -1 }).is_none());
    let nh = tile.neighbourhood(Cube { x: 1, y: -2 }).unwrap();
    assert_eq!(nh.center, 5);
    assert_eq!(nh.neighbours, [1, 2, 6, 9, 8, 4]);
    assert_eq!(tile.iter_valid_neighbourhoods().len(), 4);
}

#[test]
fn ca_step_fills_the_border() {
    let tile = AxialTile::new(5, 4, 1u8);
    let next = tile.ca_step(0u8, |nh| nh.center + nh.neighbours[0]);
    let cells = next.iter_cells();
    assert_eq!(cells[0], 0);
    assert_eq!(cells[5 + 1], 2);
    assert_eq!(cells[5 + 4], 0);
    assert_eq!(cells.iter().filter(|&&c| c == 2).count(), 3 * 2);
}

#[test]
fn hexmap_center_and_viewport() {
    assert_eq!(hexmap::center(3), Cube { x: 4, y: -8 });
    let vp = hexmap::viewport(3);
    assert_eq!(vp.width, 7);
    assert_eq!(vp.height, 7);
    assert_eq!(vp.pos, Cube { x: 2, y: -3 });
}

#[test]
fn neighbour_iterators_count_down() {
    let torus = progenitor::torus_tile::TorusTile::new(0u8);
    let mut it = torus.iter_radius_1();
    assert_eq!(it.size_hint(), (1024, Some(1024)));
    for j in 1..=1024usize {
        assert!(it.next().is_some());
        assert_eq!(it.size_hint(), (1024 - j, Some(1024 - j)));
    }
    assert!(it.next().is_none());
    assert_eq!(it.size_hint(), (0, Some(0)));

    let tile = progenitor::tile::Tile::new(0u8);
    let mut it = tile.iter_radius_1();
    for j in 1..=10usize {
        assert!(it.next().is_some());
        assert_eq!(it.size_hint(), (1024 - j, Some(1024 - j)));
    }
}

#[test]
fn edge_count_laws_on_a_tile() {
    let mut cells = AxialTile::new(7, 6, 0u8);
    cells.set_cell(Cube::from_offset(Offset { col: 3, row: 3 }), 1);
    cells.set_cell(Cube::from_offset(Offset { col: 2, row: 2 }), 1);
    // negating the predicate keeps the count
    assert_eq!(cells.count_edges(|c| c == 1), cells.count_edges(|c| c != 1));
    // a constant predicate separates nothing
    assert_eq!(cells.count_edges(|_| true), 0);
    // at most three edges per interior cell
    assert!(cells.count_edges(|c| c == 1) <= 3 * (7 - 2) * (6 - 2));
}
