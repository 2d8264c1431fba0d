use gruntia::data::Resources;
use gruntia::expedition::ExpeditionState;
use gruntia::map::{ExplorationMap, Tile};

/// A map of ground tiles with the given tiles placed.
fn map(width: i32, height: i32, placed: &[(i32, i32, Tile)]) -> ExplorationMap {
    let mut tiles = vec![Tile::Ground; (width * height) as usize];
    for &(x, y, t) in placed {
        tiles[(y * width + x) as usize] = t;
    }
    ExplorationMap { width, height, tiles }
}

fn expedition(m: ExplorationMap, px: i32, py: i32) -> ExpeditionState {
    ExpeditionState {
        map: m,
        player_x: px,
        player_y: py,
        turn: 1,
        energy: 3,
        deck: Vec::new(),
        hand: Vec::new(),
        discard: Vec::new(),
        cargo: Resources { wood: 0, stone: 0, food: 0 },
        enemy_hp: 0,
        block: 0,
        enemy_move_speed: 1,
        enemy_alert_range: 6,
        pending_move_card: None,
        zoom_level: 3,
        camera_x: 0,
        camera_y: 0,
    }
}

#[test]
fn tiles_are_stored_row_by_row() {
    let m = map(4, 3, &[(1, 2, Tile::Forest), (3, 0, Tile::Enemy)]);
    assert_eq!(m.index(1, 2), 9);
    assert_eq!(m.index(3, 0), 3);
    assert_eq!(m.tile_at(1, 2), Tile::Forest);
    assert_eq!(m.tile_at(3, 0), Tile::Enemy);
    assert_eq!(m.tile_at(0, 0), Tile::Ground);
}

#[test]
fn stones_enemies_and_ruins_block_movement() {
    let m = map(6, 1, &[(0, 0, Tile::Stone), (1, 0, Tile::Enemy), (2, 0, Tile::Ruin), (3, 0, Tile::Forest), (4, 0, Tile::Berry)]);
    assert!(m.is_blocking(0, 0));
    assert!(m.is_blocking(1, 0));
    assert!(m.is_blocking(2, 0));
    assert!(!m.is_blocking(3, 0));
    assert!(!m.is_blocking(4, 0));
    assert!(!m.is_blocking(5, 0));
}

#[test]
fn movement_goes_around_walls_within_its_range() {
    // A wall at x = 2 with a gap at y = 4.
    let wall: Vec<(i32, i32, Tile)> = (0..4).map(|y| (2, y, Tile::Stone)).collect();
    let m = map(5, 5, &wall);
    assert!(m.within_steps(0, 0, 1, 0, 1));
    assert!(!m.within_steps(0, 0, 0, 0, 5));
    assert!(!m.within_steps(0, 0, 3, 0, 4));
    assert!(m.within_steps(0, 0, 3, 4, 7));
    assert!(!m.within_steps(0, 0, 3, 4, 6));
    assert!(!m.within_steps(0, 0, 1, 0, 0));
    let e = expedition(m, 0, 0);
    assert!(e.can_move_to(1, 1, 2));
    assert!(!e.can_move_to(2, 1, 9));
    assert!(!e.can_move_to(0, 0, 3));
    assert!(!e.can_move_to(4, 4, 7));
    assert!(e.can_move_to(4, 4, 8));
}

#[test]
fn the_gathering_area_is_the_player_and_four_neighbours_on_the_map() {
    let e = expedition(map(3, 3, &[]), 1, 1);
    assert_eq!(e.gather_range_tiles(), vec![(1, 1), (2, 1), (0, 1), (1, 2), (1, 0)]);
    let corner = expedition(map(3, 3, &[]), 0, 0);
    assert_eq!(corner.gather_range_tiles(), vec![(0, 0), (1, 0), (0, 1)]);
    assert!(!corner.has_gather_targets());
    let with_tree = expedition(map(3, 3, &[(0, 1, Tile::Forest)]), 0, 0);
    assert!(with_tree.has_gather_targets());
    let far_tree = expedition(map(3, 3, &[(1, 1, Tile::Forest)]), 0, 0);
    assert!(!far_tree.has_gather_targets());
}

#[test]
fn gathering_collects_each_yield_and_clears_the_tiles() {
    let m = map(3, 3, &[(1, 1, Tile::Berry), (2, 1, Tile::Forest), (0, 1, Tile::Stone), (1, 0, Tile::Enemy)]);
    let mut e = expedition(m, 1, 1);
    let gained = e.gather(&vec![2, 4, 1, 0, 3]);
    assert_eq!(gained, (4, 1, 2));
    assert_eq!((e.cargo.wood, e.cargo.stone, e.cargo.food), (4, 1, 2));
    assert_eq!(e.map.tile_at(1, 1), Tile::Ground);
    assert_eq!(e.map.tile_at(2, 1), Tile::Ground);
    assert_eq!(e.map.tile_at(0, 1), Tile::Ground);
    assert_eq!(e.map.tile_at(1, 0), Tile::Enemy);
}

#[test]
fn map_view_sizes_follow_the_zoom() {
    let mut e = expedition(map(32, 24, &[]), 3, 3);
    assert_eq!(e.tile_size(), 24);
    assert_eq!(e.content_size(), (768, 576));
    assert_eq!(e.origin(1280, 588), ((1280 - 768) / 2, (588 - 576) / 2));
    e.zoom_level = 5;
    assert_eq!(e.tile_size(), 32);
    e.camera_x = 5000;
    e.camera_y = -7;
    e.clamp_camera(1280, 588);
    assert_eq!((e.camera_x, e.camera_y), (0, 0));
    e.zoom_level = 5;
    e.map = map(60, 30, &[]);
    e.camera_x = 5000;
    e.camera_y = 100;
    e.clamp_camera(1280, 588);
    assert_eq!((e.camera_x, e.camera_y), (60 * 32 - 1280, 100));
    assert_eq!(e.origin(1280, 588), (-(60 * 32 - 1280), -100));
}
