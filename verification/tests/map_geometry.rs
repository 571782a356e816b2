use engine::geometry::{dir_to_point, get_neighbors, normalize, point_diff, point_plus, Point};
use engine::map::{TileMap, TileType};
use engine::screen::get_map_coords_for_screen;

#[test]
fn new_map_is_uniform() {
    let m = TileMap::new(3, TileType::Wall, (4, 3));
    assert_eq!(m.width, 4);
    assert_eq!(m.height, 3);
    assert_eq!(m.depth, 3);
    assert_eq!(m.tiles.len(), 12);
    assert!(m.tiles.iter().all(|t| *t == TileType::Wall));
    assert!(m.blocked.iter().all(|b| !*b));
    assert!(m.tile_content.iter().all(|c| c.is_empty()));
    assert!(m.fire_turns.iter().all(|f| *f == 0));
}

#[test]
fn index_is_row_by_row() {
    let m = TileMap::new(1, TileType::Floor, (10, 5));
    assert_eq!(m.xy_idx(0, 0), 0);
    assert_eq!(m.xy_idx(3, 2), 23);
    assert_eq!(m.xy_idx(9, 4), 49);
    assert_eq!(m.point_idx(Point::new(7, 1)), 17);
}

#[test]
fn index_round_trip() {
    let m = TileMap::new(1, TileType::Floor, (7, 6));
    for y in 0..6 {
        for x in 0..7 {
            let idx = m.xy_idx(x, y);
            assert_eq!(m.idx_xy(idx), (x, y));
            assert_eq!(m.idx_point(idx), Point::new(x, y));
        }
    }
    for idx in 0..42usize {
        let (x, y) = m.idx_xy(idx);
        assert_eq!(m.xy_idx(x, y), idx);
    }
}

#[test]
fn bounds() {
    let m = TileMap::new(1, TileType::Floor, (5, 4));
    assert!(m.in_bounds(0, 0));
    assert!(m.in_bounds(4, 3));
    assert!(!m.in_bounds(5, 0));
    assert!(!m.in_bounds(0, 4));
    assert!(!m.in_bounds(-1, 2));
    assert!(!m.in_bounds(2, -1));
}

#[test]
fn blocked_flag_blocks_movement() {
    let mut m = TileMap::new(1, TileType::Floor, (3, 3));
    m.blocked[4] = true;
    assert!(m.blocks_movement(4));
    assert!(!m.blocks_movement(3));
}

#[test]
fn flammable_tiles() {
    assert!(TileType::Grass.is_flammable());
    assert!(TileType::Wheat.is_flammable());
    assert!(TileType::WoodWall.is_flammable());
    assert!(TileType::WoodDoor.is_flammable());
    assert!(TileType::WoodFloor.is_flammable());
    assert!(!TileType::Wall.is_flammable());
    assert!(!TileType::Water.is_flammable());
    assert!(!TileType::Dirt.is_flammable());
    assert!(!TileType::Floor.is_flammable());
    let mut m = TileMap::new(1, TileType::Floor, (2, 1));
    m.tiles[1] = TileType::Grass;
    assert!(!m.is_flammable(0));
    assert!(m.is_flammable(1));
}

#[test]
fn normalize_keeps_sign() {
    assert_eq!(normalize(17), 1);
    assert_eq!(normalize(-3), -1);
    assert_eq!(normalize(0), 0);
    assert_eq!(normalize(i32::MIN), -1);
}

#[test]
fn point_arithmetic() {
    assert_eq!(point_plus(Point::new(2, 3), Point::new(-1, 4)), Point::new(1, 7));
    assert_eq!(point_diff(Point::new(2, 3), Point::new(-1, 4)), Point::new(-3, 1));
    assert_eq!(Point::invalid_point(), Point::new(0, 0));
}

#[test]
fn keypad_directions() {
    let o = Point::new(10, 10);
    assert_eq!(dir_to_point(o, 1, 1), Point::new(9, 11));
    assert_eq!(dir_to_point(o, 2, 1), Point::new(10, 11));
    assert_eq!(dir_to_point(o, 3, 1), Point::new(11, 11));
    assert_eq!(dir_to_point(o, 4, 1), Point::new(9, 10));
    assert_eq!(dir_to_point(o, 6, 1), Point::new(11, 10));
    assert_eq!(dir_to_point(o, 7, 1), Point::new(9, 9));
    assert_eq!(dir_to_point(o, 8, 1), Point::new(10, 9));
    assert_eq!(dir_to_point(o, 9, 3), Point::new(13, 7));
    assert_eq!(dir_to_point(o, 4, 0), o);
}

#[test]
fn neighbors_are_the_eight_adjacent_cells() {
    let p = Point::new(5, 5);
    let n = get_neighbors(p);
    assert_eq!(n.len(), 8);
    for q in n.iter() {
        assert!((q.x - p.x).abs() <= 1 && (q.y - p.y).abs() <= 1);
        assert!(*q != p);
    }
    assert_eq!(n[0], Point::new(4, 4));
    assert_eq!(n[1], Point::new(4, 5));
    assert_eq!(n[2], Point::new(4, 6));
    let mut sorted = n.clone();
    sorted.sort_by_key(|q| (q.x, q.y));
    sorted.dedup();
    assert_eq!(sorted.len(), 8);
}

#[test]
fn window_centres_on_focus() {
    // 31 + 40 columns and 11 + 20 rows: half widths 20 and 10
    assert_eq!(get_map_coords_for_screen(Point::new(100, 40), (71, 31)), (80, 120, 30, 50));
}

#[test]
fn window_pushed_back_at_left_and_top() {
    assert_eq!(get_map_coords_for_screen(Point::new(5, 3), (71, 31)), (0, 40, 0, 20));
}

#[test]
fn window_pushed_back_at_right_and_bottom() {
    // max x would be 215 > 200: the window moves left by 15 and ends at 199
    assert_eq!(get_map_coords_for_screen(Point::new(195, 78), (71, 31)), (160, 199, 60, 79));
}

#[test]
fn walls_and_water_block_by_themselves() {
    let mut m = TileMap::new(1, TileType::Floor, (4, 1));
    m.tiles[0] = TileType::Wall;
    m.tiles[1] = TileType::Water;
    m.tiles[2] = TileType::WoodWall;
    m.blocked[3] = true;
    m.set_blocked();
    assert_eq!(m.blocked, vec![true, true, true, false]);
}

#[test]
fn window_touching_the_far_edges_stays_on_the_map() {
    // The window would end exactly on column 200 and row 80: it ends on
    // the last column and row instead.
    assert_eq!(get_map_coords_for_screen(Point::new(180, 70), (71, 31)), (160, 199, 60, 79));
    assert_eq!(get_map_coords_for_screen(Point::new(150, 40), (131, 31)), (100, 199, 30, 50));
}
