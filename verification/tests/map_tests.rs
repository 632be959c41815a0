use b_ruge::components::{Entity, Position};
use b_ruge::map::{distance_squared, GameMap, TileType, DIAGONAL_COST, STRAIGHT_COST};
use b_ruge::rectangle::Rectangle;

fn open_map(width: i32, height: i32) -> GameMap {
    GameMap::new_filled(width, height, TileType::FLOOR)
}

#[test]
fn coordinates_and_index_are_inverse() {
    let map = open_map(80, 40);
    for y in 0..40 {
        for x in 0..80 {
            let idx = map.coordinates_to_idx(x, y);
            assert_eq!(idx, (y * 80 + x) as usize);
            assert_eq!(map.idx_to_coordinates(idx), (x, y));
        }
    }
}

#[test]
fn index_formula_is_row_major() {
    let map = open_map(80, 40);
    assert_eq!(map.coordinates_to_idx(7, 3), 247);
    assert_eq!(map.idx_to_coordinates(247), (7, 3));
    assert_eq!(map.max_x(), 79);
    assert_eq!(map.max_y(), 39);
    assert_eq!(map.tile_count(), 3200);
}

#[test]
fn check_idx_rejects_the_origin() {
    let map = open_map(10, 10);
    assert!(!map.check_idx(0, 0));
    assert!(map.check_idx(1, 0));
    assert!(map.check_idx(9, 9));
    assert!(!map.check_idx(0, 10));
    assert!(!map.check_idx(-1, 0));
    assert!(map.check_has_tile(0, 0));
    assert!(!map.check_has_tile(0, 10));
}

#[test]
fn check_idx_result_gives_index_or_message() {
    let map = open_map(10, 10);
    assert_eq!(map.check_idx_result(3, 2), Ok(23));
    assert_eq!(
        map.check_idx_result(0, 0),
        Err("Index 0 is out of bounds in map 10 * 10!".to_string())
    );
    assert_eq!(
        map.check_idx_result(5, 10),
        Err("Index 105 is out of bounds in map 10 * 10!".to_string())
    );
    assert_eq!(
        map.check_idx_result(-3, 0),
        Err("Index -3 is out of bounds in map 10 * 10!".to_string())
    );
}

#[test]
fn tiles_and_flags_are_set_and_read() {
    let mut map = open_map(10, 10);
    assert_eq!(map.get_tile(2, 3), TileType::FLOOR);
    map.set_tile(2, 3, TileType::WALL);
    assert_eq!(map.get_tile(2, 3), TileType::WALL);
    assert_eq!(map.get_tile(3, 2), TileType::FLOOR);
    assert!(!map.is_tile_explored(2, 3));
    map.set_explored_tile(2, 3, true);
    assert!(map.is_tile_explored(2, 3));
    map.set_tile_in_fov(4, 4, true);
    assert!(map.is_tile_in_fov(4, 4));
    map.reset_tiles_in_fov();
    assert!(!map.is_tile_in_fov(4, 4));
    assert!(map.is_tile_explored(2, 3));
    map.set_tile_is_blocked(5, 5, true);
    assert!(map.is_tile_blocked(5, 5));
    assert!(!map.is_tile_walkable(5, 5));
    assert!(map.is_tile_walkable(5, 6));
    assert!(!map.is_tile_walkable(0, 0));
    assert!(!map.is_tile_walkable(10, 10));
}

#[test]
fn refresh_blocks_exactly_the_walls() {
    let mut map = open_map(5, 5);
    map.set_tile(1, 1, TileType::WALL);
    map.set_tile_is_blocked(3, 3, true);
    map.refresh_blocked_tiles();
    assert!(map.is_tile_blocked(1, 1));
    assert!(!map.is_tile_blocked(3, 3));
    for i in 0..25 {
        assert_eq!(map.blocked_tiles[i], map.tiles[i] == TileType::WALL);
    }
}

#[test]
fn tile_contents_are_pushed_removed_and_cleared() {
    let mut map = open_map(5, 5);
    let a = Entity { id: 1 };
    let b = Entity { id: 2 };
    map.tile_contents_push(2, 2, a);
    map.tile_contents_push(2, 2, b);
    map.tile_contents_push(2, 2, a);
    assert_eq!(map.tile_contents_get(2, 2), &vec![a, b, a]);
    map.tile_contents_remove(2, 2, a);
    assert_eq!(map.tile_contents_get(2, 2), &vec![b]);
    assert!(map.tile_contents_get(2, 3).is_empty());
    map.clear_tile_contents();
    assert!(map.tile_contents_get(2, 2).is_empty());
}

#[test]
fn exits_list_walkable_neighbours_with_costs() {
    let mut map = open_map(5, 5);
    let idx = map.coordinates_to_idx(2, 2);
    let exits = map.get_available_exits(idx);
    assert_eq!(
        exits,
        vec![
            (11, STRAIGHT_COST),
            (13, STRAIGHT_COST),
            (7, STRAIGHT_COST),
            (17, STRAIGHT_COST),
            (6, DIAGONAL_COST),
            (8, DIAGONAL_COST),
            (16, DIAGONAL_COST),
            (18, DIAGONAL_COST),
        ]
    );
    assert_eq!(STRAIGHT_COST, 100);
    assert_eq!(DIAGONAL_COST, 145);
    map.set_tile_is_blocked(1, 2, true);
    map.set_tile_is_blocked(3, 3, true);
    let exits = map.get_available_exits(idx);
    assert_eq!(
        exits,
        vec![
            (13, STRAIGHT_COST),
            (7, STRAIGHT_COST),
            (17, STRAIGHT_COST),
            (6, DIAGONAL_COST),
            (8, DIAGONAL_COST),
            (16, DIAGONAL_COST),
        ]
    );
}

#[test]
fn exits_at_the_corner_leave_out_the_origin_and_what_is_off_the_map() {
    let map = open_map(5, 5);
    let exits = map.get_available_exits(6);
    assert!(!exits.iter().any(|e| e.0 == 0));
    assert_eq!(exits.len(), 7);
    let exits = map.get_available_exits(24);
    assert_eq!(
        exits,
        vec![(23, STRAIGHT_COST), (19, STRAIGHT_COST), (18, DIAGONAL_COST)]
    );
    let exits = map.get_available_exits(10);
    assert_eq!(
        exits,
        vec![
            (11, STRAIGHT_COST),
            (5, STRAIGHT_COST),
            (15, STRAIGHT_COST),
            (6, DIAGONAL_COST),
            (16, DIAGONAL_COST),
        ]
    );
}

#[test]
fn points_off_the_map_are_not_walkable() {
    let map = open_map(5, 5);
    assert!(map.is_tile_walkable(4, 0));
    assert!(!map.is_tile_walkable(-1, 1));
    assert!(!map.is_tile_walkable(5, 0));
    assert!(!map.is_tile_walkable(2, -1));
    assert!(!map.is_tile_walkable(2, 5));
    assert!(!map.is_tile_walkable(0, 0));
    assert!(!map.check_idx(-1, 1));
    assert!(!map.check_idx(5, 0));
    assert!(map.check_idx(4, 4));
    assert_eq!(
        map.check_idx_result(-1, 1),
        Err("Index 4 is out of bounds in map 5 * 5!".to_string())
    );
}

#[test]
fn distances_are_squared() {
    let a = Position { x: 1, y: 1 };
    let b = Position { x: 4, y: 5 };
    assert_eq!(distance_squared(&a, &b), 25);
    assert_eq!(distance_squared(&b, &a), 25);
    assert_eq!(distance_squared(&a, &a), 0);
    let far = Position { x: i32::MAX, y: i32::MIN };
    let near = Position { x: i32::MIN, y: i32::MAX };
    let side = (u32::MAX as u128) * (u32::MAX as u128);
    assert_eq!(distance_squared(&far, &near), 2 * side);
    let map = open_map(10, 10);
    assert_eq!(map.get_pathing_distance_squared(0, 99), 162);
}

#[test]
fn rectangles_touching_overlap() {
    let a = Rectangle::new(0, 0, 5, 5);
    assert_eq!((a.left, a.top, a.right, a.bottom), (0, 0, 5, 5));
    let b = Rectangle::new(5, 5, 3, 3);
    assert!(a.overlaps(&b));
    assert!(b.overlaps(&a));
    let c = Rectangle::new(6, 6, 3, 3);
    assert!(!a.overlaps(&c));
    assert!(!c.overlaps(&a));
    assert!(a.overlaps(&a));
}

#[test]
fn center_is_the_integer_midpoint() {
    let a = Rectangle::new(2, 4, 7, 9);
    assert_eq!(a.center(), Position { x: 5, y: 8 });
    let b = Rectangle::new(-5, -5, 2, 2);
    assert_eq!(b.center(), Position { x: -4, y: -4 });
    let c = Rectangle::new(-3, -3, 2, 2);
    assert_eq!(c.center(), Position { x: -2, y: -2 });
    let d = Rectangle::new(-4, 0, 1, 1);
    assert_eq!(d.center(), Position { x: -3, y: 0 });
}

#[test]
fn rooms_and_corridors_are_carved() {
    let mut map = GameMap::new_filled(20, 20, TileType::WALL);
    let room = Rectangle::new(2, 2, 4, 3);
    map.draw_room(&room);
    for y in 0..20 {
        for x in 0..20 {
            let inside = x > 2 && x <= 6 && y > 2 && y <= 5;
            let expected = if inside { TileType::FLOOR } else { TileType::WALL };
            assert_eq!(map.get_tile(x, y), expected);
        }
    }
    map.draw_horizontal_intersection(10, 7, 12);
    for x in 0..20 {
        let expected = if (7..=10).contains(&x) { TileType::FLOOR } else { TileType::WALL };
        assert_eq!(map.get_tile(x, 12), expected);
    }
    map.draw_vertical_intersection(15, 18, 1);
    for y in 6..20 {
        let expected = if (15..=18).contains(&y) { TileType::FLOOR } else { TileType::WALL };
        assert_eq!(map.get_tile(1, y), expected);
    }
}

#[test]
fn corridors_stop_at_the_bounds_and_spare_the_origin() {
    let mut map = GameMap::new_filled(5, 5, TileType::WALL);
    map.draw_horizontal_intersection(-3, 2, 0);
    assert_eq!(map.get_tile(0, 0), TileType::WALL);
    assert_eq!(map.get_tile(1, 0), TileType::FLOOR);
    assert_eq!(map.get_tile(2, 0), TileType::FLOOR);
    assert_eq!(map.get_tile(3, 0), TileType::WALL);
    map.draw_vertical_intersection(3, 9, 4);
    assert_eq!(map.get_tile(4, 3), TileType::FLOOR);
    assert_eq!(map.get_tile(4, 4), TileType::FLOOR);
    assert_eq!(map.get_tile(4, 2), TileType::WALL);
}

#[test]
fn corridors_do_not_run_on_into_the_next_row() {
    let mut map = GameMap::new_filled(5, 5, TileType::WALL);
    map.draw_horizontal_intersection(3, 7, 1);
    assert_eq!(map.get_tile(3, 1), TileType::FLOOR);
    assert_eq!(map.get_tile(4, 1), TileType::FLOOR);
    for x in 0..5 {
        assert_eq!(map.get_tile(x, 2), TileType::WALL);
    }
    map.draw_horizontal_intersection(0, 4, 5);
    map.draw_horizontal_intersection(0, 4, -1);
    map.draw_vertical_intersection(0, 4, 5);
    map.draw_vertical_intersection(0, 4, -1);
    for y in 0..5 {
        for x in 0..5 {
            let expected = if y == 1 && x >= 3 { TileType::FLOOR } else { TileType::WALL };
            assert_eq!(map.get_tile(x, y), expected);
        }
    }
}

#[test]
fn draw_rooms_draws_each_room() {
    let mut map = GameMap::new_filled(20, 20, TileType::WALL);
    let a = Rectangle::new(1, 1, 3, 3);
    let b = Rectangle::new(10, 10, 2, 2);
    map.draw_rooms(&[&a, &b]);
    assert_eq!(map.get_tile(2, 2), TileType::FLOOR);
    assert_eq!(map.get_tile(12, 12), TileType::FLOOR);
    assert_eq!(map.get_tile(1, 1), TileType::WALL);
    assert_eq!(map.get_tile(7, 7), TileType::WALL);
}

#[test]
fn rooms_for_each_skips_the_first_room() {
    let mut map = GameMap::new_filled(40, 40, TileType::WALL);
    map.add_room(Rectangle::new(1, 1, 6, 6), true);
    map.add_room(Rectangle::new(10, 10, 6, 6), true);
    map.add_room(Rectangle::new(20, 20, 6, 6), false);
    let mut seen = Vec::new();
    map.rooms_for_each(|room| seen.push(room.left));
    assert_eq!(seen, vec![10, 20]);
    let mut counted = Vec::new();
    map.rooms_for_each_skip(1, |idx, room| counted.push((idx, room.left)));
    assert_eq!(counted, vec![(0, 10), (1, 20)]);
    let mut all = Vec::new();
    map.rooms_for_each_skip(0, |idx, room| all.push((idx, room.left)));
    assert_eq!(all, vec![(0, 1), (1, 10), (2, 20)]);
}
