use b_ruge::config;
use b_ruge::map::{GameMap, TileType};
use b_ruge::rectangle::Rectangle;
use rltk::RandomNumberGenerator;

fn reachable_from(map: &GameMap, start: (i32, i32)) -> Vec<bool> {
    let mut seen = vec![false; map.tile_count()];
    let mut stack = vec![start];
    while let Some((x, y)) = stack.pop() {
        if x < 0 || y < 0 || x >= map.width || y >= map.height {
            continue;
        }
        let idx = map.coordinates_to_idx(x, y);
        if seen[idx] || map.get_tile(x, y) != TileType::FLOOR {
            continue;
        }
        seen[idx] = true;
        stack.push((x + 1, y));
        stack.push((x - 1, y));
        stack.push((x, y + 1));
        stack.push((x, y - 1));
    }
    seen
}

fn check_layout(map: &GameMap) {
    assert!(map.rooms.len() <= config::MAX_ROOMS as usize);
    for (i, a) in map.rooms.iter().enumerate() {
        assert!(a.left >= 0 && a.right < map.width - 1);
        assert!(a.top >= 0 && a.bottom < map.height - 1);
        let width = a.right - a.left;
        let height = a.bottom - a.top;
        assert!(width >= config::MIN_ROOM_SIZE && width < config::MAX_ROOM_SIZE);
        assert!(height >= config::MIN_ROOM_SIZE && height < config::MAX_ROOM_SIZE);
        for (j, b) in map.rooms.iter().enumerate() {
            if i != j {
                assert!(!a.overlaps(b));
            }
        }
    }
    if map.rooms.is_empty() {
        return;
    }
    let first = map.rooms[0].center();
    let seen = reachable_from(map, (first.x, first.y));
    for room in map.rooms.iter() {
        for x in room.left + 1..=room.right {
            for y in room.top + 1..=room.bottom {
                assert_eq!(map.get_tile(x, y), TileType::FLOOR);
                assert!(seen[map.coordinates_to_idx(x, y)]);
            }
        }
    }
    for flag in map.explored_tiles.iter() {
        assert!(!flag);
    }
    for flag in map.blocked_tiles.iter() {
        assert!(!flag);
    }
}

#[test]
fn generated_rooms_do_not_overlap_and_are_connected() {
    for seed in 0..40u64 {
        let mut rng = RandomNumberGenerator::seeded(seed);
        let map = GameMap::new_map_with_rooms_from(80, 40, &mut rng);
        assert_eq!(map.width, 80);
        assert_eq!(map.height, 40);
        assert!(!map.rooms.is_empty());
        check_layout(&map);
    }
}

fn between(v: i32, a: i32, b: i32) -> bool {
    a.min(b) <= v && v <= a.max(b)
}

#[test]
fn generated_maps_have_walls_outside_of_rooms_and_corridors() {
    for seed in 0..20u64 {
        let mut rng = RandomNumberGenerator::seeded(seed);
        let map = GameMap::new_map_with_rooms_from(80, 40, &mut rng);
        let mut floors = 0;
        for y in 0..map.height {
            for x in 0..map.width {
                if map.get_tile(x, y) == TileType::WALL {
                    continue;
                }
                floors += 1;
                let in_room = map
                    .rooms
                    .iter()
                    .any(|r| r.left < x && x <= r.right && r.top < y && y <= r.bottom);
                let in_corridor = map.rooms.windows(2).any(|pair| {
                    let from = pair[0].center();
                    let to = pair[1].center();
                    ((y == from.y || y == to.y) && between(x, from.x, to.x))
                        || ((x == from.x || x == to.x) && between(y, from.y, to.y))
                });
                assert!(in_room || in_corridor);
            }
        }
        assert!(floors > 0);
        for x in 0..map.width {
            assert_eq!(map.get_tile(x, 0), TileType::WALL);
            assert_eq!(map.get_tile(x, map.height - 1), TileType::WALL);
        }
        for y in 0..map.height {
            assert_eq!(map.get_tile(0, y), TileType::WALL);
            assert_eq!(map.get_tile(map.width - 1, y), TileType::WALL);
        }
    }
}

#[test]
fn generated_maps_differ_with_the_seed() {
    let mut first = RandomNumberGenerator::seeded(1);
    let mut second = RandomNumberGenerator::seeded(2);
    let a = GameMap::new_map_with_rooms_from(80, 40, &mut first);
    let b = GameMap::new_map_with_rooms_from(80, 40, &mut second);
    assert_ne!(a.tiles, b.tiles);
    let mut again = RandomNumberGenerator::seeded(1);
    let c = GameMap::new_map_with_rooms_from(80, 40, &mut again);
    assert_eq!(a.tiles, c.tiles);
    assert_eq!(a.rooms, c.rooms);
}

#[test]
fn smallest_map_is_generated() {
    let mut rng = RandomNumberGenerator::seeded(7);
    let map = GameMap::new_map_with_rooms_from(11, 11, &mut rng);
    check_layout(&map);
    assert_eq!(map.rooms.len(), 1);
}

#[test]
fn map_from_the_system_generator_is_laid_out() {
    let map = GameMap::new_map_with_rooms(config::MAP_WIDTH, config::MAP_HEIGHT);
    check_layout(&map);
}

#[test]
fn room_that_overlaps_does_not_fit() {
    let mut map = GameMap::new_filled(40, 40, TileType::WALL);
    let first = Rectangle::new(5, 5, 6, 6);
    assert!(map.room_fits(&first));
    map.add_room(first, true);
    assert!(!map.room_fits(&Rectangle::new(11, 11, 6, 6)));
    assert!(!map.room_fits(&Rectangle::new(0, 0, 5, 5)));
    assert!(map.room_fits(&Rectangle::new(12, 12, 6, 6)));
}

#[test]
fn corridor_is_horizontal_first_or_vertical_first() {
    let first = Rectangle::new(2, 2, 6, 6);
    let second = Rectangle::new(20, 20, 6, 6);
    let mut map = GameMap::new_filled(40, 40, TileType::WALL);
    map.add_room(first, true);
    map.add_room(second, true);
    assert_eq!(map.get_tile(15, 5), TileType::FLOOR);
    assert_eq!(map.get_tile(23, 15), TileType::FLOOR);
    assert_eq!(map.get_tile(5, 15), TileType::WALL);
    assert_eq!(map.get_tile(15, 23), TileType::WALL);
    let mut map = GameMap::new_filled(40, 40, TileType::WALL);
    map.add_room(first, false);
    map.add_room(second, false);
    assert_eq!(map.get_tile(5, 15), TileType::FLOOR);
    assert_eq!(map.get_tile(15, 23), TileType::FLOOR);
    assert_eq!(map.get_tile(15, 5), TileType::WALL);
    assert_eq!(map.get_tile(23, 15), TileType::WALL);
    assert_eq!(map.rooms, vec![first, second]);
}

#[test]
fn test_map_has_walls_on_its_edge() {
    let map = GameMap::new_map_test(80, 50);
    for x in 0..80 {
        assert_eq!(map.get_tile(x, 0), TileType::WALL);
        assert_eq!(map.get_tile(x, 49), TileType::WALL);
    }
    for y in 0..50 {
        assert_eq!(map.get_tile(0, y), TileType::WALL);
        assert_eq!(map.get_tile(79, y), TileType::WALL);
    }
    assert_eq!(map.get_tile(40, 25), TileType::FLOOR);
    assert!(map.rooms.is_empty());
    let walls = map.tiles.iter().filter(|t| **t == TileType::WALL).count();
    assert!(walls > 2 * 80 + 2 * 48);
}
