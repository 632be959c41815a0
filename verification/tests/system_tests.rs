use b_ruge::combat::DamageSystem;
use b_ruge::components::{Entity, Name, Position, Statistics, FOV};
use b_ruge::dialog::DialogAction;
use b_ruge::functions::VirtualKeyCode;
use b_ruge::map::{GameMap, TileType};
use b_ruge::monsters::{MonsterAI, NavigationPath};
use b_ruge::sight::FOVSystem;
use b_ruge::store::{Components, Fault, Store};
use b_ruge::systems::MapDexSystem;
use b_ruge::world::{ProcessingState, World};
use rltk::{a_star_search, BaseMap, SmallVec};

struct Walkable<'a>(&'a GameMap);

impl BaseMap for Walkable<'_> {
    fn is_opaque(&self, idx: usize) -> bool {
        self.0.is_opaque(idx)
    }

    fn get_available_exits(&self, idx: usize) -> SmallVec<[(usize, f32); 10]> {
        let mut exits = SmallVec::new();
        for (to, cost) in self.0.get_available_exits(idx) {
            exits.push((to, cost as f32 / 100.0));
        }
        exits
    }

    fn get_pathing_distance(&self, idx1: usize, idx2: usize) -> f32 {
        (self.0.get_pathing_distance_squared(idx1, idx2) as f32).sqrt()
    }
}

fn search(map: &GameMap, from: usize, to: usize) -> NavigationPath {
    let path = a_star_search(from, to, &Walkable(map));
    NavigationPath { destination: path.destination, success: path.success, steps: path.steps }
}

fn walled_room(width: i32, height: i32) -> GameMap {
    let mut map = GameMap::new_filled(width, height, TileType::FLOOR);
    for x in 0..width {
        map.set_tile(x, 0, TileType::WALL);
        map.set_tile(x, height - 1, TileType::WALL);
    }
    for y in 0..height {
        map.set_tile(0, y, TileType::WALL);
        map.set_tile(width - 1, y, TileType::WALL);
    }
    map.refresh_blocked_tiles();
    map
}

fn watcher(at: Position, range: i32) -> Components {
    let mut c = Components::new();
    c.position = Some(at);
    c.fov = Some(FOV { content: Vec::new(), range, is_dirty: true });
    c
}

fn monster(name: &str, at: Position) -> Components {
    let mut c = watcher(at, 8);
    c.monster = true;
    c.collision = true;
    c.name = Some(Name { name: name.to_string() });
    c.statistics = Some(Statistics { hp_max: 10, hp: 10, power: 2, defense: 1 });
    c
}

#[test]
fn path_between_connected_tiles_is_found() {
    let map = walled_room(20, 20);
    let start = map.coordinates_to_idx(2, 2);
    let end = map.coordinates_to_idx(15, 11);
    let path = search(&map, start, end);
    assert!(path.success);
    assert_eq!(path.steps[0], start);
    assert_eq!(*path.steps.last().unwrap(), end);
    assert_eq!(path.destination, end);
    for pair in path.steps.windows(2) {
        assert!(map.get_available_exits(pair[0]).iter().any(|e| e.0 == pair[1]));
    }
}

#[test]
fn path_to_a_tile_behind_walls_is_not_found() {
    let mut map = walled_room(20, 20);
    for y in 0..20 {
        map.set_tile(10, y, TileType::WALL);
    }
    map.refresh_blocked_tiles();
    let start = map.coordinates_to_idx(2, 2);
    let end = map.coordinates_to_idx(15, 11);
    let path = search(&map, start, end);
    assert!(!path.success);
    assert!(path.steps.is_empty());
}

#[test]
fn field_of_view_stays_on_the_map_and_behind_no_wall() {
    let mut map = walled_room(20, 20);
    for y in 0..20 {
        map.set_tile(10, y, TileType::WALL);
    }
    let mut store = Store::new();
    let eye = store.create(watcher(Position { x: 2, y: 2 }, 30));
    assert_eq!(FOVSystem::run(&mut store, &mut map), Ok(()));
    let fov = store.get(eye).unwrap().fov.as_ref().unwrap();
    assert!(!fov.is_dirty);
    assert_eq!(fov.range, 30);
    assert!(fov.content.contains(&Position { x: 2, y: 2 }));
    assert!(fov.content.contains(&Position { x: 5, y: 5 }));
    for (i, a) in fov.content.iter().enumerate() {
        for b in fov.content.iter().skip(i + 1) {
            assert_ne!(a, b);
        }
    }
    assert!(fov.content.len() > 50);
    for p in fov.content.iter() {
        assert!(p.x >= 0 && p.x < 20 && p.y >= 0 && p.y < 20);
        assert!(p.x <= 10);
    }
    for flag in map.tiles_in_fov.iter() {
        assert!(!flag);
    }
    for flag in map.explored_tiles.iter() {
        assert!(!flag);
    }
}

#[test]
fn sight_of_the_player_is_shown_on_the_map() {
    let mut map = walled_room(20, 20);
    let mut store = Store::new();
    let mut c = watcher(Position { x: 5, y: 5 }, 3);
    c.player = true;
    let player = store.create(c);
    map.set_explored_tile(18, 18, true);
    map.set_tile_in_fov(18, 18, true);
    assert_eq!(FOVSystem::run(&mut store, &mut map), Ok(()));
    let content = store.get(player).unwrap().fov.as_ref().unwrap().content.clone();
    assert!(content.contains(&Position { x: 5, y: 5 }));
    for y in 0..20 {
        for x in 0..20 {
            let seen = content.contains(&Position { x, y });
            assert_eq!(map.is_tile_in_fov(x, y), seen);
            assert_eq!(map.is_tile_explored(x, y), seen || (x == 18 && y == 18));
        }
    }
    map.set_tile_in_fov(1, 1, true);
    assert_eq!(FOVSystem::run(&mut store, &mut map), Ok(()));
    assert!(map.is_tile_in_fov(1, 1));
}

#[test]
fn sight_faults_name_the_entity() {
    let mut map = walled_room(20, 20);
    let mut store = Store::new();
    let eagle = store.create(watcher(Position { x: 2, y: 2 }, 23171));
    assert_eq!(FOVSystem::run(&mut store, &mut map), Err(Fault::Overflow(eagle)));
    let mut store = Store::new();
    let mole = store.create(watcher(Position { x: 2, y: 2 }, -23171));
    assert_eq!(FOVSystem::run(&mut store, &mut map), Err(Fault::Overflow(mole)));
    let mut store = Store::new();
    let edge = store.create(watcher(Position { x: i32::MAX, y: 2 }, 3));
    assert_eq!(FOVSystem::run(&mut store, &mut map), Err(Fault::Overflow(edge)));
    let mut store = Store::new();
    let edge = store.create(watcher(Position { x: 2, y: i32::MIN }, 3));
    assert_eq!(FOVSystem::run(&mut store, &mut map), Err(Fault::Overflow(edge)));
}

#[test]
fn observer_off_the_map_sees_what_is_seen_from_there() {
    let mut map = walled_room(20, 20);
    let mut store = Store::new();
    let far = store.create(watcher(Position { x: 45, y: 2 }, 3));
    let near = store.create(watcher(Position { x: 20, y: 2 }, 3));
    let wide = store.create(watcher(Position { x: 2, y: 2 }, 1001));
    assert_eq!(FOVSystem::run(&mut store, &mut map), Ok(()));
    let seen = store.get(far).unwrap().fov.as_ref().unwrap();
    assert!(!seen.is_dirty);
    assert!(seen.content.is_empty());
    let seen = store.get(near).unwrap().fov.as_ref().unwrap();
    assert!(!seen.is_dirty);
    let mut content = seen.content.clone();
    content.sort_by_key(|p| (p.x, p.y));
    assert_eq!(
        content,
        vec![Position { x: 19, y: 1 }, Position { x: 19, y: 2 }, Position { x: 19, y: 3 }]
    );
    let seen = store.get(wide).unwrap().fov.as_ref().unwrap();
    assert!(seen.content.contains(&Position { x: 2, y: 2 }));
    assert!(seen.content.iter().all(|p| p.x >= 0 && p.x < 20 && p.y >= 0 && p.y < 20));
}

#[test]
fn map_is_rebuilt_from_walls_and_entities() {
    let mut map = walled_room(10, 10);
    let mut store = Store::new();
    let here = Position { x: 3, y: 3 };
    let blocker = store.create(monster("Goblin", here));
    let mut thing = Components::new();
    thing.position = Some(here);
    let thing = store.create(thing);
    let mut far = Components::new();
    far.position = Some(Position { x: 5, y: 6 });
    let far = store.create(far);
    store.create(Components::new());
    map.set_tile_is_blocked(7, 7, true);
    map.tile_contents_push(8, 8, Entity { id: 42 });
    assert_eq!(MapDexSystem::run(&store, &mut map), Ok(()));
    assert!(map.is_tile_blocked(3, 3));
    assert!(!map.is_tile_blocked(5, 6));
    assert!(!map.is_tile_blocked(7, 7));
    assert!(map.is_tile_blocked(0, 4));
    assert_eq!(map.tile_contents_get(3, 3), &vec![blocker, thing]);
    assert_eq!(map.tile_contents_get(5, 6), &vec![far]);
    assert!(map.tile_contents_get(8, 8).is_empty());
    let lost = store.create(watcher(Position { x: 0, y: 10 }, 1));
    assert_eq!(MapDexSystem::run(&store, &mut map), Err(Fault::OffMap(lost)));
}

#[test]
fn monster_next_to_the_player_attacks() {
    let mut map = walled_room(10, 10);
    let mut store = Store::new();
    let player = Entity { id: 9 };
    let near = store.create(monster("Goblin", Position { x: 4, y: 4 }));
    let other = store.create(monster("Gremlin", Position { x: 6, y: 5 }));
    let target = Position { x: 5, y: 5 };
    let state = ProcessingState::MonsterTurn;
    assert_eq!(MonsterAI::run(&mut store, &mut map, &target, &player, &state, search), Ok(()));
    assert_eq!(store.get(near).unwrap().melee_attack.unwrap().target, player);
    assert!(store.get(other).unwrap().melee_attack.is_none());
    assert_eq!(store.get(near).unwrap().position, Some(Position { x: 4, y: 4 }));
}

#[test]
fn monster_that_sees_the_player_steps_towards_it() {
    let mut map = walled_room(12, 12);
    let mut store = Store::new();
    let player = Entity { id: 9 };
    let target = Position { x: 8, y: 5 };
    let mut c = monster("Goblin", Position { x: 2, y: 5 });
    c.fov = Some(FOV { content: vec![target], range: 8, is_dirty: false });
    let goblin = store.create(c);
    let blind = store.create(monster("Gremlin", Position { x: 2, y: 8 }));
    assert_eq!(MapDexSystem::run(&store, &mut map), Ok(()));
    assert!(map.is_tile_blocked(2, 5));
    let state = ProcessingState::MonsterTurn;
    assert_eq!(MonsterAI::run(&mut store, &mut map, &target, &player, &state, search), Ok(()));
    let moved = store.get(goblin).unwrap();
    assert_eq!(moved.position, Some(Position { x: 3, y: 5 }));
    assert!(moved.fov.as_ref().unwrap().is_dirty);
    assert!(moved.melee_attack.is_none());
    assert!(!map.is_tile_blocked(2, 5));
    assert!(map.is_tile_blocked(3, 5));
    assert_eq!(store.get(blind).unwrap().position, Some(Position { x: 2, y: 8 }));
}

#[test]
fn attack_of_an_adjacent_monster_leaves_the_blocked_tiles() {
    let mut map = walled_room(10, 10);
    let mut store = Store::new();
    let player = Entity { id: 9 };
    let near = store.create(monster("Goblin", Position { x: 5, y: 4 }));
    assert_eq!(MapDexSystem::run(&store, &mut map), Ok(()));
    let blocked = map.blocked_tiles.clone();
    let target = Position { x: 5, y: 5 };
    let state = ProcessingState::MonsterTurn;
    assert_eq!(MonsterAI::run(&mut store, &mut map, &target, &player, &state, search), Ok(()));
    assert_eq!(map.blocked_tiles, blocked);
    assert_eq!(store.get(near).unwrap().melee_attack.unwrap().target, player);
    assert_eq!(store.get(near).unwrap().position, Some(Position { x: 5, y: 4 }));
}

#[test]
fn monsters_turn_fails_where_a_chaser_or_the_player_is_off_the_map() {
    let player = Entity { id: 9 };
    let state = ProcessingState::MonsterTurn;
    let mut map = walled_room(10, 10);
    let mut store = Store::new();
    let target = Position { x: 5, y: 5 };
    let mut c = monster("Goblin", Position { x: 2, y: 40 });
    c.fov = Some(FOV { content: vec![target], range: 8, is_dirty: false });
    let lost = store.create(c);
    assert_eq!(
        MonsterAI::run(&mut store, &mut map, &target, &player, &state, search),
        Err(Fault::OffMap(lost))
    );
    let mut store = Store::new();
    let target = Position { x: 5, y: 50 };
    let mut c = monster("Goblin", Position { x: 2, y: 2 });
    c.fov = Some(FOV { content: vec![target], range: 8, is_dirty: false });
    store.create(c);
    assert_eq!(
        MonsterAI::run(&mut store, &mut map, &target, &player, &state, search),
        Err(Fault::OffMap(player))
    );
}

#[test]
fn monsters_wait_for_their_turn() {
    let mut map = walled_room(10, 10);
    let mut store = Store::new();
    let player = Entity { id: 9 };
    let near = store.create(monster("Goblin", Position { x: 4, y: 4 }));
    let target = Position { x: 5, y: 5 };
    for state in [
        ProcessingState::Internal,
        ProcessingState::PlayerTurn,
        ProcessingState::WaitingForInput,
        ProcessingState::Dialog,
    ] {
        assert_eq!(
            MonsterAI::run(&mut store, &mut map, &target, &player, &state, search),
            Ok(())
        );
        assert!(store.get(near).unwrap().melee_attack.is_none());
    }
}

#[test]
fn following_a_path_moves_one_step() {
    let mut map = walled_room(10, 10);
    let mut store = Store::new();
    let goblin = store.create(monster("Goblin", Position { x: 2, y: 2 }));
    map.set_tile_is_blocked(2, 2, true);
    let path = NavigationPath { destination: 44, success: true, steps: vec![22, 33, 44] };
    assert_eq!(MonsterAI::follow_path(&mut store, &mut map, goblin, &path), Ok(true));
    assert_eq!(store.get(goblin).unwrap().position, Some(Position { x: 3, y: 3 }));
    assert!(!map.is_tile_blocked(2, 2));
    assert!(map.is_tile_blocked(3, 3));
    let failed = NavigationPath { destination: 44, success: false, steps: vec![33, 44] };
    assert_eq!(MonsterAI::follow_path(&mut store, &mut map, goblin, &failed), Ok(false));
    let short = NavigationPath { destination: 33, success: true, steps: vec![33] };
    assert_eq!(MonsterAI::follow_path(&mut store, &mut map, goblin, &short), Ok(false));
    assert_eq!(store.get(goblin).unwrap().position, Some(Position { x: 3, y: 3 }));
    let wild = NavigationPath { destination: 0, success: true, steps: vec![33, 100] };
    assert_eq!(
        MonsterAI::follow_path(&mut store, &mut map, goblin, &wild),
        Err(Fault::OffMap(goblin))
    );
    let gone = Entity { id: 70 };
    assert_eq!(
        MonsterAI::follow_path(&mut store, &mut map, gone, &path),
        Err(Fault::MissingPosition(gone))
    );
}

#[test]
fn the_defeated_are_removed_and_the_player_gets_a_dialog() {
    let map = walled_room(10, 10);
    let mut world = World::new(map);
    let mut dead = monster("Goblin", Position { x: 2, y: 2 });
    dead.statistics = Some(Statistics { hp_max: 10, hp: 0, power: 2, defense: 1 });
    let dead = world.store.create(dead);
    let alive = world.store.create(monster("Gremlin", Position { x: 3, y: 3 }));
    let mut nameless = monster("", Position { x: 4, y: 4 });
    nameless.name = None;
    nameless.statistics = Some(Statistics { hp_max: 10, hp: -3, power: 2, defense: 1 });
    let nameless = world.store.create(nameless);
    DamageSystem::clean_up(&mut world);
    assert!(!world.store.is_alive(dead));
    assert!(world.store.is_alive(alive));
    assert!(world.store.is_alive(nameless));
    assert_eq!(world.game_log.messages, vec!["Goblin has died"]);
    assert!(world.dialog.is_none());
    let mut hero = monster("Rouge", Position { x: 5, y: 5 });
    hero.monster = false;
    hero.player = true;
    hero.statistics = Some(Statistics { hp_max: 30, hp: 0, power: 5, defense: 2 });
    let hero = world.store.create(hero);
    DamageSystem::clean_up(&mut world);
    assert!(world.store.is_alive(hero));
    assert_eq!(world.game_log.messages, vec!["Goblin has died"]);
    let dialog = world.dialog.as_ref().unwrap();
    assert_eq!(dialog.title, "An untimely end");
    assert_eq!(
        dialog.message.as_deref(),
        Some("You have died while exploring the dungeon! Restart the game and try again.")
    );
    assert!(!dialog.cancelable);
    assert_eq!(dialog.options.len(), 1);
    assert_eq!(dialog.options[0].description, "Quit the game");
    assert_eq!(dialog.options[0].key, VirtualKeyCode::Q);
    assert_eq!(dialog.options[0].action, DialogAction::Quit);
    assert_eq!(dialog.select(Some(VirtualKeyCode::Escape)), None);
}
