use b_ruge::components::{Entity, Loot, MeleeAttack, Name, Position, Ranged, Statistics, UseItem, FOV};
use b_ruge::dialog::{DialogAction, DialogInterface, DialogOption, DialogResult};
use b_ruge::functions::VirtualKeyCode;
use b_ruge::map::{GameMap, TileType};
use b_ruge::monsters::NavigationPath;
use b_ruge::player::{
    handle_new_click_to_move, key_action, pick_up_item, player_handle_input, player_move,
    player_move_click, register_pause_dialog, show_inventory, Input, PlayerAction,
};
use b_ruge::state::{resolve_turn, State};
use b_ruge::store::{Components, Fault};
use b_ruge::ui_controller::{
    cells_in_range, draw_player_ranged_targeting, draw_tooltips, is_within_range,
    TargetSelectionState,
};
use b_ruge::world::{ProcessingState, World};
use rltk::{a_star_search, BaseMap, SmallVec};

struct Walkable<'a>(&'a GameMap);

impl BaseMap for Walkable<'_> {
    fn get_available_exits(&self, idx: usize) -> SmallVec<[(usize, f32); 10]> {
        let mut exits = SmallVec::new();
        for (to, cost) in self.0.get_available_exits(idx) {
            exits.push((to, cost as f32 / 100.0));
        }
        exits
    }

    fn get_pathing_distance(&self, idx1: usize, idx2: usize) -> f32 {
        (self.0.get_pathing_distance_squared(idx1, idx2) as f32).sqrt()
    }
}

fn search(map: &GameMap, from: usize, to: usize) -> NavigationPath {
    let path = a_star_search(from, to, &Walkable(map));
    NavigationPath { destination: path.destination, success: path.success, steps: path.steps }
}

fn walled_room(width: i32, height: i32) -> GameMap {
    let mut map = GameMap::new_filled(width, height, TileType::FLOOR);
    for x in 0..width {
        map.set_tile(x, 0, TileType::WALL);
        map.set_tile(x, height - 1, TileType::WALL);
    }
    for y in 0..height {
        map.set_tile(0, y, TileType::WALL);
        map.set_tile(width - 1, y, TileType::WALL);
    }
    map.refresh_blocked_tiles();
    map
}

fn creature(name: &str, at: Position, hp: i32, power: i32, defense: i32) -> Components {
    let mut c = Components::new();
    c.name = Some(Name { name: name.to_string() });
    c.position = Some(at);
    c.statistics = Some(Statistics { hp_max: hp, hp, power, defense });
    c.fov = Some(FOV { content: Vec::new(), range: 8, is_dirty: true });
    c
}

fn world_with_player(at: Position) -> (World, Entity) {
    let mut world = World::new(walled_room(20, 20));
    let mut c = creature("Rouge", at, 30, 5, 2);
    c.player = true;
    let player = world.store.create(c);
    world.player = player;
    world.player_position = at;
    (world, player)
}

fn add_monster(world: &mut World, at: Position) -> Entity {
    let mut c = creature("Goblin", at, 10, 2, 1);
    c.monster = true;
    c.collision = true;
    world.store.create(c)
}

fn no_input() -> Input {
    Input { key: None, mouse: Position { x: 0, y: 0 }, left_click: false, shift: false }
}

fn key(key: VirtualKeyCode) -> Input {
    Input { key: Some(key), mouse: Position { x: 0, y: 0 }, left_click: false, shift: false }
}

fn hp_of(world: &World, entity: Entity) -> i32 {
    world.store.get(entity).unwrap().statistics.unwrap().hp
}

#[test]
fn player_attacks_and_the_monster_dies_in_the_end() {
    let (world, player) = world_with_player(Position { x: 5, y: 5 });
    let mut state = State { ecs: world };
    let monster = add_monster(&mut state.ecs, Position { x: 6, y: 5 });
    assert_eq!(state.ecs.state, ProcessingState::Internal);
    state.tick(&no_input(), search).unwrap();
    assert_eq!(state.ecs.state, ProcessingState::WaitingForInput);
    assert!(state.ecs.map.is_tile_blocked(6, 5));
    state.tick(&key(VirtualKeyCode::D), search).unwrap();
    assert_eq!(state.ecs.state, ProcessingState::PlayerTurn);
    assert_eq!(
        state.ecs.store.get(player).unwrap().melee_attack,
        Some(MeleeAttack { target: monster })
    );
    assert_eq!(state.ecs.store.get(player).unwrap().position, Some(Position { x: 5, y: 5 }));
    state.tick(&no_input(), search).unwrap();
    assert_eq!(state.ecs.state, ProcessingState::MonsterTurn);
    assert_eq!(hp_of(&state.ecs, monster), 6);
    assert!(state.ecs.game_log.messages.contains(&"Rouge hits Goblin for 4 damage!".to_string()));
    state.tick(&no_input(), search).unwrap();
    assert_eq!(state.ecs.state, ProcessingState::Internal);
    assert_eq!(hp_of(&state.ecs, player), 30);
    assert!(state
        .ecs
        .game_log
        .messages
        .contains(&"Goblin was unable to break Rouge's defenses".to_string()));
    state.tick(&no_input(), search).unwrap();
    state.tick(&key(VirtualKeyCode::D), search).unwrap();
    state.tick(&no_input(), search).unwrap();
    assert_eq!(hp_of(&state.ecs, monster), 2);
    state.tick(&no_input(), search).unwrap();
    state.tick(&no_input(), search).unwrap();
    state.tick(&key(VirtualKeyCode::D), search).unwrap();
    assert!(state.ecs.store.is_alive(monster));
    state.tick(&no_input(), search).unwrap();
    assert!(!state.ecs.store.is_alive(monster));
    assert_eq!(
        state.ecs.game_log.messages.last().unwrap(),
        "Goblin has died"
    );
    assert!(state.ecs.store.is_alive(player));
}

#[test]
fn open_dialog_overrides_the_state_and_keeps_it() {
    let (world, _) = world_with_player(Position { x: 5, y: 5 });
    let mut state = State { ecs: world };
    state.ecs.state = ProcessingState::PlayerTurn;
    assert_eq!(state.get_processing_state(), ProcessingState::PlayerTurn);
    register_pause_dialog(&mut state.ecs);
    assert_eq!(state.get_processing_state(), ProcessingState::Dialog);
    assert_eq!(state.ecs.state, ProcessingState::PlayerTurn);
    let report = state.tick(&no_input(), search).unwrap();
    assert!(report.dialog_shown);
    assert_eq!(state.ecs.state, ProcessingState::PlayerTurn);
    assert!(state.ecs.dialog.is_some());
    let report = state.tick(&key(VirtualKeyCode::X), search).unwrap();
    assert!(report.dialog_shown);
    assert_eq!(state.ecs.state, ProcessingState::PlayerTurn);
    assert!(state.ecs.dialog.is_some());
    let report = state.tick(&key(VirtualKeyCode::Escape), search).unwrap();
    assert!(report.dialog_shown);
    assert_eq!(state.ecs.state, ProcessingState::Internal);
    assert!(state.ecs.dialog.is_none());
    assert!(!state.ecs.quit);
    assert_eq!(state.get_processing_state(), ProcessingState::Internal);
}

#[test]
fn death_of_the_player_replaces_an_open_dialog() {
    let (world, player) = world_with_player(Position { x: 5, y: 5 });
    let mut state = State { ecs: world };
    state.ecs.state = ProcessingState::PlayerTurn;
    register_pause_dialog(&mut state.ecs);
    state.ecs.store.get_mut(player).unwrap().statistics =
        Some(Statistics { hp_max: 30, hp: 0, power: 5, defense: 2 });
    let report = state.tick(&key(VirtualKeyCode::Escape), search).unwrap();
    assert!(report.dialog_shown);
    assert_eq!(state.ecs.state, ProcessingState::PlayerTurn);
    let dialog = state.ecs.dialog.as_ref().unwrap();
    assert_eq!(dialog.title, "An untimely end");
    assert!(!dialog.cancelable);
    assert!(state.ecs.store.is_alive(player));
}

#[test]
fn option_of_a_dialog_names_the_next_state() {
    let (world, player) = world_with_player(Position { x: 5, y: 5 });
    let mut state = State { ecs: world };
    let mut item = Components::new();
    item.name = Some(Name { name: "Coin".to_string() });
    item.loot = Some(Loot { owner: player });
    let item = state.ecs.store.create(item);
    state.ecs.state = ProcessingState::WaitingForInput;
    show_inventory(&mut state.ecs, true).unwrap();
    state.tick(&key(VirtualKeyCode::A), search).unwrap();
    assert!(state.ecs.dialog.is_none());
    assert_eq!(state.ecs.state, ProcessingState::PlayerTurn);
    assert_eq!(state.ecs.store.get(player).unwrap().drop_item.unwrap().item, item);
    state.tick(&no_input(), search).unwrap();
    assert_eq!(state.ecs.state, ProcessingState::MonsterTurn);
    assert_eq!(state.ecs.store.get(item).unwrap().position, Some(Position { x: 5, y: 5 }));
    assert!(state.ecs.store.get(item).unwrap().loot.is_none());
    assert_eq!(state.ecs.game_log.messages, vec!["Rouge drops Coin"]);
}

#[test]
fn quitting_from_the_pause_dialog_raises_the_flag() {
    let (world, _) = world_with_player(Position { x: 5, y: 5 });
    let mut state = State { ecs: world };
    state.ecs.state = ProcessingState::WaitingForInput;
    state.tick(&key(VirtualKeyCode::Escape), search).unwrap();
    assert_eq!(state.ecs.state, ProcessingState::PlayerTurn);
    let dialog = state.ecs.dialog.as_ref().unwrap();
    assert_eq!(dialog.title, "Pause");
    assert!(dialog.cancelable);
    let labels: Vec<String> = dialog.options.iter().map(|o| o.label()).collect();
    assert_eq!(labels, vec!["(S) Save", "(L) Load", "(Q) Quit"]);
    state.tick(&key(VirtualKeyCode::Q), search).unwrap();
    assert!(state.ecs.quit);
    assert!(state.ecs.dialog.is_none());
    assert_eq!(state.ecs.state, ProcessingState::Internal);
}

#[test]
fn states_follow_each_other() {
    let (world, _) = world_with_player(Position { x: 5, y: 5 });
    let mut state = State { ecs: world };
    let report = state.tick(&no_input(), search).unwrap();
    assert!(!report.dialog_shown);
    assert!(report.sounds.is_empty());
    assert_eq!(state.ecs.state, ProcessingState::WaitingForInput);
    state.tick(&no_input(), search).unwrap();
    assert_eq!(state.ecs.state, ProcessingState::WaitingForInput);
    state.tick(&key(VirtualKeyCode::Other), search).unwrap();
    assert_eq!(state.ecs.state, ProcessingState::WaitingForInput);
    state.tick(&key(VirtualKeyCode::S), search).unwrap();
    assert_eq!(state.ecs.state, ProcessingState::PlayerTurn);
    assert_eq!(state.ecs.player_position, Position { x: 5, y: 6 });
    state.tick(&no_input(), search).unwrap();
    assert_eq!(state.ecs.state, ProcessingState::MonsterTurn);
    state.tick(&no_input(), search).unwrap();
    assert_eq!(state.ecs.state, ProcessingState::Internal);
    state.update_processing_state(&ProcessingState::PlayerTurn);
    assert_eq!(state.ecs.state, ProcessingState::PlayerTurn);
}

#[test]
fn targeting_selects_cancels_or_goes_on() {
    let (mut world, player) = world_with_player(Position { x: 5, y: 5 });
    let seen = vec![
        Position { x: 5, y: 5 },
        Position { x: 7, y: 5 },
        Position { x: 9, y: 9 },
        Position { x: 5, y: 8 },
    ];
    world.store.get_mut(player).unwrap().fov =
        Some(FOV { content: seen, range: 8, is_dirty: false });
    let cells = cells_in_range(3, &world).unwrap();
    assert_eq!(
        cells,
        vec![Position { x: 5, y: 5 }, Position { x: 7, y: 5 }, Position { x: 5, y: 8 }]
    );
    assert!(cells_in_range(-1, &world).unwrap().is_empty());
    let aim = |mouse: Position, click: bool, shift: bool, key: Option<VirtualKeyCode>| Input {
        key,
        mouse,
        left_click: click,
        shift,
    };
    let near = Position { x: 7, y: 5 };
    let far = Position { x: 9, y: 9 };
    let result = draw_player_ranged_targeting(3, &world, &aim(near, true, true, None));
    assert_eq!(result.0, TargetSelectionState::Selected);
    assert_eq!(result.1, Some(near));
    let result = draw_player_ranged_targeting(3, &world, &aim(far, true, true, None));
    assert_eq!(result.0, TargetSelectionState::Cancel);
    assert_eq!(result.1, None);
    let result = draw_player_ranged_targeting(3, &world, &aim(near, true, false, None));
    assert_eq!(result.0, TargetSelectionState::Selecting);
    let result =
        draw_player_ranged_targeting(3, &world, &aim(near, false, false, Some(VirtualKeyCode::Escape)));
    assert_eq!(result.0, TargetSelectionState::Cancel);
    world.store.get_mut(player).unwrap().fov = None;
    let result = draw_player_ranged_targeting(3, &world, &aim(near, true, true, None));
    assert_eq!(result.0, TargetSelectionState::Cancel);
    assert!(cells_in_range(3, &world).is_none());
    assert!(is_within_range(&Position { x: 0, y: 0 }, &Position { x: 3, y: 4 }, 5));
    assert!(!is_within_range(&Position { x: 0, y: 0 }, &Position { x: 3, y: 4 }, 4));
}

#[test]
fn selected_target_places_the_request_with_the_player() {
    let (mut world, player) = world_with_player(Position { x: 5, y: 5 });
    let target = Position { x: 6, y: 6 };
    world.store.get_mut(player).unwrap().fov =
        Some(FOV { content: vec![target], range: 8, is_dirty: false });
    let mut scroll = Components::new();
    scroll.name = Some(Name { name: "Scroll".to_string() });
    scroll.ranged = Some(Ranged { range: 6 });
    let scroll = world.store.create(scroll);
    let mut state = State { ecs: world };
    state.ecs.state = ProcessingState::PlayerIsTargeting { range: 6, entity: scroll };
    let hover = Input { key: None, mouse: target, left_click: false, shift: false };
    state.tick(&hover, search).unwrap();
    assert_eq!(
        state.ecs.state,
        ProcessingState::PlayerIsTargeting { range: 6, entity: scroll }
    );
    let click = Input { key: None, mouse: target, left_click: true, shift: true };
    state.tick(&click, search).unwrap();
    assert_eq!(state.ecs.state, ProcessingState::PlayerTurn);
    let request: UseItem = state.ecs.store.get(player).unwrap().use_item.unwrap();
    assert_eq!(request.item, scroll);
    assert_eq!(request.target, Some(target));
    state.ecs.state = ProcessingState::PlayerIsTargeting { range: 6, entity: scroll };
    state.tick(&key(VirtualKeyCode::Escape), search).unwrap();
    assert_eq!(state.ecs.state, ProcessingState::WaitingForInput);
}

#[test]
fn using_an_item_from_the_inventory() {
    let (mut world, player) = world_with_player(Position { x: 5, y: 5 });
    let mut scroll = Components::new();
    scroll.name = Some(Name { name: "Scroll".to_string() });
    scroll.ranged = Some(Ranged { range: 6 });
    scroll.loot = Some(Loot { owner: player });
    let scroll = world.store.create(scroll);
    let mut potion = Components::new();
    potion.name = Some(Name { name: "Potion".to_string() });
    potion.loot = Some(Loot { owner: player });
    let potion = world.store.create(potion);
    let mut foreign = Components::new();
    foreign.name = Some(Name { name: "Gem".to_string() });
    foreign.loot = Some(Loot { owner: Entity { id: 77 } });
    world.store.create(foreign);
    show_inventory(&mut world, false).unwrap();
    let dialog = world.dialog.take().unwrap();
    assert_eq!(dialog.title, "Inventory");
    assert!(dialog.message.is_none());
    assert!(dialog.cancelable);
    let labels: Vec<String> = dialog.options.iter().map(|o| o.label()).collect();
    assert_eq!(labels, vec!["(A) Scroll", "(B) Potion"]);
    let mut quit = false;
    let result = dialog.show(&mut world.store, &mut quit, Some(VirtualKeyCode::A));
    assert_eq!(
        result,
        Ok(DialogResult::Consumed {
            next_state: ProcessingState::PlayerIsTargeting { range: 6, entity: scroll }
        })
    );
    assert!(world.store.get(player).unwrap().use_item.is_none());
    let result = dialog.show(&mut world.store, &mut quit, Some(VirtualKeyCode::B));
    assert_eq!(result, Ok(DialogResult::Consumed { next_state: ProcessingState::PlayerTurn }));
    assert_eq!(world.store.get(player).unwrap().use_item.unwrap().item, potion);
    assert_eq!(dialog.show(&mut world.store, &mut quit, None), Ok(DialogResult::Waiting));
    assert_eq!(
        dialog.show(&mut world.store, &mut quit, Some(VirtualKeyCode::C)),
        Ok(DialogResult::Waiting)
    );
    assert!(!quit);
}

#[test]
fn empty_inventory_says_so() {
    let (mut world, _) = world_with_player(Position { x: 5, y: 5 });
    show_inventory(&mut world, true).unwrap();
    let dialog = world.dialog.as_ref().unwrap();
    assert_eq!(dialog.title, "Select item to drop");
    assert_eq!(dialog.message.as_deref(), Some("You backpack is empty..."));
    assert!(dialog.options.is_empty());
}

#[test]
fn inventory_with_more_items_than_letters_is_a_fault() {
    let (mut world, player) = world_with_player(Position { x: 5, y: 5 });
    for i in 0..27 {
        let mut coin = Components::new();
        coin.name = Some(Name { name: format!("Coin {}", i) });
        coin.loot = Some(Loot { owner: player });
        world.store.create(coin);
    }
    assert_eq!(show_inventory(&mut world, true), Err(Fault::Overflow(player)));
    assert!(world.dialog.is_none());
}

#[test]
fn dialog_takes_the_first_option_of_a_key() {
    let mut world = World::new(walled_room(5, 5));
    let options = vec![
        DialogOption {
            description: "One".to_string(),
            key: VirtualKeyCode::Escape,
            action: DialogAction::Quit,
        },
        DialogOption::create_cancel_option(),
    ];
    DialogInterface::register_dialog(&mut world, "T".to_string(), None, options, true);
    let dialog = world.dialog.as_ref().unwrap();
    assert_eq!(dialog.select(Some(VirtualKeyCode::Escape)), Some(DialogAction::Quit));
    assert_eq!(dialog.select(Some(VirtualKeyCode::A)), None);
    assert_eq!(dialog.options[1].label(), "(Escape) Dismiss");
    let frame = dialog.frame();
    assert_eq!((frame.width, frame.height), (32, 1 + 4 + 3));
    assert_eq!((frame.x, frame.y), (24, 16));
    assert_eq!(frame, dialog.frame());
    DialogInterface::register_dialog(
        &mut world,
        "Next".to_string(),
        Some("x".repeat(65)),
        Vec::new(),
        false,
    );
    let dialog = world.dialog.as_ref().unwrap();
    assert_eq!(dialog.title, "Next");
    assert_eq!(dialog.select(Some(VirtualKeyCode::Escape)), None);
    assert_eq!(dialog.frame().height, 3 + 3);
}

#[test]
fn dialog_action_for_a_missing_entity_is_a_fault() {
    let mut world = World::new(walled_room(5, 5));
    let gone = Entity { id: 5 };
    let mut quit = false;
    let drop = DialogAction::DropItem { owner: gone, item: gone };
    assert_eq!(drop.perform(&mut world.store, &mut quit), Err(Fault::MissingEntity(gone)));
    let consume = DialogAction::UseItem { user: gone, item: gone };
    assert_eq!(consume.perform(&mut world.store, &mut quit), Err(Fault::MissingEntity(gone)));
    assert_eq!(
        DialogAction::Dismiss.perform(&mut world.store, &mut quit),
        Ok(ProcessingState::Internal)
    );
    assert!(!quit);
    assert_eq!(
        DialogAction::Quit.perform(&mut world.store, &mut quit),
        Ok(ProcessingState::Internal)
    );
    assert!(quit);
}

#[test]
fn player_walks_unless_the_tile_is_blocked() {
    let (mut world, player) = world_with_player(Position { x: 1, y: 1 });
    assert_eq!(player_move(1, 1, &mut world), Ok(()));
    assert_eq!(world.store.get(player).unwrap().position, Some(Position { x: 2, y: 2 }));
    assert_eq!(world.player_position, Position { x: 2, y: 2 });
    assert!(world.store.get(player).unwrap().fov.as_ref().unwrap().is_dirty);
    world.store.get_mut(player).unwrap().fov.as_mut().unwrap().is_dirty = false;
    assert_eq!(player_move(-2, 0, &mut world), Ok(()));
    assert_eq!(world.store.get(player).unwrap().position, Some(Position { x: 2, y: 2 }));
    assert!(!world.store.get(player).unwrap().fov.as_ref().unwrap().is_dirty);
    assert_eq!(player_move(0, -3, &mut world), Err(Fault::OffMap(player)));
    assert_eq!(player_move(0, 18, &mut world), Err(Fault::OffMap(player)));
    assert_eq!(player_move(i32::MAX, 0, &mut world), Err(Fault::Overflow(player)));
}

#[test]
fn keys_are_bound_to_actions() {
    assert_eq!(key_action(VirtualKeyCode::W), PlayerAction::Move(0, -1));
    assert_eq!(key_action(VirtualKeyCode::Up), PlayerAction::Move(0, -1));
    assert_eq!(key_action(VirtualKeyCode::Numpad8), PlayerAction::Move(0, -1));
    assert_eq!(key_action(VirtualKeyCode::K), PlayerAction::Move(0, -1));
    assert_eq!(key_action(VirtualKeyCode::A), PlayerAction::Move(-1, 0));
    assert_eq!(key_action(VirtualKeyCode::H), PlayerAction::Move(-1, 0));
    assert_eq!(key_action(VirtualKeyCode::S), PlayerAction::Move(0, 1));
    assert_eq!(key_action(VirtualKeyCode::J), PlayerAction::Move(0, 1));
    assert_eq!(key_action(VirtualKeyCode::D), PlayerAction::Move(1, 0));
    assert_eq!(key_action(VirtualKeyCode::L), PlayerAction::Move(1, 0));
    assert_eq!(key_action(VirtualKeyCode::Q), PlayerAction::Move(-1, -1));
    assert_eq!(key_action(VirtualKeyCode::Numpad9), PlayerAction::Move(1, -1));
    assert_eq!(key_action(VirtualKeyCode::Y), PlayerAction::Move(-1, 1));
    assert_eq!(key_action(VirtualKeyCode::X), PlayerAction::Move(1, 1));
    assert_eq!(key_action(VirtualKeyCode::G), PlayerAction::PickUp);
    assert_eq!(key_action(VirtualKeyCode::I), PlayerAction::Inventory);
    assert_eq!(key_action(VirtualKeyCode::Escape), PlayerAction::Pause);
    assert_eq!(key_action(VirtualKeyCode::Z), PlayerAction::Nothing);
    assert_eq!(key_action(VirtualKeyCode::Other), PlayerAction::Nothing);
}

#[test]
fn click_queues_a_path_that_is_walked_step_by_step() {
    let (mut world, player) = world_with_player(Position { x: 2, y: 2 });
    let goal = Position { x: 5, y: 2 };
    world.store.get_mut(player).unwrap().fov =
        Some(FOV { content: vec![goal], range: 8, is_dirty: false });
    let blocker = add_monster(&mut world, Position { x: 3, y: 2 });
    world.map.set_tile_is_blocked(3, 2, true);
    let blocked = world.map.blocked_tiles.clone();
    assert_eq!(handle_new_click_to_move(&mut world, goal, search), Ok(()));
    assert_eq!(world.map.blocked_tiles, blocked);
    assert!(world.store.is_alive(blocker));
    world.map.set_tile_is_blocked(3, 2, false);
    let mut state = State { ecs: world };
    state.ecs.state = ProcessingState::WaitingForInput;
    let next = player_handle_input(&mut state, &no_input(), search).unwrap();
    assert_eq!(next, ProcessingState::PlayerTurn);
    assert_eq!(state.ecs.player_position, Position { x: 3, y: 2 });
    assert_eq!(player_move_click(&mut state.ecs), Ok(Some((1, 0))));
    assert_eq!(player_move_click(&mut state.ecs), Ok(Some((2, 0))));
    assert_eq!(player_move_click(&mut state.ecs), Ok(None));
}

#[test]
fn click_on_a_tile_out_of_sight_queues_nothing() {
    let (mut world, _) = world_with_player(Position { x: 2, y: 2 });
    let goal = Position { x: 5, y: 2 };
    assert_eq!(handle_new_click_to_move(&mut world, goal, search), Ok(()));
    assert_eq!(player_move_click(&mut world), Ok(None));
    let mut state = State { ecs: world };
    let click = Input { key: None, mouse: goal, left_click: true, shift: false };
    assert_eq!(
        player_handle_input(&mut state, &click, search),
        Ok(ProcessingState::WaitingForInput)
    );
}

#[test]
fn click_off_the_map_changes_nothing() {
    let (mut world, player) = world_with_player(Position { x: 2, y: 2 });
    let off = Position { x: 3, y: world.map.height + 5 };
    world.store.get_mut(player).unwrap().fov =
        Some(FOV { content: vec![off, Position { x: 4, y: 2 }], range: 8, is_dirty: false });
    world.map.set_tile_is_blocked(3, 2, true);
    let blocked = world.map.blocked_tiles.clone();
    assert_eq!(handle_new_click_to_move(&mut world, off, search), Ok(()));
    assert_eq!(world.map.blocked_tiles, blocked);
    assert_eq!(world.player_position, Position { x: 2, y: 2 });
    assert_eq!(player_move_click(&mut world), Ok(None));
    let mut state = State { ecs: world };
    state.ecs.state = ProcessingState::WaitingForInput;
    let click = Input { key: None, mouse: off, left_click: true, shift: false };
    assert_eq!(
        player_handle_input(&mut state, &click, search),
        Ok(ProcessingState::WaitingForInput)
    );
    let report = state.tick(&click, search).unwrap();
    assert!(!report.dialog_shown);
    assert_eq!(state.ecs.state, ProcessingState::WaitingForInput);
    assert_eq!(state.ecs.player_position, Position { x: 2, y: 2 });
}

#[test]
fn click_while_the_player_is_off_the_map_is_a_fault() {
    let (mut world, player) = world_with_player(Position { x: 2, y: 2 });
    world.player_position = Position { x: 2, y: world.map.height + 5 };
    let goal = Position { x: 5, y: 2 };
    assert_eq!(handle_new_click_to_move(&mut world, goal, search), Err(Fault::OffMap(player)));
}

#[test]
fn player_picks_up_what_lies_under_it() {
    let (mut world, player) = world_with_player(Position { x: 2, y: 2 });
    let mut item = Components::new();
    item.item = true;
    item.position = Some(Position { x: 2, y: 2 });
    item.name = Some(Name { name: "Coin".to_string() });
    let item = world.store.create(item);
    assert_eq!(pick_up_item(&mut world), Ok(()));
    assert_eq!(world.store.get(player).unwrap().pickup_item.unwrap().item, item);
    let sounds = resolve_turn(&mut world.store, &mut world.map, &mut world.game_log).unwrap();
    assert!(sounds.is_empty());
    assert_eq!(world.store.get(item).unwrap().loot, Some(Loot { owner: player }));
    assert_eq!(world.game_log.messages, vec!["Rouge picked up Coin."]);
}

#[test]
fn tooltips_name_what_the_player_sees_under_the_mouse() {
    let (mut world, _) = world_with_player(Position { x: 2, y: 2 });
    add_monster(&mut world, Position { x: 4, y: 4 });
    let mut item = Components::new();
    item.position = Some(Position { x: 4, y: 4 });
    item.name = Some(Name { name: "Coin".to_string() });
    world.store.create(item);
    let mouse = Position { x: 4, y: 4 };
    assert!(draw_tooltips(&world, &mouse).is_empty());
    world.map.set_tile_in_fov(4, 4, true);
    assert_eq!(draw_tooltips(&world, &mouse), vec!["Goblin", "Coin"]);
    assert!(draw_tooltips(&world, &Position { x: 2, y: 2 }).is_empty());
    assert!(draw_tooltips(&world, &Position { x: 0, y: 0 }).is_empty());
    assert!(draw_tooltips(&world, &Position { x: 90, y: 90 }).is_empty());
}

#[test]
fn systems_run_in_their_order() {
    let (world, player) = world_with_player(Position { x: 5, y: 5 });
    let mut state = State { ecs: world };
    let monster = add_monster(&mut state.ecs, Position { x: 6, y: 6 });
    state.ecs.state = ProcessingState::MonsterTurn;
    let sounds = state.run_systems(search).unwrap();
    assert!(sounds.is_empty());
    assert!(!state.ecs.store.get(player).unwrap().fov.as_ref().unwrap().is_dirty);
    assert!(state.ecs.map.is_tile_in_fov(5, 5));
    assert!(state.ecs.map.is_tile_blocked(6, 6));
    assert_eq!(state.ecs.map.tile_contents_get(6, 6), &vec![monster]);
    assert!(state.ecs.store.get(monster).unwrap().melee_attack.is_none());
    assert_eq!(
        state.ecs.game_log.messages,
        vec!["Goblin was unable to break Rouge's defenses"]
    );
}

#[test]
fn entities_are_painted_by_their_draw_order() {
    let (mut world, player) = world_with_player(Position { x: 5, y: 5 });
    let look = |symbol: u16, order: i32| b_ruge::components::Renderable {
        symbol,
        fg: (1, 2, 3),
        bg: (0, 0, 0),
        order,
    };
    world.store.get_mut(player).unwrap().renderable = Some(look(64, 0));
    let mut item = Components::new();
    item.position = Some(Position { x: 5, y: 5 });
    item.renderable = Some(look(33, 2));
    world.store.create(item);
    let mut first = Components::new();
    first.position = Some(Position { x: 6, y: 5 });
    first.renderable = Some(look(111, 1));
    world.store.create(first);
    let mut second = Components::new();
    second.position = Some(Position { x: 6, y: 5 });
    second.renderable = Some(look(103, 1));
    world.store.create(second);
    let mut hidden = Components::new();
    hidden.position = Some(Position { x: 9, y: 9 });
    hidden.renderable = Some(look(63, -5));
    world.store.create(hidden);
    let mut bare = Components::new();
    bare.position = Some(Position { x: 5, y: 5 });
    world.store.create(bare);
    world.map.set_tile_in_fov(5, 5, true);
    world.map.set_tile_in_fov(6, 5, true);
    let state = State { ecs: world };
    let painted: Vec<u16> = state.show_ui().iter().map(|p| p.1.symbol).collect();
    assert_eq!(painted, vec![64, 111, 103, 33]);
    let places: Vec<Position> = state.show_ui().iter().map(|p| p.0).collect();
    assert_eq!(places[0], Position { x: 5, y: 5 });
    assert_eq!(places[1], Position { x: 6, y: 5 });
}

#[test]
fn tick_ends_with_the_first_fault_of_its_phase() {
    let (world, player) = world_with_player(Position { x: 5, y: 5 });
    let mut state = State { ecs: world };
    let lost = state.ecs.store.create(creature("Ghost", Position { x: 5, y: 25 }, 5, 1, 1));
    assert_eq!(state.run_systems(search).unwrap_err(), Fault::OffMap(lost));
    assert_eq!(state.tick(&no_input(), search).unwrap_err(), Fault::OffMap(lost));
    state.ecs.store.delete(lost);
    state.ecs.store.get_mut(player).unwrap().melee_attack =
        Some(MeleeAttack { target: Entity { id: 40 } });
    assert_eq!(
        state.tick(&no_input(), search).unwrap_err(),
        Fault::MissingStatistics(Entity { id: 40 })
    );
    state.ecs.state = ProcessingState::WaitingForInput;
    state.ecs.store.get_mut(player).unwrap().position = Some(Position { x: 5, y: 0 });
    assert_eq!(
        state.tick(&key(VirtualKeyCode::W), search).unwrap_err(),
        Fault::OffMap(player)
    );
}

#[test]
fn tick_ends_with_the_fault_of_the_action_of_a_dialog() {
    let (world, _) = world_with_player(Position { x: 5, y: 5 });
    let mut state = State { ecs: world };
    let gone = Entity { id: 70 };
    let options = vec![DialogOption {
        description: "Drop".to_string(),
        key: VirtualKeyCode::A,
        action: DialogAction::DropItem { owner: gone, item: gone },
    }];
    DialogInterface::register_dialog(&mut state.ecs, "T".to_string(), None, options, true);
    assert_eq!(
        state.tick(&key(VirtualKeyCode::A), search).unwrap_err(),
        Fault::MissingEntity(gone)
    );
}

#[test]
fn monsters_turn_fails_where_a_chaser_is_led_off_the_map() {
    let (world, player) = world_with_player(Position { x: 15, y: 15 });
    let mut state = State { ecs: world };
    let goblin = add_monster(&mut state.ecs, Position { x: 2, y: 2 });
    state.ecs.store.get_mut(goblin).unwrap().fov =
        Some(FOV { content: vec![Position { x: 15, y: 15 }], range: 8, is_dirty: false });
    let astray = |_: &GameMap, from: usize, to: usize| NavigationPath {
        destination: to,
        success: true,
        steps: vec![from, 100_000],
    };
    let result = b_ruge::monsters::MonsterAI::run(
        &mut state.ecs.store,
        &mut state.ecs.map,
        &Position { x: 15, y: 15 },
        &player,
        &ProcessingState::MonsterTurn,
        astray,
    );
    assert_eq!(result, Err(Fault::OffMap(goblin)));
}
