use b_ruge::components::{points_contain, Entity, Position, FOV};
use b_ruge::config;
use b_ruge::data::{GameLog, PlayerPathing};
use b_ruge::exceptions::{
    get_add_damage_amount_error_message, get_add_melee_damage_error_message,
    get_drink_potion_error_message, get_drop_item_error_message, get_pick_up_item_error_message,
};
use b_ruge::functions::{i32_to_alpha_key, virtual_key_code_to_string, VirtualKeyCode};
use b_ruge::messages::{
    death_message, drop_message, healing_message, hit_message, item_hit_message, miss_message,
    no_effect_message, nothing_to_pick_up_message, option_label_message, pickup_message,
};
use b_ruge::store::Fault;
use b_ruge::swatch::{self, Pallet};
use b_ruge::text::{join, join_number};
use b_ruge::tile_factory::TileFactory;

#[test]
fn new_log_starts_with_title_and_greeting() {
    let log = GameLog::new();
    assert_eq!(
        log.messages,
        vec![
            format!("{} {}", config::GAME_NAME, config::GAME_VERSION),
            "You entered the dungeon...".to_string(),
        ]
    );
    assert_eq!(log.messages[0], "B_Ruge v0.2.7");
}

#[test]
fn empty_log_has_no_messages() {
    let log = GameLog::new_empty();
    assert!(log.messages.is_empty());
}

#[test]
fn messages_are_pushed_in_order() {
    let mut log = GameLog::new_empty();
    log.messages_push("one");
    log.messages_push("two");
    log.push_owned("three".to_string());
    assert_eq!(log.messages, vec!["one", "two", "three"]);
}

#[test]
fn remove_takes_out_every_occurrence() {
    let mut log = GameLog::new_empty();
    log.messages_push("a");
    log.messages_push("b");
    log.messages_push("a");
    log.messages_push("c");
    log.messages_remove(&"a".to_string());
    assert_eq!(log.messages, vec!["b", "c"]);
    log.messages_remove(&"z".to_string());
    assert_eq!(log.messages, vec!["b", "c"]);
}

#[test]
fn clear_empties_the_log() {
    let mut log = GameLog::new();
    log.clear();
    assert!(log.messages.is_empty());
}

#[test]
fn for_each_rev_visits_newest_first() {
    let mut log = GameLog::new_empty();
    log.messages_push("old");
    log.messages_push("new");
    let mut seen = Vec::new();
    log.messages_for_each_rev(|message| {
        seen.push(message.clone());
        message.push('!');
    });
    assert_eq!(seen, vec!["new", "old"]);
    assert_eq!(log.messages, vec!["old!", "new!"]);
}

#[test]
fn pathing_pops_the_last_step_first() {
    let mut pathing = PlayerPathing::new();
    assert_eq!(pathing.pop(), None);
    let mut steps = vec![3, 2, 1];
    pathing.update(&mut steps);
    assert!(steps.is_empty());
    assert_eq!(pathing.pop(), Some(1));
    assert_eq!(pathing.pop(), Some(2));
    pathing.clear();
    assert_eq!(pathing.pop(), None);
}

#[test]
fn pathing_queues_a_found_path_without_its_start() {
    let mut pathing = PlayerPathing::new();
    pathing.queue(true, vec![10, 11, 12, 13], true);
    assert_eq!(pathing.pop(), Some(11));
    assert_eq!(pathing.pop(), Some(12));
    assert_eq!(pathing.pop(), Some(13));
    assert_eq!(pathing.pop(), None);
}

#[test]
fn pathing_keeps_its_queue_for_a_path_that_is_not_taken() {
    let mut pathing = PlayerPathing::new();
    let mut steps = vec![7];
    pathing.update(&mut steps);
    pathing.queue(false, vec![1, 2, 3], true);
    pathing.queue(true, vec![1], true);
    pathing.queue(true, vec![1, 2, 3], false);
    assert_eq!(pathing.pop(), Some(7));
    assert_eq!(pathing.pop(), None);
}

#[test]
fn numbers_are_written_in_decimal() {
    assert_eq!(join_number("n=".to_string(), 0), "n=0");
    assert_eq!(join_number("n=".to_string(), 7), "n=7");
    assert_eq!(join_number("n=".to_string(), 1203), "n=1203");
    assert_eq!(join_number("n=".to_string(), -45), "n=-45");
    assert_eq!(
        join_number(String::new(), i64::MIN),
        "-9223372036854775808"
    );
    assert_eq!(join("ab".to_string(), "cd"), "abcd");
}

#[test]
fn log_entries_have_their_texts() {
    assert_eq!(hit_message("Rouge", "Goblin", 4), "Rouge hits Goblin for 4 damage!");
    assert_eq!(
        no_effect_message("Goblin", "Rouge"),
        "Goblin was unable to break Rouge's defenses"
    );
    assert_eq!(death_message("Goblin"), "Goblin has died");
    assert_eq!(pickup_message("Rouge", "Health Potion"), "Rouge picked up Health Potion.");
    assert_eq!(
        nothing_to_pick_up_message("Rouge"),
        "Rouge tried to pick up an item, but there is nothing on the ground."
    );
    assert_eq!(drop_message("Rouge", "Health Potion"), "Rouge drops Health Potion");
    assert_eq!(
        healing_message("Rouge", "Health Potion", 8),
        "Rouge uses the Health Potion, restoring 8 health."
    );
    assert_eq!(miss_message("Rouge", "Scroll"), "Rouge uses Scroll, but hits nothing.");
    assert_eq!(
        item_hit_message("Rouge", "Scroll", "Goblin", 16),
        "Rouge uses Scroll, hitting Goblin for 16 damage."
    );
    assert_eq!(option_label_message("Escape", "Dismiss"), "(Escape) Dismiss");
}

#[test]
fn error_texts_name_the_entities() {
    let a = Entity { id: 3 };
    let b = Entity { id: 9 };
    assert_eq!(
        get_add_damage_amount_error_message(&a, 5),
        "Damage amount 5 couldn't be stored in the ecs for entity with id 3"
    );
    assert_eq!(
        get_pick_up_item_error_message(&a, &b),
        "Unable to pick up item with id 9 and add it to inventory of collector with id 3!"
    );
    assert_eq!(
        get_drop_item_error_message(&a, &b),
        "Unable to drop item with id 3 from inventory of owner with id 9!"
    );
    assert_eq!(
        get_drink_potion_error_message(&a, &b),
        "Unable to insert use potion request for user with id 3 and potion with id 9"
    );
    assert_eq!(
        get_add_melee_damage_error_message(&a),
        "Adding melee attack from monster with id 3 against player failed!"
    );
}

#[test]
fn faults_describe_themselves() {
    let e = Entity { id: 12 };
    assert_eq!(Fault::MissingEntity(e).message(), "There is no entity with id 12");
    assert_eq!(Fault::MissingName(e).message(), "There is no name for the entity with id 12");
    assert_eq!(
        Fault::MissingStatistics(e).message(),
        "There are no statistics for the entity with id 12"
    );
    assert_eq!(
        Fault::MissingPosition(e).message(),
        "There is no position for the entity with id 12"
    );
    assert_eq!(
        Fault::MissingTarget(e).message(),
        "There is no target for the item of the entity with id 12"
    );
    assert_eq!(Fault::OffMap(e).message(), "Off the map: the entity with id 12");
    assert_eq!(
        Fault::Overflow(e).message(),
        "A number is out of range for the entity with id 12"
    );
}

#[test]
fn keys_have_names() {
    assert_eq!(virtual_key_code_to_string(VirtualKeyCode::A), "A");
    assert_eq!(virtual_key_code_to_string(VirtualKeyCode::Z), "Z");
    assert_eq!(virtual_key_code_to_string(VirtualKeyCode::Escape), "Escape");
    assert_eq!(virtual_key_code_to_string(VirtualKeyCode::Up), "Key");
    assert_eq!(virtual_key_code_to_string(VirtualKeyCode::Other), "Key");
}

#[test]
fn places_in_the_alphabet_have_keys() {
    assert_eq!(i32_to_alpha_key(0), VirtualKeyCode::A);
    assert_eq!(i32_to_alpha_key(1), VirtualKeyCode::B);
    assert_eq!(i32_to_alpha_key(12), VirtualKeyCode::M);
    assert_eq!(i32_to_alpha_key(25), VirtualKeyCode::Z);
    let names: Vec<&str> = (0..26).map(|i| virtual_key_code_to_string(i32_to_alpha_key(i))).collect();
    assert_eq!(names.join(""), "ABCDEFGHIJKLMNOPQRSTUVWXYZ");
}

#[test]
fn positions_compare_and_update() {
    let mut p = Position::new_from_tuple((2, 3));
    assert_eq!(p, Position { x: 2, y: 3 });
    assert!(p.is_equal(&Position { x: 2, y: 3 }));
    assert!(!p.is_equal(&Position { x: 3, y: 2 }));
    assert!(p.is_equal_to_tuple(&(2, 3)));
    assert!(!p.is_equal_to_tuple(&(2, 4)));
    p.update(5, 6);
    assert_eq!(p, Position { x: 5, y: 6 });
    let after = *p.update_with_tuple((7, 8));
    assert_eq!(after, Position { x: 7, y: 8 });
    assert_eq!(Entity { id: 4 }.id(), 4);
}

#[test]
fn field_of_view_is_marked_and_searched() {
    let mut fov = FOV { content: vec![Position { x: 1, y: 1 }], range: 8, is_dirty: false };
    fov.mark_as_dirty();
    assert!(fov.is_dirty);
    fov.mark_as_clean();
    assert!(!fov.is_dirty);
    assert!(fov.contains(&Position { x: 1, y: 1 }));
    assert!(!fov.contains(&Position { x: 1, y: 2 }));
    assert_eq!(fov.range, 8);
    assert!(points_contain(&fov.content, &Position { x: 1, y: 1 }));
}

#[test]
fn tiles_are_drawn_with_their_glyphs() {
    let floor = TileFactory::new_floor();
    assert_eq!(floor.symbol, 46);
    assert_eq!(floor.symbol, rltk::to_cp437('.'));
    assert_eq!(floor.fg, (141, 163, 153));
    assert_eq!(floor.bg, (0, 0, 0));
    assert_eq!(floor.order, -1);
    let wall = TileFactory::new_wall();
    assert_eq!(wall.symbol, 35);
    assert_eq!(wall.fg, rltk::GOLDENROD);
    assert_eq!(wall.order, -1);
}

#[test]
fn colors_match_the_named_ones() {
    assert_eq!(swatch::GOLD, rltk::GOLD);
    assert_eq!(swatch::WHITE, rltk::WHITE);
    assert_eq!(swatch::RED, rltk::RED);
    assert_eq!(swatch::BLUE, rltk::BLUE);
    assert_eq!(swatch::GREEN, rltk::GREEN);
    assert_eq!(swatch::PINK, rltk::PINK);
    assert_eq!(swatch::DIM_GRAY, rltk::DIM_GRAY);
    assert_eq!(swatch::PALEGOLDENROD, rltk::PALEGOLDENROD);
    assert_eq!(swatch::GOLDENROD, rltk::GOLDENROD);
    let pallet = Pallet::of(swatch::TOOLTIP);
    assert_eq!(pallet.colors(), (rltk::GOLD, rltk::DIM_GRAY));
    assert_eq!(Pallet::of(swatch::PLAYER).colors(), (rltk::GOLD, (0, 0, 0)));
}
