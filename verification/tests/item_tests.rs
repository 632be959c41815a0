use b_ruge::components::{
    DamageCounter, DamageEffect, DropItem, Entity, HealingEffect, Loot, Name, PickupItem, Position,
    SoundEffect, Statistics, UseItem,
};
use b_ruge::data::GameLog;
use b_ruge::item_use::ItemUseSystem;
use b_ruge::items::{Item, ItemCollectionSystem, ItemDropSystem};
use b_ruge::map::{GameMap, TileType};
use b_ruge::store::{Components, Fault, Store};
use b_ruge::systems::MapDexSystem;

fn named(name: &str) -> Components {
    let mut c = Components::new();
    c.name = Some(Name { name: name.to_string() });
    c
}

fn hero(at: Position) -> Components {
    let mut c = named("Rouge");
    c.position = Some(at);
    c.statistics = Some(Statistics { hp_max: 10, hp: 5, power: 5, defense: 2 });
    c
}

fn potion(at: Option<Position>) -> Components {
    let mut c = named("Health Potion");
    c.position = at;
    c.item = true;
    c.consumable = true;
    c.healing_effect = Some(HealingEffect { healing_amount: 8 });
    c.sound_effect = Some(SoundEffect { resource: "drink.wav".to_string() });
    c
}

#[test]
fn several_owners_drop_their_items_where_each_stands() {
    let mut store = Store::new();
    let mut log = GameLog::new_empty();
    let a = store.create(hero(Position { x: 3, y: 3 }));
    let b = store.create(hero(Position { x: 8, y: 1 }));
    let mut first = potion(None);
    first.loot = Some(Loot { owner: a });
    let first = store.create(first);
    let mut second = potion(None);
    second.loot = Some(Loot { owner: b });
    let second = store.create(second);
    store.get_mut(a).unwrap().drop_item = Some(DropItem { item: first });
    store.get_mut(b).unwrap().drop_item = Some(DropItem { item: second });
    assert_eq!(ItemDropSystem::run(&mut store, &mut log), Ok(()));
    assert_eq!(store.get(first).unwrap().position, Some(Position { x: 3, y: 3 }));
    assert_eq!(store.get(second).unwrap().position, Some(Position { x: 8, y: 1 }));
    assert!(store.get(first).unwrap().loot.is_none());
    assert!(store.get(second).unwrap().loot.is_none());
    assert_eq!(store.get(a).unwrap().position, Some(Position { x: 3, y: 3 }));
    assert_eq!(store.get(b).unwrap().position, Some(Position { x: 8, y: 1 }));
    assert!(store.get(a).unwrap().drop_item.is_none());
    assert!(store.get(b).unwrap().drop_item.is_none());
}

#[test]
fn item_asked_for_twice_lies_with_the_later_owner() {
    let mut store = Store::new();
    let mut log = GameLog::new_empty();
    let a = store.create(hero(Position { x: 3, y: 3 }));
    let b = store.create(hero(Position { x: 8, y: 1 }));
    let mut item = potion(None);
    item.loot = Some(Loot { owner: a });
    let item = store.create(item);
    store.get_mut(a).unwrap().drop_item = Some(DropItem { item });
    store.get_mut(b).unwrap().drop_item = Some(DropItem { item });
    assert_eq!(ItemDropSystem::run(&mut store, &mut log), Ok(()));
    assert_eq!(store.get(item).unwrap().position, Some(Position { x: 8, y: 1 }));
    assert!(store.get(item).unwrap().loot.is_none());
}

fn scroll() -> Components {
    let mut c = named("Scroll of Magic Missile");
    c.item = true;
    c.consumable = true;
    c.damage_effect = Some(DamageEffect { damage_amount: 16 });
    c.sound_effect = Some(SoundEffect { resource: "missile.wav".to_string() });
    c
}

fn pending(store: &Store, entity: Entity) -> Vec<i32> {
    match &store.get(entity).unwrap().damage_counter {
        Some(counter) => counter.damage_values.clone(),
        None => Vec::new(),
    }
}

#[test]
fn pickup_and_drop_round_trip() {
    let mut store = Store::new();
    let mut log = GameLog::new_empty();
    let here = Position { x: 5, y: 5 };
    let a = store.create(hero(here));
    let item = store.create(potion(Some(here)));
    assert_eq!(Item::pick_up(&mut store, &mut log, &a), Ok(()));
    let request = store.get(a).unwrap().pickup_item.unwrap();
    assert_eq!(request, PickupItem { collector: a, item });
    assert_eq!(ItemCollectionSystem::run(&mut store, &mut log), Ok(()));
    assert_eq!(store.get(item).unwrap().loot, Some(Loot { owner: a }));
    assert!(store.get(item).unwrap().position.is_none());
    assert!(store.get(a).unwrap().pickup_item.is_none());
    assert_eq!(log.messages, vec!["Rouge picked up Health Potion."]);
    store.get_mut(a).unwrap().position = Some(Position { x: 7, y: 2 });
    assert_eq!(Item::drop_item(&mut store, &a, &item), Ok(()));
    assert_eq!(store.get(a).unwrap().drop_item, Some(DropItem { item }));
    assert_eq!(ItemDropSystem::run(&mut store, &mut log), Ok(()));
    assert_eq!(store.get(item).unwrap().position, Some(Position { x: 7, y: 2 }));
    assert!(store.get(item).unwrap().loot.is_none());
    assert!(store.get(a).unwrap().drop_item.is_none());
    assert_eq!(
        log.messages,
        vec!["Rouge picked up Health Potion.", "Rouge drops Health Potion"]
    );
}

#[test]
fn pick_up_takes_the_first_item_on_the_tile() {
    let mut store = Store::new();
    let mut log = GameLog::new_empty();
    let here = Position { x: 1, y: 1 };
    let elsewhere = store.create(potion(Some(Position { x: 2, y: 1 })));
    let mut decoy = named("Statue");
    decoy.position = Some(here);
    store.create(decoy);
    let first = store.create(potion(Some(here)));
    let second = store.create(potion(Some(here)));
    let a = store.create(hero(here));
    assert_eq!(Item::pick_up(&mut store, &mut log, &a), Ok(()));
    assert_eq!(store.get(a).unwrap().pickup_item.unwrap().item, first);
    assert_ne!(first, second);
    assert_ne!(first, elsewhere);
    assert!(log.messages.is_empty());
}

#[test]
fn pick_up_on_an_empty_tile_is_logged() {
    let mut store = Store::new();
    let mut log = GameLog::new_empty();
    store.create(potion(Some(Position { x: 9, y: 9 })));
    let a = store.create(hero(Position { x: 1, y: 1 }));
    assert_eq!(Item::pick_up(&mut store, &mut log, &a), Ok(()));
    assert!(store.get(a).unwrap().pickup_item.is_none());
    assert_eq!(
        log.messages,
        vec!["Rouge tried to pick up an item, but there is nothing on the ground."]
    );
    let mut nobody = Components::new();
    nobody.position = Some(Position { x: 1, y: 1 });
    let b = store.create(nobody);
    assert_eq!(Item::pick_up(&mut store, &mut log, &b), Ok(()));
    assert_eq!(
        log.messages[1],
        "Some one tried to pick up an item, but there is nothing on the ground."
    );
    let gone = Entity { id: 99 };
    assert_eq!(Item::pick_up(&mut store, &mut log, &gone), Err(Fault::MissingEntity(gone)));
}

#[test]
fn last_collector_keeps_the_item() {
    let mut store = Store::new();
    let mut log = GameLog::new_empty();
    let here = Position { x: 1, y: 1 };
    let item = store.create(potion(Some(here)));
    let a = store.create(hero(here));
    let mut other = hero(here);
    other.name = Some(Name { name: "Thief".to_string() });
    let b = store.create(other);
    store.get_mut(a).unwrap().pickup_item = Some(PickupItem { collector: a, item });
    store.get_mut(b).unwrap().pickup_item = Some(PickupItem { collector: b, item });
    assert_eq!(ItemCollectionSystem::run(&mut store, &mut log), Ok(()));
    assert_eq!(store.get(item).unwrap().loot, Some(Loot { owner: b }));
    assert_eq!(
        log.messages,
        vec!["Rouge picked up Health Potion.", "Thief picked up Health Potion."]
    );
}

#[test]
fn pickup_faults_name_what_is_missing() {
    let mut log = GameLog::new_empty();
    let mut store = Store::new();
    let a = store.create(hero(Position { x: 1, y: 1 }));
    let gone = Entity { id: 50 };
    store.get_mut(a).unwrap().pickup_item = Some(PickupItem { collector: a, item: gone });
    assert_eq!(
        ItemCollectionSystem::run(&mut store, &mut log),
        Err(Fault::MissingEntity(gone))
    );
    let mut store = Store::new();
    let a = store.create(hero(Position { x: 1, y: 1 }));
    let nameless = store.create(Components::new());
    store.get_mut(a).unwrap().pickup_item = Some(PickupItem { collector: a, item: nameless });
    assert_eq!(
        ItemCollectionSystem::run(&mut store, &mut log),
        Err(Fault::MissingName(nameless))
    );
    let mut store = Store::new();
    let item = store.create(potion(None));
    let nobody = store.create(Components::new());
    store.get_mut(nobody).unwrap().pickup_item = Some(PickupItem { collector: nobody, item });
    assert_eq!(
        ItemCollectionSystem::run(&mut store, &mut log),
        Err(Fault::MissingName(nobody))
    );
}

#[test]
fn drop_faults_name_what_is_missing() {
    let mut log = GameLog::new_empty();
    let mut store = Store::new();
    let item = store.create(potion(None));
    let floating = store.create(named("Ghost"));
    store.get_mut(floating).unwrap().drop_item = Some(DropItem { item });
    assert_eq!(
        ItemDropSystem::run(&mut store, &mut log),
        Err(Fault::MissingPosition(floating))
    );
    let mut store = Store::new();
    let a = store.create(hero(Position { x: 1, y: 1 }));
    let gone = Entity { id: 50 };
    store.get_mut(a).unwrap().drop_item = Some(DropItem { item: gone });
    assert_eq!(ItemDropSystem::run(&mut store, &mut log), Err(Fault::MissingEntity(gone)));
    assert_eq!(Item::drop_item(&mut store, &gone, &a), Err(Fault::MissingEntity(gone)));
    assert_eq!(
        Item::use_item(&mut store, &gone, &a, None),
        Err(Fault::MissingEntity(gone))
    );
}

#[test]
fn dropped_item_lies_where_its_owner_stands_at_that_moment() {
    let mut store = Store::new();
    let mut log = GameLog::new_empty();
    let a = store.create(hero(Position { x: 3, y: 3 }));
    let mut bag = named("Bag");
    bag.loot = Some(Loot { owner: a });
    let bag = store.create(bag);
    let mut coin = named("Coin");
    coin.loot = Some(Loot { owner: bag });
    let coin = store.create(coin);
    store.get_mut(a).unwrap().drop_item = Some(DropItem { item: bag });
    store.get_mut(bag).unwrap().drop_item = Some(DropItem { item: coin });
    assert_eq!(ItemDropSystem::run(&mut store, &mut log), Ok(()));
    assert_eq!(store.get(bag).unwrap().position, Some(Position { x: 3, y: 3 }));
    assert_eq!(store.get(coin).unwrap().position, Some(Position { x: 3, y: 3 }));
    assert_eq!(log.messages, vec!["Rouge drops Bag", "Bag drops Coin"]);
}

#[test]
fn healing_is_capped_at_the_maximum() {
    let mut store = Store::new();
    let mut log = GameLog::new_empty();
    let map = GameMap::new_filled(10, 10, TileType::FLOOR);
    let a = store.create(hero(Position { x: 1, y: 1 }));
    let item = store.create(potion(None));
    assert_eq!(Item::use_item(&mut store, &a, &item, None), Ok(()));
    let sounds = ItemUseSystem::run(&mut store, &map, &mut log).unwrap();
    assert_eq!(store.get(a).unwrap().statistics.unwrap().hp, 10);
    assert_eq!(store.get(a).unwrap().statistics.unwrap().hp_max, 10);
    assert_eq!(log.messages, vec!["Rouge uses the Health Potion, restoring 8 health."]);
    assert_eq!(sounds, vec!["drink.wav"]);
    assert!(store.get(a).unwrap().use_item.is_none());
    assert_eq!(store.doomed, vec![item]);
    assert!(store.is_alive(item));
    store.maintain();
    assert!(!store.is_alive(item));
}

#[test]
fn healing_below_the_maximum_adds_the_amount() {
    let mut store = Store::new();
    let mut log = GameLog::new_empty();
    let map = GameMap::new_filled(10, 10, TileType::FLOOR);
    let mut c = hero(Position { x: 1, y: 1 });
    c.statistics = Some(Statistics { hp_max: 30, hp: 5, power: 5, defense: 2 });
    let a = store.create(c);
    let mut salve = potion(None);
    salve.consumable = false;
    salve.sound_effect = None;
    let item = store.create(salve);
    store.get_mut(a).unwrap().use_item = Some(UseItem { item, target: None });
    let sounds = ItemUseSystem::run(&mut store, &map, &mut log).unwrap();
    assert_eq!(store.get(a).unwrap().statistics.unwrap().hp, 13);
    assert!(sounds.is_empty());
    assert!(store.doomed.is_empty());
}

#[test]
fn damaging_item_hits_everything_on_the_tile() {
    let mut store = Store::new();
    let mut log = GameLog::new_empty();
    let mut map = GameMap::new_filled(10, 10, TileType::FLOOR);
    let a = store.create(hero(Position { x: 1, y: 1 }));
    let target = Position { x: 4, y: 4 };
    let mut goblin = named("Goblin");
    goblin.position = Some(target);
    goblin.statistics = Some(Statistics { hp_max: 10, hp: 10, power: 2, defense: 1 });
    let goblin = store.create(goblin);
    let mut rat = named("Rat");
    rat.position = Some(target);
    let rat = store.create(rat);
    let item = store.create(scroll());
    assert_eq!(MapDexSystem::run(&store, &mut map), Ok(()));
    assert_eq!(Item::use_item(&mut store, &a, &item, Some(target)), Ok(()));
    let sounds = ItemUseSystem::run(&mut store, &map, &mut log).unwrap();
    assert_eq!(sounds, vec!["missile.wav"]);
    assert_eq!(pending(&store, goblin), vec![16]);
    assert_eq!(pending(&store, rat), vec![16]);
    assert_eq!(
        log.messages,
        vec![
            "Rouge uses Scroll of Magic Missile, hitting Goblin for 16 damage.",
            "Rouge uses Scroll of Magic Missile, hitting Rat for 16 damage.",
        ]
    );
    assert_eq!(store.doomed, vec![item]);
    assert_eq!(store.get(goblin).unwrap().statistics.unwrap().hp, 10);
}

#[test]
fn damaging_item_on_an_empty_tile_hits_nothing() {
    let mut store = Store::new();
    let mut log = GameLog::new_empty();
    let map = GameMap::new_filled(10, 10, TileType::FLOOR);
    let a = store.create(hero(Position { x: 1, y: 1 }));
    let item = store.create(scroll());
    store.get_mut(a).unwrap().use_item =
        Some(UseItem { item, target: Some(Position { x: 4, y: 4 }) });
    assert!(ItemUseSystem::run(&mut store, &map, &mut log).is_ok());
    assert_eq!(log.messages, vec!["Rouge uses Scroll of Magic Missile, but hits nothing."]);
}

#[test]
fn use_faults_name_what_is_missing() {
    let map = GameMap::new_filled(10, 10, TileType::FLOOR);
    let mut log = GameLog::new_empty();
    let mut store = Store::new();
    let a = store.create(hero(Position { x: 1, y: 1 }));
    let item = store.create(scroll());
    store.get_mut(a).unwrap().use_item = Some(UseItem { item, target: None });
    assert_eq!(
        ItemUseSystem::run(&mut store, &map, &mut log).unwrap_err(),
        Fault::MissingTarget(a)
    );
    store.get_mut(a).unwrap().use_item =
        Some(UseItem { item, target: Some(Position { x: 50, y: 50 }) });
    assert_eq!(ItemUseSystem::run(&mut store, &map, &mut log).unwrap_err(), Fault::OffMap(a));
    let gone = Entity { id: 40 };
    store.get_mut(a).unwrap().use_item = Some(UseItem { item: gone, target: None });
    assert_eq!(
        ItemUseSystem::run(&mut store, &map, &mut log).unwrap_err(),
        Fault::MissingName(gone)
    );
    store.get_mut(a).unwrap().use_item = Some(UseItem { item, target: None });
    store.get_mut(a).unwrap().name = None;
    assert_eq!(
        ItemUseSystem::run(&mut store, &map, &mut log).unwrap_err(),
        Fault::MissingName(a)
    );
}

#[test]
fn use_fault_for_a_nameless_entity_on_the_tile() {
    let mut map = GameMap::new_filled(10, 10, TileType::FLOOR);
    let mut log = GameLog::new_empty();
    let mut store = Store::new();
    let a = store.create(hero(Position { x: 1, y: 1 }));
    let item = store.create(scroll());
    let mut shade = Components::new();
    shade.position = Some(Position { x: 4, y: 4 });
    let shade = store.create(shade);
    assert_eq!(MapDexSystem::run(&store, &mut map), Ok(()));
    store.get_mut(a).unwrap().use_item =
        Some(UseItem { item, target: Some(Position { x: 4, y: 4 }) });
    assert_eq!(
        ItemUseSystem::run(&mut store, &map, &mut log).unwrap_err(),
        Fault::MissingName(shade)
    );
}

#[test]
fn healing_that_does_not_fit_is_a_fault() {
    let map = GameMap::new_filled(10, 10, TileType::FLOOR);
    let mut log = GameLog::new_empty();
    let mut store = Store::new();
    let mut c = hero(Position { x: 1, y: 1 });
    c.statistics = Some(Statistics { hp_max: 10, hp: i32::MIN, power: 0, defense: 0 });
    let a = store.create(c);
    let mut poison = potion(None);
    poison.healing_effect = Some(HealingEffect { healing_amount: -1 });
    let item = store.create(poison);
    store.get_mut(a).unwrap().use_item = Some(UseItem { item, target: None });
    assert_eq!(
        ItemUseSystem::run(&mut store, &map, &mut log).unwrap_err(),
        Fault::Overflow(a)
    );
}

#[test]
fn requests_of_entities_without_statistics_are_only_removed() {
    let map = GameMap::new_filled(10, 10, TileType::FLOOR);
    let mut log = GameLog::new_empty();
    let mut store = Store::new();
    let item = store.create(potion(None));
    let user = store.create(named("Statue"));
    store.get_mut(user).unwrap().use_item = Some(UseItem { item, target: None });
    let sounds = ItemUseSystem::run(&mut store, &map, &mut log).unwrap();
    assert!(sounds.is_empty());
    assert!(log.messages.is_empty());
    assert!(store.doomed.is_empty());
    assert!(store.get(user).unwrap().use_item.is_none());
}

#[test]
fn pending_damage_of_items_is_applied_by_the_damage_system() {
    let mut store = Store::new();
    let mut c = hero(Position { x: 1, y: 1 });
    c.damage_counter = Some(DamageCounter { damage_values: vec![16] });
    let a = store.create(c);
    assert_eq!(b_ruge::combat::DamageSystem::run(&mut store), Ok(()));
    assert_eq!(store.get(a).unwrap().statistics.unwrap().hp, -11);
}
