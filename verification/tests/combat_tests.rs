use b_ruge::combat::{DamageSystem, MeleeCombatSystem};
use b_ruge::components::{DamageCounter, Entity, MeleeAttack, Name, Statistics};
use b_ruge::data::GameLog;
use b_ruge::store::{Components, Fault, Store};

fn fighter(name: &str, hp: i32, power: i32, defense: i32) -> Components {
    let mut c = Components::new();
    c.name = Some(Name { name: name.to_string() });
    c.statistics = Some(Statistics { hp_max: hp, hp, power, defense });
    c
}

fn hp_of(store: &Store, entity: Entity) -> i32 {
    store.get(entity).unwrap().statistics.unwrap().hp
}

fn pending(store: &Store, entity: Entity) -> Vec<i32> {
    match &store.get(entity).unwrap().damage_counter {
        Some(counter) => counter.damage_values.clone(),
        None => Vec::new(),
    }
}

#[test]
fn attack_deals_power_less_defense() {
    let mut store = Store::new();
    let mut log = GameLog::new_empty();
    let attacker = store.create(fighter("Rouge", 30, 5, 0));
    let defender = store.create(fighter("Goblin", 10, 2, 2));
    store.get_mut(attacker).unwrap().melee_attack = Some(MeleeAttack { target: defender });
    assert_eq!(MeleeCombatSystem::run(&mut store, &mut log), Ok(()));
    assert_eq!(pending(&store, defender), vec![3]);
    assert_eq!(log.messages, vec!["Rouge hits Goblin for 3 damage!"]);
    assert!(store.get(attacker).unwrap().melee_attack.is_none());
    assert_eq!(hp_of(&store, defender), 10);
    assert_eq!(DamageSystem::run(&mut store), Ok(()));
    assert_eq!(hp_of(&store, defender), 7);
    assert!(store.get(defender).unwrap().damage_counter.is_none());
    assert_eq!(hp_of(&store, attacker), 30);
}

#[test]
fn attack_that_does_not_break_the_defense_is_only_logged() {
    let mut store = Store::new();
    let mut log = GameLog::new_empty();
    let attacker = store.create(fighter("Goblin", 10, 2, 1));
    let defender = store.create(fighter("Rouge", 30, 5, 3));
    store.get_mut(attacker).unwrap().melee_attack = Some(MeleeAttack { target: defender });
    assert_eq!(MeleeCombatSystem::run(&mut store, &mut log), Ok(()));
    assert!(store.get(defender).unwrap().damage_counter.is_none());
    assert_eq!(log.messages, vec!["Goblin was unable to break Rouge's defenses"]);
    assert!(store.get(attacker).unwrap().melee_attack.is_none());
}

#[test]
fn the_dead_neither_strike_nor_are_struck() {
    let mut store = Store::new();
    let mut log = GameLog::new_empty();
    let dead = store.create(fighter("Ghost", 0, 9, 0));
    let alive = store.create(fighter("Rouge", 30, 5, 0));
    store.get_mut(dead).unwrap().melee_attack = Some(MeleeAttack { target: alive });
    store.get_mut(alive).unwrap().melee_attack = Some(MeleeAttack { target: dead });
    assert_eq!(MeleeCombatSystem::run(&mut store, &mut log), Ok(()));
    assert!(log.messages.is_empty());
    assert!(pending(&store, alive).is_empty());
    assert!(pending(&store, dead).is_empty());
    assert!(store.get(dead).unwrap().melee_attack.is_none());
    assert!(store.get(alive).unwrap().melee_attack.is_none());
}

#[test]
fn strikes_add_up_in_the_order_of_the_attackers() {
    let mut store = Store::new();
    let mut log = GameLog::new_empty();
    let target = store.create(fighter("Rouge", 30, 5, 1));
    let first = store.create(fighter("Goblin", 10, 2, 1));
    let second = store.create(fighter("Gremlin", 16, 4, 2));
    store.get_mut(first).unwrap().melee_attack = Some(MeleeAttack { target });
    store.get_mut(second).unwrap().melee_attack = Some(MeleeAttack { target });
    store.get_mut(target).unwrap().damage_counter =
        Some(DamageCounter { damage_values: vec![7] });
    assert_eq!(MeleeCombatSystem::run(&mut store, &mut log), Ok(()));
    assert_eq!(pending(&store, target), vec![7, 1, 3]);
    assert_eq!(
        log.messages,
        vec!["Goblin hits Rouge for 1 damage!", "Gremlin hits Rouge for 3 damage!"]
    );
    assert_eq!(DamageSystem::run(&mut store), Ok(()));
    assert_eq!(hp_of(&store, target), 19);
}

#[test]
fn attack_on_a_target_without_statistics_is_a_fault() {
    let mut store = Store::new();
    let mut log = GameLog::new_empty();
    let attacker = store.create(fighter("Rouge", 30, 5, 0));
    let thing = store.create(Components::new());
    store.get_mut(attacker).unwrap().melee_attack = Some(MeleeAttack { target: thing });
    assert_eq!(
        MeleeCombatSystem::run(&mut store, &mut log),
        Err(Fault::MissingStatistics(thing))
    );
    let gone = Entity { id: 77 };
    store.get_mut(attacker).unwrap().melee_attack = Some(MeleeAttack { target: gone });
    assert_eq!(
        MeleeCombatSystem::run(&mut store, &mut log),
        Err(Fault::MissingStatistics(gone))
    );
}

#[test]
fn attack_on_a_target_without_a_name_is_a_fault() {
    let mut store = Store::new();
    let mut log = GameLog::new_empty();
    let attacker = store.create(fighter("Rouge", 30, 5, 0));
    let mut nameless = fighter("", 10, 1, 1);
    nameless.name = None;
    let target = store.create(nameless);
    store.get_mut(attacker).unwrap().melee_attack = Some(MeleeAttack { target });
    assert_eq!(
        MeleeCombatSystem::run(&mut store, &mut log),
        Err(Fault::MissingName(target))
    );
}

#[test]
fn damage_that_does_not_fit_is_a_fault() {
    let mut store = Store::new();
    let mut log = GameLog::new_empty();
    let attacker = store.create(fighter("Titan", 30, i32::MAX, 0));
    let target = store.create(fighter("Rouge", 30, 5, -1));
    store.get_mut(attacker).unwrap().melee_attack = Some(MeleeAttack { target });
    assert_eq!(
        MeleeCombatSystem::run(&mut store, &mut log),
        Err(Fault::Overflow(attacker))
    );
    let mut store = Store::new();
    let victim = store.create(fighter("Rouge", i32::MIN + 5, 5, 0));
    store.get_mut(victim).unwrap().damage_counter =
        Some(DamageCounter { damage_values: vec![4, 4] });
    assert_eq!(DamageSystem::run(&mut store), Err(Fault::Overflow(victim)));
}

#[test]
fn damage_is_summed_exactly() {
    let mut store = Store::new();
    let victim = store.create(fighter("Rouge", 10, 5, 0));
    store.get_mut(victim).unwrap().damage_counter =
        Some(DamageCounter { damage_values: vec![i32::MAX, i32::MAX, -i32::MAX, -i32::MAX, 13] });
    assert_eq!(DamageSystem::run(&mut store), Ok(()));
    assert_eq!(hp_of(&store, victim), -3);
    assert_eq!(store.get(victim).unwrap().statistics.unwrap().hp_max, 10);
}

#[test]
fn damage_counters_are_cleared_even_without_statistics() {
    let mut store = Store::new();
    let mut c = Components::new();
    c.damage_counter = Some(DamageCounter { damage_values: vec![1, 2] });
    let thing = store.create(c);
    assert_eq!(DamageSystem::run(&mut store), Ok(()));
    assert!(store.get(thing).unwrap().damage_counter.is_none());
}

#[test]
fn add_damage_taken_appends_or_creates() {
    let mut store = Store::new();
    let victim = store.create(fighter("Rouge", 10, 5, 0));
    assert_eq!(DamageCounter::add_damage_taken(&mut store, victim, 4), Ok(()));
    assert_eq!(pending(&store, victim), vec![4]);
    assert_eq!(DamageCounter::add_damage_taken(&mut store, victim, 6), Ok(()));
    assert_eq!(pending(&store, victim), vec![4, 6]);
    let gone = Entity { id: 5 };
    assert_eq!(
        DamageCounter::add_damage_taken(&mut store, gone, 1),
        Err(Fault::MissingEntity(gone))
    );
}

#[test]
fn store_creates_deletes_and_maintains() {
    let mut store = Store::new();
    assert_eq!(store.slot_count(), 0);
    let a = store.create(Components::new());
    let b = store.create(Components::new());
    let c = store.create(Components::new());
    assert_eq!((a.id, b.id, c.id), (0, 1, 2));
    assert!(store.is_alive(b));
    assert!(store.delete(b));
    assert!(!store.delete(b));
    assert!(!store.is_alive(b));
    assert!(store.get(b).is_none());
    assert!(store.get_mut(b).is_none());
    assert_eq!(store.delete_later(b), Err(Fault::MissingEntity(b)));
    assert_eq!(store.delete_later(c), Ok(()));
    assert!(store.is_alive(c));
    store.maintain();
    assert!(!store.is_alive(c));
    assert!(store.is_alive(a));
    assert!(store.doomed.is_empty());
    let d = store.create(Components::new());
    assert_eq!(d.id, 3);
    assert_eq!(store.slot_count(), 4);
}
