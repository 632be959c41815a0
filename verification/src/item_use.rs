//! The use of items: healing, damage on a targeted tile, sounds, and the
//! end of consumable items.

use vstd::prelude::*;
use crate::components::{DamageCounter, Entity, Position, Statistics};
use crate::data::GameLog;
use crate::map::GameMap;
use crate::messages::{
    healing_message, healing_text, item_hit_message, item_hit_text, miss_message, miss_text,
};
use crate::store::{
    first_fault, lemma_first_fault_found, lemma_first_fault_none, lemma_no_fault, Components,
    Fault, Store,
};

verus! {

/// What stops the damage to the entity `hit`, if anything: it does not
/// exist, or has no name.
pub open spec fn hit_fault(store: &Store, hit: Entity) -> Option<Fault> {
    if store.alive(hit) && store.of(hit).name is Some {
        None
    } else {
        Some(Fault::MissingName(hit))
    }
}

/// What stops the damage to each of the entities on a tile, if anything.
pub open spec fn hit_faults(store: &Store, contents: Seq<Entity>) -> Seq<Option<Fault>> {
    Seq::new(contents.len(), |j: int| hit_fault(store, contents[j]))
}

/// The damage that the entity in the slot `k` takes when each of the first
/// `m` entities on a tile is hit for `amount`.
pub open spec fn tile_hits(contents: Seq<Entity>, m: int, amount: i32, k: int) -> Seq<i32>
    decreases m,
{
    if m <= 0 {
        Seq::empty()
    } else if contents[m - 1].id == k {
        tile_hits(contents, m - 1, amount, k).push(amount)
    } else {
        tile_hits(contents, m - 1, amount, k)
    }
}

/// The log entries for the hits on the first `m` entities on a tile.
pub open spec fn tile_entries(
    store: &Store,
    contents: Seq<Entity>,
    m: int,
    user: Seq<char>,
    item: Seq<char>,
    amount: i32,
) -> Seq<Seq<char>>
    decreases m,
{
    if m <= 0 {
        Seq::empty()
    } else {
        tile_entries(store, contents, m - 1, user, item, amount).push(
            item_hit_text(user, item, store.of(contents[m - 1]).name_text(), amount as int),
        )
    }
}

/// What the hits on the first `m` entities of a tile leave behind: the
/// damage is pending on the entities that were hit, and nothing else has
/// changed.
pub open spec fn tile_hit(
    before: &Store,
    after: &Store,
    contents: Seq<Entity>,
    m: int,
    amount: i32,
) -> bool {
    &&& after.same_entities(before)
    &&& after.doomed == before.doomed
    &&& forall|k: int|
        before.holds(k) ==> {
            &&& #[trigger] after.at(k) == (Components {
                damage_counter: after.at(k).damage_counter,
                ..before.at(k)
            })
            &&& after.at(k).pending_damage() == before.at(k).pending_damage() + tile_hits(
                contents,
                m,
                amount,
                k,
            )
            &&& (after.at(k).damage_counter is Some) == (before.at(k).damage_counter is Some
                || tile_hits(contents, m, amount, k).len() > 0)
        }
}

/// Hits each entity on a tile for `amount`, and logs each hit.
fn hit_tile(
    store: &mut Store,
    game_log: &mut GameLog,
    contents: &Vec<Entity>,
    user: &str,
    item: &str,
    amount: i32,
) -> (r: Result<(), Fault>)
    requires
        old(store).wf(),
    ensures
        match first_fault(hit_faults(old(store), contents@)) {
            Some(f) => r == Err::<(), Fault>(f),
            None => r is Ok && tile_hit(
                old(store),
                final(store),
                contents@,
                contents@.len() as int,
                amount,
            ) && final(game_log)@ == old(game_log)@ + tile_entries(
                old(store),
                contents@,
                contents@.len() as int,
                user@,
                item@,
                amount,
            ),
        },
{
    let mut j: usize = 0;
    while j < contents.len()
        invariant
            store.wf(),
            j <= contents@.len(),
            tile_hit(old(store), store, contents@, j as int, amount),
            game_log@ == old(game_log)@ + tile_entries(
                old(store),
                contents@,
                j as int,
                user@,
                item@,
                amount,
            ),
            forall|h: int| 0 <= h < j ==> hit_fault(old(store), contents@[h]) is None,
        decreases contents@.len() - j,
    {
        let ghost before = *store;
        let hit: Entity = contents[j];
        proof {
            if old(store).alive(hit) {
                assert(old(store).holds(hit.id as int));
                assert(store.at(hit.id as int).name == old(store).at(hit.id as int).name);
                assert(store.of(hit) == store.at(hit.id as int));
            }
            assert(store.alive(hit) == old(store).alive(hit)) by {
                if hit.id < old(store).slots@.len() {
                    assert((store.slots@[hit.id as int] is Some) == (
                    old(store).slots@[hit.id as int] is Some));
                }
            }
        }
        let entry: String;
        match store.get(hit) {
            None => {
                proof {
                    lemma_first_fault_found(hit_faults(old(store), contents@), j as int);
                }
                return Err(Fault::MissingName(hit));
            },
            Some(c) => {
                match &c.name {
                    None => {
                        proof {
                            lemma_first_fault_found(hit_faults(old(store), contents@), j as int);
                        }
                        return Err(Fault::MissingName(hit));
                    },
                    Some(name) => {
                        entry = item_hit_message(user, item, name.name.as_str(), amount);
                    },
                }
            },
        }
        let added = DamageCounter::add_damage_taken(store, hit, amount);
        proof {
            let so_far = tile_entries(old(store), contents@, j as int, user@, item@, amount);
            assert(old(game_log)@ + so_far.push(entry@) =~= (old(game_log)@ + so_far).push(entry@));
        }
        game_log.push_owned(entry);
        proof {
            assert forall|k: int| old(store).holds(k) implies {
                &&& #[trigger] store.at(k) == (Components {
                    damage_counter: store.at(k).damage_counter,
                    ..old(store).at(k)
                })
                &&& store.at(k).pending_damage() == old(store).at(k).pending_damage() + tile_hits(
                    contents@,
                    j + 1,
                    amount,
                    k,
                )
                &&& (store.at(k).damage_counter is Some) == (old(
                    store,
                ).at(k).damage_counter is Some || tile_hits(contents@, j + 1, amount, k).len() > 0)
            } by {
                assert(before.holds(k));
                assert(before.at(k) == before.at(k));
                let hits = tile_hits(contents@, j as int, amount, k);
                if hit.id == k {
                    assert(old(store).at(k).pending_damage() + hits.push(amount) =~= (old(
                        store,
                    ).at(k).pending_damage() + hits).push(amount));
                } else {
                    assert(store.at(k) == before.at(k));
                }
            }
        }
        j += 1;
    }
    proof {
        lemma_first_fault_none(hit_faults(old(store), contents@));
    }
    Ok(())
}

/// Whether the entity in the slot `i` uses an item this turn: it has asked
/// to, and has statistics.
pub open spec fn uses(store: &Store, i: int) -> bool {
    store.holds(i) && store.at(i).use_item is Some && store.at(i).statistics is Some
}

/// The item that the entity in the slot `i` uses.
pub open spec fn used_item(store: &Store, i: int) -> Entity {
    store.at(i).use_item->0.item
}

/// The hit points after healing by `amount`: never more than the maximum.
pub open spec fn healed_hp(statistics: Statistics, amount: int) -> int {
    if statistics.hp + amount < statistics.hp_max {
        statistics.hp + amount
    } else {
        statistics.hp_max as int
    }
}

/// The entities on the tile at `target`.
pub open spec fn tile_of(map: &GameMap, target: Position) -> Seq<Entity> {
    map.tile_contents@[map.spec_idx(target.x as int, target.y as int)]@
}

/// What stops the use of an item by the entity in the slot `i`, if
/// anything: a user or an item without a name, healed hit points that do
/// not fit into 32 bits, a damaging item without a target or with a target
/// off the map, or an entity on the targeted tile without a name.
pub open spec fn use_fault(store: &Store, map: &GameMap, i: int) -> Option<Fault> {
    if !uses(store, i) {
        None
    } else {
        let me = Entity { id: i as u32 };
        let item = used_item(store, i);
        if store.at(i).name is None {
            Some(Fault::MissingName(me))
        } else if !store.alive(item) || store.of(item).name is None {
            Some(Fault::MissingName(item))
        } else if store.of(item).healing_effect is Some && healed_hp(
            store.at(i).statistics->0,
            store.of(item).healing_effect->0.healing_amount as int,
        ) < i32::MIN {
            Some(Fault::Overflow(me))
        } else if store.of(item).damage_effect is Some {
            match store.at(i).use_item->0.target {
                None => Some(Fault::MissingTarget(me)),
                Some(target) => if !map.has_tile(target.x as int, target.y as int) {
                    Some(Fault::OffMap(me))
                } else {
                    first_fault(hit_faults(store, tile_of(map, target)))
                },
            }
        } else {
            None
        }
    }
}

/// What stops the use of an item by each slot's entity, if anything.
pub open spec fn use_faults(store: &Store, map: &GameMap) -> Seq<Option<Fault>> {
    Seq::new(store.slots@.len(), |i: int| use_fault(store, map, i))
}

/// The log entries for the use of an item by the entity in the slot `i`:
/// the healing first, then the damage.
pub open spec fn use_step_entries(store: &Store, map: &GameMap, i: int) -> Seq<Seq<char>> {
    let item = store.of(used_item(store, i));
    let user_name = store.at(i).name_text();
    let item_name = item.name_text();
    let healing = if item.healing_effect is Some {
        seq![healing_text(user_name, item_name, item.healing_effect->0.healing_amount as int)]
    } else {
        Seq::empty()
    };
    let damage = if item.damage_effect is Some {
        let contents = tile_of(map, store.at(i).use_item->0.target->0);
        if contents.len() == 0 {
            seq![miss_text(user_name, item_name)]
        } else {
            tile_entries(
                store,
                contents,
                contents.len() as int,
                user_name,
                item_name,
                item.damage_effect->0.damage_amount,
            )
        }
    } else {
        Seq::empty()
    };
    healing + damage
}

/// The damage that the entity in the slot `k` takes from the item that the
/// entity in the slot `i` uses.
pub open spec fn use_step_hits(store: &Store, map: &GameMap, i: int, k: int) -> Seq<i32> {
    let item = store.of(used_item(store, i));
    if uses(store, i) && item.damage_effect is Some {
        let contents = tile_of(map, store.at(i).use_item->0.target->0);
        tile_hits(contents, contents.len() as int, item.damage_effect->0.damage_amount, k)
    } else {
        Seq::empty()
    }
}

/// The log entries for the items used by the entities in the slots below
/// `n`.
pub open spec fn use_entries(store: &Store, map: &GameMap, n: int) -> Seq<Seq<char>>
    decreases n,
{
    if n <= 0 {
        Seq::empty()
    } else if uses(store, n - 1) {
        use_entries(store, map, n - 1) + use_step_entries(store, map, n - 1)
    } else {
        use_entries(store, map, n - 1)
    }
}

/// The damage that the entity in the slot `k` takes from the items used by
/// the entities in the slots below `n`.
pub open spec fn use_hits(store: &Store, map: &GameMap, n: int, k: int) -> Seq<i32>
    decreases n,
{
    if n <= 0 {
        Seq::empty()
    } else {
        use_hits(store, map, n - 1, k) + use_step_hits(store, map, n - 1, k)
    }
}

/// The sounds of the items used by the entities in the slots below `n`.
pub open spec fn use_sounds(store: &Store, n: int) -> Seq<Seq<char>>
    decreases n,
{
    if n <= 0 {
        Seq::empty()
    } else if uses(store, n - 1) && store.of(used_item(store, n - 1)).sound_effect is Some {
        use_sounds(store, n - 1).push(
            store.of(used_item(store, n - 1)).sound_effect->0.resource@,
        )
    } else {
        use_sounds(store, n - 1)
    }
}

/// The consumable items used by the entities in the slots below `n`.
pub open spec fn used_up(store: &Store, n: int) -> Seq<Entity>
    decreases n,
{
    if n <= 0 {
        Seq::empty()
    } else if uses(store, n - 1) && store.of(used_item(store, n - 1)).consumable {
        used_up(store, n - 1).push(used_item(store, n - 1))
    } else {
        used_up(store, n - 1)
    }
}

/// The statistics of an entity after it has used its item.
pub open spec fn statistics_after_use(store: &Store, i: int) -> Option<Statistics> {
    if uses(store, i) && store.of(used_item(store, i)).healing_effect is Some {
        Some(
            Statistics {
                hp: healed_hp(
                    store.at(i).statistics->0,
                    store.of(used_item(store, i)).healing_effect->0.healing_amount as int,
                ) as i32,
                ..store.at(i).statistics->0
            },
        )
    } else {
        store.at(i).statistics
    }
}

/// What the use of items by the entities in the slots below `n` leaves
/// behind: the users are healed, the damage is pending on the entities that
/// were hit, the consumable items are marked for deletion, the requests are
/// gone, and nothing else has changed.
pub open spec fn use_done(before: &Store, map: &GameMap, after: &Store, n: int) -> bool {
    &&& after.same_entities(before)
    &&& after.doomed@ == before.doomed@ + used_up(before, n)
    &&& forall|k: int|
        before.holds(k) ==> {
            &&& #[trigger] after.at(k) == (Components {
                statistics: if k < n {
                    statistics_after_use(before, k)
                } else {
                    before.at(k).statistics
                },
                damage_counter: after.at(k).damage_counter,
                use_item: if k < n {
                    None
                } else {
                    before.at(k).use_item
                },
                ..before.at(k)
            })
            &&& after.at(k).pending_damage() == before.at(k).pending_damage() + use_hits(
                before,
                map,
                n,
                k,
            )
            &&& (after.at(k).damage_counter is Some) == (before.at(k).damage_counter is Some
                || use_hits(before, map, n, k).len() > 0)
        }
}

/// What one use of an item takes from the store before anything changes.
struct UsePlan {
    user_name: String,
    item_name: String,
    item: Entity,
    sound: Option<String>,
    healing: Option<i32>,
    healed: i32,
    damage: Option<i32>,
    tile: usize,
    consumable: bool,
}

/// Reads what the entity in the slot `i` needs to use its item.
fn plan_use(store: &Store, map: &GameMap, i: usize) -> (r: Result<Option<UsePlan>, Fault>)
    requires
        store.wf(),
        map.wf(),
        i < store.slots@.len(),
    ensures
        !uses(store, i as int) ==> r is Ok && r->Ok_0 is None,
        uses(store, i as int) ==> {
            let me = Entity { id: i as u32 };
            let item = used_item(store, i as int);
            if store.at(i as int).name is None {
                r is Err && r->Err_0 == Fault::MissingName(me)
            } else if !store.alive(item) || store.of(item).name is None {
                r is Err && r->Err_0 == Fault::MissingName(item)
            } else if store.of(item).healing_effect is Some && healed_hp(
                store.at(i as int).statistics->0,
                store.of(item).healing_effect->0.healing_amount as int,
            ) < i32::MIN {
                r is Err && r->Err_0 == Fault::Overflow(me)
            } else if store.of(item).damage_effect is Some && store.at(
                i as int,
            ).use_item->0.target is None {
                r is Err && r->Err_0 == Fault::MissingTarget(me)
            } else if store.of(item).damage_effect is Some && !map.has_tile(
                store.at(i as int).use_item->0.target->0.x as int,
                store.at(i as int).use_item->0.target->0.y as int,
            ) {
                r is Err && r->Err_0 == Fault::OffMap(me)
            } else {
                &&& r is Ok
                &&& r->Ok_0 is Some
                &&& r->Ok_0->0.user_name@ == store.at(i as int).name_text()
                &&& r->Ok_0->0.item_name@ == store.of(item).name_text()
                &&& r->Ok_0->0.item == item
                &&& r->Ok_0->0.sound is Some == store.of(item).sound_effect is Some
                &&& r->Ok_0->0.sound is Some ==> r->Ok_0->0.sound->0@ == store.of(
                    item,
                ).sound_effect->0.resource@
                &&& r->Ok_0->0.healing is Some == store.of(item).healing_effect is Some
                &&& r->Ok_0->0.healing is Some ==> r->Ok_0->0.healing->0 == store.of(
                    item,
                ).healing_effect->0.healing_amount && r->Ok_0->0.healed == healed_hp(
                    store.at(i as int).statistics->0,
                    store.of(item).healing_effect->0.healing_amount as int,
                )
                &&& r->Ok_0->0.damage is Some == store.of(item).damage_effect is Some
                &&& r->Ok_0->0.damage is Some ==> r->Ok_0->0.damage->0 == store.of(
                    item,
                ).damage_effect->0.damage_amount && r->Ok_0->0.tile == map.spec_idx(
                    store.at(i as int).use_item->0.target->0.x as int,
                    store.at(i as int).use_item->0.target->0.y as int,
                )
                &&& r->Ok_0->0.consumable == store.of(item).consumable
            }
        },
{
    let c = match &store.slots[i] {
        Some(c) => c,
        None => {
            return Ok(None);
        },
    };
    let request = match c.use_item {
        Some(request) => request,
        None => {
            return Ok(None);
        },
    };
    let stats = match c.statistics {
        Some(stats) => stats,
        None => {
            return Ok(None);
        },
    };
    let me = Entity { id: i as u32 };
    let user_name = match &c.name {
        Some(name) => name.name.clone(),
        None => {
            return Err(Fault::MissingName(me));
        },
    };
    let item = match store.get(request.item) {
        Some(item) => item,
        None => {
            return Err(Fault::MissingName(request.item));
        },
    };
    let item_name = match &item.name {
        Some(name) => name.name.clone(),
        None => {
            return Err(Fault::MissingName(request.item));
        },
    };
    let sound = match &item.sound_effect {
        Some(sound) => Some(sound.resource.clone()),
        None => None,
    };
    let mut healing: Option<i32> = None;
    let mut healed: i32 = 0;
    if let Some(effect) = item.healing_effect {
        let sum: i64 = stats.hp as i64 + effect.healing_amount as i64;
        let capped: i64 = if sum < stats.hp_max as i64 {
            sum
        } else {
            stats.hp_max as i64
        };
        if capped < i32::MIN as i64 {
            return Err(Fault::Overflow(me));
        }
        healing = Some(effect.healing_amount);
        healed = capped as i32;
    }
    let mut damage: Option<i32> = None;
    let mut tile: usize = 0;
    if let Some(effect) = item.damage_effect {
        match request.target {
            None => {
                return Err(Fault::MissingTarget(me));
            },
            Some(target) => {
                if !map.check_has_tile(target.x, target.y) {
                    return Err(Fault::OffMap(me));
                }
                damage = Some(effect.damage_amount);
                tile = map.coordinates_to_idx(target.x, target.y);
            },
        }
    }
    Ok(
        Some(
            UsePlan {
                user_name,
                item_name,
                item: request.item,
                sound,
                healing,
                healed,
                damage,
                tile,
                consumable: item.consumable,
            },
        ),
    )
}

/// The texts of a list of strings.
pub open spec fn texts(strings: Seq<String>) -> Seq<Seq<char>> {
    Seq::new(strings.len(), |j: int| strings[j]@)
}

/// Whether two stores hold the same entities under the same names.
pub open spec fn same_names(a: &Store, b: &Store) -> bool {
    &&& a.same_entities(b)
    &&& forall|k: int| b.holds(k) ==> (#[trigger] a.at(k)).name == b.at(k).name
}

/// The faults of the hits on a tile depend on the names of the entities
/// only.
proof fn lemma_hit_faults_read(a: &Store, b: &Store, contents: Seq<Entity>)
    requires
        same_names(a, b),
    ensures
        hit_faults(a, contents) == hit_faults(b, contents),
{
    assert forall|j: int| 0 <= j < contents.len() implies hit_fault(a, contents[j]) == hit_fault(
        b,
        contents[j],
    ) by {
        let hit = contents[j];
        if hit.id < b.slots@.len() {
            assert((a.slots@[hit.id as int] is Some) == (b.slots@[hit.id as int] is Some));
            if b.holds(hit.id as int) {
                assert(a.at(hit.id as int).name == b.at(hit.id as int).name);
            }
        }
    }
    assert(hit_faults(a, contents) =~= hit_faults(b, contents));
}

/// The log entries of the hits on a tile depend on the names of the
/// entities only.
proof fn lemma_tile_entries_read(
    a: &Store,
    b: &Store,
    contents: Seq<Entity>,
    m: int,
    user: Seq<char>,
    item: Seq<char>,
    amount: i32,
)
    requires
        same_names(a, b),
        0 <= m <= contents.len(),
        forall|j: int| 0 <= j < m ==> hit_fault(b, contents[j]) is None,
    ensures
        tile_entries(a, contents, m, user, item, amount) == tile_entries(
            b,
            contents,
            m,
            user,
            item,
            amount,
        ),
    decreases m,
{
    if m > 0 {
        lemma_tile_entries_read(a, b, contents, m - 1, user, item, amount);
        let hit = contents[m - 1];
        assert(hit_fault(b, hit) is None);
        assert(b.holds(hit.id as int));
        assert(a.at(hit.id as int).name == b.at(hit.id as int).name);
    }
}

/// Where no hit on a tile has a fault, each of its entities has a name.
proof fn lemma_no_hit_fault(store: &Store, contents: Seq<Entity>)
    requires
        first_fault(hit_faults(store, contents)) is None,
    ensures
        forall|j: int| 0 <= j < contents.len() ==> hit_fault(store, contents[j]) is None,
{
    let faults = hit_faults(store, contents);
    lemma_no_fault(faults);
    assert forall|j: int| 0 <= j < contents.len() implies hit_fault(store, contents[j]) is None by {
        assert(faults[j] is None);
    }
}

/// What the use of an item by the entity in the slot `i` leaves behind.
pub open spec fn use_stepped(before: &Store, map: &GameMap, after: &Store, i: int) -> bool {
    &&& after.same_entities(before)
    &&& after.doomed@ == if uses(before, i) && before.of(used_item(before, i)).consumable {
        before.doomed@.push(used_item(before, i))
    } else {
        before.doomed@
    }
    &&& forall|k: int|
        before.holds(k) ==> {
            &&& #[trigger] after.at(k) == (Components {
                statistics: if k == i {
                    statistics_after_use(before, k)
                } else {
                    before.at(k).statistics
                },
                damage_counter: after.at(k).damage_counter,
                use_item: if k == i {
                    None
                } else {
                    before.at(k).use_item
                },
                ..before.at(k)
            })
            &&& after.at(k).pending_damage() == before.at(k).pending_damage() + use_step_hits(
                before,
                map,
                i,
                k,
            )
            &&& (after.at(k).damage_counter is Some) == (before.at(k).damage_counter is Some
                || use_step_hits(before, map, i, k).len() > 0)
        }
}

/// Sets the hit points of the entity in the slot `i`.
fn set_hp(store: &mut Store, i: usize, hp: i32)
    requires
        old(store).holds(i as int),
        old(store).at(i as int).statistics is Some,
    ensures
        final(store).doomed == old(store).doomed,
        final(store).slots@ == old(store).slots@.update(
            i as int,
            Some(
                Components {
                    statistics: Some(Statistics { hp, ..old(store).at(i as int).statistics->0 }),
                    ..old(store).at(i as int)
                },
            ),
        ),
{
    if let Some(c) = &mut store.slots[i] {
        if let Some(stats) = &mut c.statistics {
            stats.hp = hp;
        }
    }
}

/// Removes the request to use an item from the entity in the slot `i`.
fn clear_use(store: &mut Store, i: usize)
    requires
        i < old(store).slots@.len(),
    ensures
        final(store).doomed == old(store).doomed,
        final(store).same_entities(old(store)),
        forall|k: int|
            old(store).holds(k) ==> #[trigger] final(store).at(k) == if k == i {
                Components { use_item: None, ..old(store).at(k) }
            } else {
                old(store).at(k)
            },
{
    if let Some(c) = &mut store.slots[i] {
        c.use_item = None;
    }
}

/// Lets the entity in the slot `i` use its item, if it has asked to.
fn use_one(
    store: &mut Store,
    map: &GameMap,
    game_log: &mut GameLog,
    sounds: &mut Vec<String>,
    i: usize,
) -> (r: Result<(), Fault>)
    requires
        old(store).wf(),
        map.wf(),
        i < old(store).slots@.len(),
    ensures
        match use_fault(old(store), map, i as int) {
            Some(f) => r == Err::<(), Fault>(f),
            None => {
                &&& r is Ok
                &&& use_stepped(old(store), map, final(store), i as int)
                &&& final(game_log)@ == if uses(old(store), i as int) {
                    old(game_log)@ + use_step_entries(old(store), map, i as int)
                } else {
                    old(game_log)@
                }
                &&& texts(final(sounds)@) == if uses(old(store), i as int) && old(store).of(
                    used_item(old(store), i as int),
                ).sound_effect is Some {
                    texts(old(sounds)@).push(
                        old(store).of(used_item(old(store), i as int)).sound_effect->0.resource@,
                    )
                } else {
                    texts(old(sounds)@)
                }
            },
        },
{
    let planned = plan_use(store, map, i);
    match planned {
        Err(f) => {
            return Err(f);
        },
        Ok(None) => {
            clear_use(store, i);
            proof {
                assert forall|k: int| old(store).holds(k) implies use_step_hits(
                    old(store),
                    map,
                    i as int,
                    k,
                ).len() == 0 by {}
                assert forall|k: int| old(store).holds(k) implies (#[trigger] store.at(
                    k,
                )).pending_damage() == old(store).at(k).pending_damage() + use_step_hits(
                    old(store),
                    map,
                    i as int,
                    k,
                ) by {
                    assert(old(store).at(k).pending_damage() + Seq::<i32>::empty() =~= old(
                        store,
                    ).at(k).pending_damage());
                }
            }
            return Ok(());
        },
        Ok(Some(plan)) => {
            let ghost item = old(store).of(plan.item);
            if let Some(sound) = plan.sound {
                let ghost heard = texts(sounds@);
                sounds.push(sound);
                assert(texts(sounds@) =~= heard.push(sound@));
            }
            let ghost log0 = game_log@;
            if let Some(amount) = plan.healing {
                set_hp(store, i, plan.healed);
                game_log.push_owned(
                    healing_message(plan.user_name.as_str(), plan.item_name.as_str(), amount),
                );
            }
            let ghost healed = *store;
            let ghost log1 = game_log@;
            proof {
                assert(same_names(&healed, old(store))) by {
                    assert forall|k: int| old(store).holds(k) implies (#[trigger] healed.at(
                        k,
                    )).name == old(store).at(k).name by {}
                }
            }
            if let Some(amount) = plan.damage {
                let contents = &map.tile_contents[plan.tile];
                proof {
                    lemma_hit_faults_read(&healed, old(store), contents@);
                }
                if contents.len() == 0 {
                    proof {
                        lemma_first_fault_none(hit_faults(old(store), contents@));
                    }
                    game_log.push_owned(
                        miss_message(plan.user_name.as_str(), plan.item_name.as_str()),
                    );
                } else {
                    let hit = hit_tile(
                        store,
                        game_log,
                        contents,
                        plan.user_name.as_str(),
                        plan.item_name.as_str(),
                        amount,
                    );
                    match hit {
                        Err(f) => {
                            return Err(f);
                        },
                        Ok(()) => {
                            proof {
                                lemma_no_hit_fault(old(store), contents@);
                                lemma_tile_entries_read(
                                    &healed,
                                    old(store),
                                    contents@,
                                    contents@.len() as int,
                                    plan.user_name@,
                                    plan.item_name@,
                                    amount,
                                );
                            }
                        },
                    }
                }
            }
            let ghost struck = *store;
            if plan.consumable {
                store.doomed.push(plan.item);
            }
            let ghost marked = *store;
            clear_use(store, i);
            proof {
                let heal_entries = if item.healing_effect is Some {
                    seq![
                        healing_text(
                            plan.user_name@,
                            plan.item_name@,
                            item.healing_effect->0.healing_amount as int,
                        ),
                    ]
                } else {
                    Seq::empty()
                };
                assert(log1 =~= log0 + heal_entries);
                assert(game_log@ =~= old(game_log)@ + use_step_entries(old(store), map, i as int));
                assert forall|k: int| old(store).holds(k) implies {
                    &&& #[trigger] store.at(k) == (Components {
                        statistics: if k == i {
                            statistics_after_use(old(store), k)
                        } else {
                            old(store).at(k).statistics
                        },
                        damage_counter: store.at(k).damage_counter,
                        use_item: if k == i {
                            None
                        } else {
                            old(store).at(k).use_item
                        },
                        ..old(store).at(k)
                    })
                    &&& store.at(k).pending_damage() == old(store).at(k).pending_damage()
                        + use_step_hits(old(store), map, i as int, k)
                    &&& (store.at(k).damage_counter is Some) == (old(
                        store,
                    ).at(k).damage_counter is Some || use_step_hits(old(store), map, i as int, k).len()
                        > 0)
                } by {
                    assert(healed.holds(k));
                    assert(healed.at(k) == healed.at(k));
                    assert(struck.holds(k));
                    assert(struck.at(k) == struck.at(k));
                    assert(marked.at(k) == struck.at(k));
                    assert(old(store).at(k).pending_damage() + Seq::<i32>::empty() =~= old(
                        store,
                    ).at(k).pending_damage());
                }
            }
            return Ok(());
        },
    }
}

/// What the use of an item reads is left unchanged by the uses of the
/// slots before it.
proof fn lemma_use_reads(start: &Store, map: &GameMap, now: &Store, i: int)
    requires
        use_done(start, map, now, i),
        0 <= i < start.len(),
    ensures
        same_names(now, start),
        uses(now, i) == uses(start, i),
        use_fault(now, map, i) == use_fault(start, map, i),
        uses(start, i) ==> {
            &&& used_item(now, i) == used_item(start, i)
            &&& use_fault(start, map, i) is None ==> statistics_after_use(now, i)
                == statistics_after_use(start, i)
            &&& now.alive(used_item(start, i)) == start.alive(used_item(start, i))
            &&& start.alive(used_item(start, i)) ==> {
                &&& now.of(used_item(start, i)).sound_effect == start.of(
                    used_item(start, i),
                ).sound_effect
                &&& now.of(used_item(start, i)).consumable == start.of(
                    used_item(start, i),
                ).consumable
            }
            &&& use_fault(start, map, i) is None ==> forall|k: int|
                use_step_hits(now, map, i, k) == use_step_hits(start, map, i, k)
            &&& use_fault(start, map, i) is None ==> use_step_entries(now, map, i)
                == use_step_entries(start, map, i)
        },
{
    assert(same_names(now, start)) by {
        assert forall|k: int| start.holds(k) implies (#[trigger] now.at(k)).name == start.at(
            k,
        ).name by {}
    }
    if start.holds(i) {
        assert(now.at(i) == now.at(i));
        if uses(start, i) {
            let item = used_item(start, i);
            assert(now.alive(item) == start.alive(item)) by {
                if item.id < start.slots@.len() {
                    assert((now.slots@[item.id as int] is Some) == (
                    start.slots@[item.id as int] is Some));
                }
            }
            if start.alive(item) {
                assert(start.holds(item.id as int));
                assert(now.at(item.id as int) == now.at(item.id as int));
                assert(now.of(item) == now.at(item.id as int));
                assert(start.of(item) == start.at(item.id as int));
                if start.of(item).damage_effect is Some && start.at(i).use_item->0.target is Some {
                    let target = start.at(i).use_item->0.target->0;
                    let contents = tile_of(map, target);
                    lemma_hit_faults_read(now, start, contents);
                    if use_fault(start, map, i) is None && start.at(i).name is Some && start.of(
                        item,
                    ).name is Some {
                        lemma_no_hit_fault(start, contents);
                        lemma_tile_entries_read(
                            now,
                            start,
                            contents,
                            contents.len() as int,
                            start.at(i).name_text(),
                            start.of(item).name_text(),
                            start.of(item).damage_effect->0.damage_amount,
                        );
                    }
                }
            }
        }
    }
}

/// One more use of an item keeps what the uses leave behind in order.
proof fn lemma_use_step(start: &Store, map: &GameMap, before: &Store, after: &Store, i: int)
    requires
        use_done(start, map, before, i),
        use_stepped(before, map, after, i),
        0 <= i < start.len(),
        use_fault(start, map, i) is None,
    ensures
        use_done(start, map, after, i + 1),
{
    lemma_use_reads(start, map, before, i);
    assert(after.doomed@ =~= start.doomed@ + used_up(start, i + 1)) by {
        if uses(start, i) && start.alive(used_item(start, i)) && start.of(
            used_item(start, i),
        ).consumable {
            assert((start.doomed@ + used_up(start, i)).push(used_item(start, i)) =~= start.doomed@
                + used_up(start, i).push(used_item(start, i)));
        }
    }
    assert forall|k: int| start.holds(k) implies {
        &&& #[trigger] after.at(k) == (Components {
            statistics: if k < i + 1 {
                statistics_after_use(start, k)
            } else {
                start.at(k).statistics
            },
            damage_counter: after.at(k).damage_counter,
            use_item: if k < i + 1 {
                None
            } else {
                start.at(k).use_item
            },
            ..start.at(k)
        })
        &&& after.at(k).pending_damage() == start.at(k).pending_damage() + use_hits(
            start,
            map,
            i + 1,
            k,
        )
        &&& (after.at(k).damage_counter is Some) == (start.at(k).damage_counter is Some
            || use_hits(start, map, i + 1, k).len() > 0)
    } by {
        assert(before.holds(k));
        assert(before.at(k) == before.at(k));
        assert(after.at(k) == after.at(k));
        assert(use_step_hits(before, map, i, k) == use_step_hits(start, map, i, k));
        assert(start.at(k).pending_damage() + (use_hits(start, map, i, k) + use_step_hits(
            start,
            map,
            i,
            k,
        )) =~= (start.at(k).pending_damage() + use_hits(start, map, i, k)) + use_step_hits(
            start,
            map,
            i,
            k,
        ));
        if k == i && !uses(start, i) {
            assert(statistics_after_use(start, i) == start.at(i).statistics);
        }
    }
}

/// System that resolves the requests to use an item.
pub struct ItemUseSystem {}

impl ItemUseSystem {
    /// Resolves every request to use an item, in the order of the users'
    /// slots. An item with a healing effect raises the hit points of its user,
    /// up to the maximum; one with a damage effect hits every entity on the
    /// targeted tile; a consumable item is marked for deletion. All requests
    /// are removed. Returns the sounds of the items that were used, for the
    /// caller to play.
    pub fn run(store: &mut Store, map: &GameMap, game_log: &mut GameLog) -> (r: Result<
        Vec<String>,
        Fault,
    >)
        requires
            old(store).wf(),
            map.wf(),
        ensures
            match first_fault(use_faults(old(store), map)) {
                Some(f) => r is Err && r->Err_0 == f,
                None => {
                    &&& r is Ok
                    &&& use_done(old(store), map, final(store), old(store).len())
                    &&& final(game_log)@ == old(game_log)@ + use_entries(
                        old(store),
                        map,
                        old(store).len(),
                    )
                    &&& texts(r->Ok_0@) == use_sounds(old(store), old(store).len())
                },
            },
    {
        let mut sounds: Vec<String> = Vec::new();
        let mut i: usize = 0;
        assert(texts(sounds@) =~= use_sounds(old(store), 0));
        assert(store.doomed@ =~= old(store).doomed@ + used_up(old(store), 0));
        assert forall|k: int| old(store).holds(k) implies (#[trigger] store.at(
            k,
        )).pending_damage() == old(store).at(k).pending_damage() + use_hits(
            old(store),
            map,
            0,
            k,
        ) by {
            assert(old(store).at(k).pending_damage() + Seq::<i32>::empty() =~= old(store).at(
                k,
            ).pending_damage());
        }
        while i < store.slots.len()
            invariant
                store.wf(),
                map.wf(),
                i <= store.slots@.len(),
                use_done(old(store), map, store, i as int),
                game_log@ == old(game_log)@ + use_entries(old(store), map, i as int),
                texts(sounds@) == use_sounds(old(store), i as int),
                forall|j: int| 0 <= j < i ==> use_fault(old(store), map, j) is None,
            decreases store.slots@.len() - i,
        {
            let ghost before = *store;
            proof {
                lemma_use_reads(old(store), map, store, i as int);
            }
            match use_one(store, map, game_log, &mut sounds, i) {
                Err(f) => {
                    proof {
                        lemma_first_fault_found(use_faults(old(store), map), i as int);
                    }
                    return Err(f);
                },
                Ok(()) => {
                    proof {
                        lemma_use_step(old(store), map, &before, store, i as int);
                        if uses(old(store), i as int) {
                            assert(old(game_log)@ + (use_entries(old(store), map, i as int)
                                + use_step_entries(old(store), map, i as int)) =~= (old(
                                game_log,
                            )@ + use_entries(old(store), map, i as int)) + use_step_entries(
                                old(store),
                                map,
                                i as int,
                            ));
                        }
                    }
                },
            }
            i += 1;
        }
        proof {
            lemma_first_fault_none(use_faults(old(store), map));
        }
        Ok(sounds)
    }
}

} // verus!
