//! What holds of the game as a whole: of damage and healing, of picking an
//! item up and dropping it again, of the requests that a turn consumes, and
//! of the state of a tick while a dialog is open.

use vstd::prelude::*;
use crate::combat::{damage_done, melee_damage, melee_done, statistics_after_damage, total};
use crate::components::{DropItem, Entity, Loot, PickupItem, Position, Statistics};
use crate::dialog::{action_state, DialogAction};
use crate::functions::VirtualKeyCode;
use crate::item_use::{healed_hp, use_done};
use crate::items::{
    collects, drop_done, drop_faults, drops, is_dropped, picked_by, pickup_done,
    position_after_drops,
};
use crate::map::GameMap;
use crate::monsters::{
    chase_failed, chases, hunt_ended, hunt_outcome, lemma_first_in_reach_bound, NavigationPath,
};
use crate::player::Input;
use crate::state::{
    effective_state, ends_with_damage, ends_with_drops, ends_with_melee, ends_with_pickups,
    ends_with_uses, maintained, phase_done, settled, tick_done, tick_ended, turn_resolved,
    Outcome, TickReport,
};
use crate::store::{first_fault, Components, Fault, Store};
use crate::systems::{is_defeated, is_removed, mapdex_done, player_died, swept};
use crate::world::{ProcessingState, World};

verus! {

/// The damage of an attack is the attacker's power less the defender's
/// defense where that is positive, and nothing otherwise.
pub proof fn lemma_melee_damage(power: int, defense: int)
    ensures
        melee_damage(power, defense) >= 0,
        power > defense ==> melee_damage(power, defense) == power - defense,
        power <= defense ==> melee_damage(power, defense) == 0,
{
}

/// Healing never raises the hit points above the maximum, and adds the
/// whole amount where the maximum allows it.
pub proof fn lemma_healing_capped(statistics: Statistics, amount: int)
    ensures
        healed_hp(statistics, amount) <= statistics.hp_max,
        statistics.hp + amount <= statistics.hp_max ==> healed_hp(statistics, amount)
            == statistics.hp + amount,
{
}

/// Damage that does not add up to less than nothing leaves the hit points
/// at or below the maximum, if they were there before.
pub proof fn lemma_damage_keeps_maximum(components: Components)
    requires
        components.statistics is Some,
        components.damage_counter is Some,
        components.statistics->0.hp <= components.statistics->0.hp_max,
        total(components.pending_damage()) >= 0,
        i32::MIN <= components.statistics->0.hp - total(components.pending_damage()),
    ensures
        statistics_after_damage(components)->0.hp <= statistics_after_damage(
            components,
        )->0.hp_max,
{
}

/// Where only `collector` has asked to pick something up, the items that
/// it did not ask for are picked up by no one, and the item that it asked
/// for is picked up by it.
proof fn lemma_single_pickup(store: &Store, n: int, collector: int, k: int)
    requires
        0 <= n,
        forall|j: int| 0 <= j < store.len() && j != collector ==> !collects(store, j),
        collects(store, collector),
        0 <= collector < store.len(),
    ensures
        picked_by(store, n, k) == if collector < n && store.at(collector).pickup_item->0.item.id
            == k {
            Some(store.at(collector).pickup_item->0.collector)
        } else {
            None
        },
    decreases n,
{
    if n > 0 {
        lemma_single_pickup(store, n - 1, collector, k);
        if n - 1 != collector && n - 1 < store.len() {
            assert(!collects(store, n - 1));
        }
    }
}

/// Where only `owner` has asked to drop something, the entities that it
/// did not ask to drop stay where they are, and the item that it asked to
/// drop lies where it stands.
proof fn lemma_single_drop(store: &Store, n: int, owner: int, k: int)
    requires
        0 <= n,
        forall|j: int| 0 <= j < store.len() && j != owner ==> !drops(store, j),
        drops(store, owner),
        0 <= owner < store.len(),
    ensures
        position_after_drops(store, n, k) == if owner < n && store.at(owner).drop_item->0.item.id
            == k {
            store.at(owner).position
        } else {
            store.at(k).position
        },
        is_dropped(store, n, k) == (owner < n && store.at(owner).drop_item->0.item.id == k),
    decreases n,
{
    if n > 0 {
        lemma_single_drop(store, n - 1, owner, k);
        lemma_single_drop(store, n - 1, owner, n - 1);
        if n - 1 != owner && n - 1 < store.len() {
            assert(!drops(store, n - 1));
        }
    }
}

/// An item that an entity picks up is the loot of that entity and has no
/// position; when the entity drops it again, the item lies where the entity
/// stands and is no loot any more.
pub proof fn lemma_pickup_then_drop(
    start: Store,
    held: Store,
    asked: Store,
    end: Store,
    owner: Entity,
    item: Entity,
)
    requires
        start.alive(owner),
        start.alive(item),
        owner != item,
        start.of(owner).pickup_item == Some(PickupItem { collector: owner, item }),
        forall|j: int| 0 <= j < start.len() && j != owner.id ==> !collects(&start, j),
        pickup_done(&start, &held, start.len()),
        asked.doomed == held.doomed,
        asked.slots@ == held.slots@.update(
            owner.id as int,
            Some(Components { drop_item: Some(DropItem { item }), ..held.of(owner) }),
        ),
        forall|j: int| 0 <= j < held.len() && j != owner.id ==> !drops(&held, j),
        drop_done(&asked, &end, asked.len()),
    ensures
        held.of(item).loot == Some(Loot { owner }),
        held.of(item).position is None,
        end.of(item).position == held.of(owner).position,
        end.of(item).loot is None,
{
    lemma_single_pickup(&start, start.len(), owner.id as int, item.id as int);
    assert(start.holds(item.id as int));
    assert(held.at(item.id as int) == held.of(item));
    assert(start.holds(owner.id as int));
    assert(held.at(owner.id as int) == held.of(owner));
    assert(asked.holds(owner.id as int));
    assert(asked.holds(item.id as int));
    assert forall|j: int| 0 <= j < asked.len() && j != owner.id implies !drops(&asked, j) by {
        assert(asked.slots@[j] == held.slots@[j]);
        assert(!drops(&held, j));
        assert(asked.at(j) == held.at(j));
    }
    lemma_single_drop(&asked, asked.len(), owner.id as int, item.id as int);
    assert(end.at(item.id as int) == end.of(item));
    assert(asked.at(owner.id as int).position == held.of(owner).position);
}

/// Where the player and every monster that chases it stand on the map, and
/// every path that the search finds stays on the map with its second tile,
/// the monsters' turn ends well: each chasing monster before the first one
/// within reach has followed the path that the search gave it by one step.
pub proof fn lemma_hunt_ends_well<F: Fn(&GameMap, usize, usize) -> NavigationPath>(
    before: Store,
    map_before: GameMap,
    after: Store,
    map_after: GameMap,
    target: Position,
    player: Entity,
    r: Result<(), Fault>,
    search: F,
)
    requires
        hunt_outcome(
            &before,
            &map_before,
            &after,
            &map_after,
            target,
            player,
            ProcessingState::MonsterTurn,
            r,
            search,
        ),
        map_before.has_tile(target.x as int, target.y as int),
        forall|k: int|
            0 <= k < before.len() && #[trigger] chases(&before, k, target) ==> map_before.has_tile(
                before.at(k).position->0.x as int,
                before.at(k).position->0.y as int,
            ),
        forall|m: &GameMap, from: usize, to: usize, path: NavigationPath|
            #[trigger] call_ensures(search, (m, from, to), path) && path.success
                && path.steps@.len() > 1 ==> path.steps@[1] < map_before.area(),
    ensures
        r is Ok,
        hunt_ended(&before, &map_before, &after, &map_after, target, player, search),
{
    if r is Err {
        let (k, moved, map_moved, path) = choose|
            k: int,
            moved: Store,
            map_moved: GameMap,
            path: NavigationPath,
        |
            #[trigger] chase_failed(
                &before,
                &map_before,
                &moved,
                &map_moved,
                k,
                target,
                player,
                r->Err_0,
                path,
                search,
            );
        lemma_first_in_reach_bound(&before, before.len(), target);
        assert(chases(&before, k, target));
    }
}

/// Whether the entity in the slot `j` has asked to pick up the entity in
/// the slot `k`.
pub open spec fn asks_to_pick_up(store: &Store, j: int, k: int) -> bool {
    collects(store, j) && store.at(j).pickup_item->0.item.id == k
}

/// Where the slot `asker` has asked to pick up the entity in the slot `k`
/// and no slot between it and `n` has, the collector that it named holds
/// the entity.
proof fn lemma_picked_last(store: &Store, n: int, asker: int, k: int)
    requires
        0 <= asker < n,
        asks_to_pick_up(store, asker, k),
        forall|j: int| asker < j < n ==> !asks_to_pick_up(store, j, k),
    ensures
        picked_by(store, n, k) == Some(store.at(asker).pickup_item->0.collector),
    decreases n,
{
    if n - 1 > asker {
        lemma_picked_last(store, n - 1, asker, k);
        assert(!asks_to_pick_up(store, n - 1, k));
    }
}

/// Once the pickups are resolved, an item that an entity asked to pick up
/// is the loot of the collector that the request names and has no position,
/// and no request to pick up is left. This holds where no entity in a later
/// slot has asked for the same item.
pub proof fn lemma_pickup_takes_item(before: Store, after: Store, asker: Entity, request: PickupItem)
    requires
        before.alive(asker),
        before.alive(request.item),
        before.of(asker).pickup_item == Some(request),
        forall|j: int|
            asker.id < j < before.len() ==> !asks_to_pick_up(&before, j, request.item.id as int),
        pickup_done(&before, &after, before.len()),
    ensures
        after.of(request.item).loot == Some(Loot { owner: request.collector }),
        after.of(request.item).position is None,
        forall|k: int| after.holds(k) ==> (#[trigger] after.at(k)).pickup_item is None,
{
    let a = asker.id as int;
    let k = request.item.id as int;
    assert(before.holds(a) && before.holds(k));
    assert(asks_to_pick_up(&before, a, k));
    lemma_picked_last(&before, before.len(), a, k);
    assert(after.at(k) == after.of(request.item));
    assert forall|i: int| after.holds(i) implies (#[trigger] after.at(i)).pickup_item is None by {
        assert(before.holds(i));
    }
}

/// Whether the entity in the slot `j` has asked to drop the entity in the
/// slot `k`.
pub open spec fn asks_to_drop(store: &Store, j: int, k: int) -> bool {
    drops(store, j) && store.at(j).drop_item->0.item.id == k
}

/// An entity that none of the slots below `n` has asked to drop stays where
/// it is and is not dropped.
proof fn lemma_never_dropped(store: &Store, n: int, k: int)
    requires
        forall|j: int| 0 <= j < n ==> !asks_to_drop(store, j, k),
    ensures
        position_after_drops(store, n, k) == store.at(k).position,
        !is_dropped(store, n, k),
    decreases n,
{
    if n > 0 {
        lemma_never_dropped(store, n - 1, k);
        assert(!asks_to_drop(store, n - 1, k));
    }
}

/// Where the slot `owner` has asked to drop the entity in the slot `k` and
/// no slot between it and `n` has, the entity lies where the owner stood
/// when its turn came.
proof fn lemma_dropped_last(store: &Store, n: int, owner: int, k: int)
    requires
        0 <= owner < n,
        asks_to_drop(store, owner, k),
        forall|j: int| owner < j < n ==> !asks_to_drop(store, j, k),
    ensures
        position_after_drops(store, n, k) == position_after_drops(store, owner, owner),
        is_dropped(store, n, k),
    decreases n,
{
    if n - 1 > owner {
        lemma_dropped_last(store, n - 1, owner, k);
        assert(!asks_to_drop(store, n - 1, k));
    }
}

/// Once the drops are resolved, an item that an entity asked to drop lies
/// where that entity stands and is no loot any more, the entity stands
/// where it stood, and no request to drop is left. This holds where no
/// entity in a later slot has asked to drop the same item, and where no
/// entity has asked to drop the owner itself.
pub proof fn lemma_drop_lays_item_down(before: Store, after: Store, owner: Entity, item: Entity)
    requires
        before.alive(owner),
        before.alive(item),
        before.of(owner).drop_item == Some(DropItem { item }),
        forall|j: int| owner.id < j < before.len() ==> !asks_to_drop(&before, j, item.id as int),
        forall|j: int| 0 <= j < before.len() ==> !asks_to_drop(&before, j, owner.id as int),
        drop_done(&before, &after, before.len()),
    ensures
        after.of(item).position == before.of(owner).position,
        after.of(item).loot is None,
        after.of(owner).position == before.of(owner).position,
        forall|k: int| after.holds(k) ==> (#[trigger] after.at(k)).drop_item is None,
{
    let a = owner.id as int;
    let k = item.id as int;
    assert(before.holds(a) && before.holds(k));
    assert(asks_to_drop(&before, a, k));
    lemma_dropped_last(&before, before.len(), a, k);
    lemma_never_dropped(&before, a, a);
    lemma_never_dropped(&before, before.len(), a);
    assert(after.at(k) == after.of(item));
    assert(after.at(a) == after.of(owner));
    assert forall|i: int| after.holds(i) implies (#[trigger] after.at(i)).drop_item is None by {
        assert(before.holds(i));
    }
}

/// While a dialog is registered, the state of a tick is the dialog state,
/// whatever state is stored.
pub proof fn lemma_dialog_overrides(world: World)
    requires
        world.dialog is Some,
    ensures
        effective_state(&world) == ProcessingState::Dialog,
{
}

/// A tick during which a dialog is open and no key is pressed, and which
/// ends well, leaves the stored state as it is, and the dialog open.
pub proof fn lemma_open_dialog_keeps_state<
    F: Fn(&GameMap, usize, usize) -> crate::monsters::NavigationPath,
>(before: World, after: World, input: Input, r: Result<TickReport, crate::store::Fault>, search: F)
    requires
        tick_done(&before, &after, input, r, search),
        r is Ok,
        before.dialog is Some,
        input.key is None,
    ensures
        r->Ok_0.dialog_shown,
        after.state == before.state,
        after.dialog is Some,
{
    let (acted, phase) = choose|
        acted: World,
        phase: Result<(ProcessingState, Seq<Seq<char>>), crate::store::Fault>,
    |
        {
            &&& #[trigger] phase_done(&before, &acted, input, phase, search)
            &&& match phase {
                Err(f) => r is Err && r->Err_0 == f,
                Ok((next, sounds)) => exists|cleaned: World|
                    {
                        &&& #[trigger] swept(&acted, &cleaned)
                        &&& tick_ended(
                            &cleaned,
                            &after,
                            effective_state(&before) == ProcessingState::Dialog,
                            next,
                            sounds,
                            input.key,
                            r,
                        )
                    },
            }
        };
    let (next, sounds) = phase->Ok_0;
    let cleaned = choose|cleaned: World|
        {
            &&& #[trigger] swept(&acted, &cleaned)
            &&& tick_ended(&cleaned, &after, true, next, sounds, input.key, r)
        };
    assert(acted.dialog == before.dialog);
    assert(cleaned.dialog is Some);
}

/// When the key that is pressed selects an action of the dialog that is
/// shown, the tick ends in the state that the action names, and the dialog
/// is gone.
pub proof fn lemma_dialog_sets_state(
    cleaned: World,
    after: World,
    next: ProcessingState,
    key: Option<VirtualKeyCode>,
    action: DialogAction,
)
    requires
        settled(&cleaned, &after, true, next, key),
        cleaned.dialog is Some,
        cleaned.dialog->0.chosen(key) == Some(action),
    ensures
        after.state == action_state(action, &cleaned.store),
        after.dialog is None,
        action == DialogAction::Dismiss ==> after.state == ProcessingState::Internal,
{
}

/// Two stores in which the same slots hold a defeated player agree on
/// whether a player is defeated.
proof fn lemma_player_died_same(a: &Store, b: &Store, n: int)
    requires
        0 <= n,
        forall|i: int|
            0 <= i < n ==> (a.holds(i) && is_defeated(#[trigger] a.at(i)) && a.at(i).player) == (
            b.holds(i) && is_defeated(b.at(i)) && b.at(i).player),
    ensures
        player_died(a, n) == player_died(b, n),
    decreases n,
{
    if n > 0 {
        lemma_player_died_same(a, b, n - 1);
        assert(a.at(n - 1) == a.at(n - 1));
    }
}

/// A tick during which a dialog is open, and in which the key that is
/// pressed selects one of its actions, ends in the state that the action
/// names, with no dialog registered any more. This holds where the tick
/// ends well and leaves the player undefeated: the death of the player
/// in the same tick puts the dialog that ends the game in the place of the
/// open one.
pub proof fn lemma_tick_consumes_dialog<F: Fn(&GameMap, usize, usize) -> NavigationPath>(
    before: World,
    after: World,
    input: Input,
    r: Result<TickReport, Fault>,
    search: F,
    action: DialogAction,
)
    requires
        tick_done(&before, &after, input, r, search),
        r is Ok,
        before.dialog is Some,
        before.dialog->0.chosen(input.key) == Some(action),
        !player_died(&after.store, after.store.len()),
    ensures
        r->Ok_0.dialog_shown,
        after.dialog is None,
        after.state == action_state(action, &after.store),
        action == DialogAction::Dismiss ==> after.state == ProcessingState::Internal,
{
    let (acted, phase) = choose|
        acted: World,
        phase: Result<(ProcessingState, Seq<Seq<char>>), Fault>,
    |
        {
            &&& #[trigger] phase_done(&before, &acted, input, phase, search)
            &&& match phase {
                Err(f) => r is Err && r->Err_0 == f,
                Ok((next, sounds)) => exists|cleaned: World|
                    {
                        &&& #[trigger] swept(&acted, &cleaned)
                        &&& tick_ended(
                            &cleaned,
                            &after,
                            effective_state(&before) == ProcessingState::Dialog,
                            next,
                            sounds,
                            input.key,
                            r,
                        )
                    },
            }
        };
    let (next, sounds) = phase->Ok_0;
    let cleaned = choose|cleaned: World|
        {
            &&& #[trigger] swept(&acted, &cleaned)
            &&& tick_ended(&cleaned, &after, true, next, sounds, input.key, r)
        };
    assert(acted.dialog == before.dialog);
    let n = acted.store.len();
    assert forall|i: int| 0 <= i < n implies (acted.store.holds(i) && is_defeated(
        #[trigger] acted.store.at(i),
    ) && acted.store.at(i).player) == (cleaned.store.holds(i) && is_defeated(cleaned.store.at(i))
        && cleaned.store.at(i).player) by {
        assert(cleaned.store.slots@[i] == if acted.store.holds(i) && is_removed(
            acted.store.at(i),
        ) {
            None
        } else {
            acted.store.slots@[i]
        });
    }
    lemma_player_died_same(&acted.store, &cleaned.store, n);
    assert(after.store.slots@.len() == n);
    assert forall|i: int| 0 <= i < n implies (cleaned.store.holds(i) && is_defeated(
        #[trigger] cleaned.store.at(i),
    ) && cleaned.store.at(i).player) == (after.store.holds(i) && is_defeated(after.store.at(i))
        && after.store.at(i).player) by {
        assert(after.store.slots@[i] == after.store.slots@[i]);
    }
    lemma_player_died_same(&cleaned.store, &after.store, n);
    assert(!player_died(&acted.store, n));
    assert(cleaned.dialog == before.dialog);
}

/// Whether the entities of a store are without the requests that are named:
/// intents to attack, and requests to pick up, to use and to drop an item.
pub open spec fn at_rest(store: &Store, attack: bool, pickup: bool, usage: bool, drop: bool) -> bool {
    forall|k: int|
        store.holds(k) ==> {
            let c = #[trigger] store.at(k);
            &&& attack ==> c.melee_attack is None
            &&& pickup ==> c.pickup_item is None
            &&& usage ==> c.use_item is None
            &&& drop ==> c.drop_item is None
        }
}

/// The drops consume the requests to drop an item.
proof fn lemma_drops_consume(
    store: Store,
    map: GameMap,
    log: Seq<Seq<char>>,
    sounds: Seq<Seq<char>>,
    end: Outcome,
)
    requires
        ends_with_drops(&store, &map, log, sounds, end),
        end.result is Ok,
        at_rest(&store, true, true, true, false),
    ensures
        at_rest(&end.store, true, true, true, true),
{
    let next = choose|next: Store|
        {
            &&& #[trigger] drop_done(&store, &next, store.len())
            &&& maintained(&next, &end.store)
        };
    assert forall|k: int| end.store.holds(k) implies {
        let c = #[trigger] end.store.at(k);
        &&& c.melee_attack is None
        &&& c.pickup_item is None
        &&& c.use_item is None
        &&& c.drop_item is None
    } by {
        assert(end.store.slots@[k] == next.slots@[k]);
        assert(next.holds(k));
        assert(store.holds(k));
        assert(end.store.at(k) == next.at(k));
        assert(next.at(k).drop_item is None);
        assert(store.at(k).melee_attack is None);
    }
}

/// The uses of items consume the requests to use an item.
proof fn lemma_uses_consume(store: Store, map: GameMap, log: Seq<Seq<char>>, end: Outcome)
    requires
        ends_with_uses(&store, &map, log, end),
        end.result is Ok,
        at_rest(&store, true, true, false, false),
    ensures
        at_rest(&end.store, true, true, true, true),
{
    let next = choose|next: Store|
        {
            &&& #[trigger] use_done(&store, &map, &next, store.len())
            &&& ends_with_drops(
                &next,
                &map,
                log + crate::item_use::use_entries(&store, &map, store.len()),
                crate::item_use::use_sounds(&store, store.len()),
                end,
            )
        };
    assert forall|k: int| next.holds(k) implies {
        let c = #[trigger] next.at(k);
        &&& c.melee_attack is None
        &&& c.pickup_item is None
        &&& c.use_item is None
    } by {
        assert(store.holds(k));
        assert(store.at(k) == store.at(k));
    }
    lemma_drops_consume(
        next,
        map,
        log + crate::item_use::use_entries(&store, &map, store.len()),
        crate::item_use::use_sounds(&store, store.len()),
        end,
    );
}

/// The pickups consume the requests to pick up an item.
proof fn lemma_pickups_consume(store: Store, map: GameMap, log: Seq<Seq<char>>, end: Outcome)
    requires
        ends_with_pickups(&store, &map, log, end),
        end.result is Ok,
        at_rest(&store, true, false, false, false),
    ensures
        at_rest(&end.store, true, true, true, true),
{
    let next = choose|next: Store|
        {
            &&& #[trigger] pickup_done(&store, &next, store.len())
            &&& ends_with_uses(
                &next,
                &map,
                log + crate::items::pickup_entries(&store, store.len()),
                end,
            )
        };
    assert forall|k: int| next.holds(k) implies {
        let c = #[trigger] next.at(k);
        &&& c.melee_attack is None
        &&& c.pickup_item is None
    } by {
        assert(store.holds(k));
        assert(store.at(k) == store.at(k));
    }
    lemma_uses_consume(next, map, log + crate::items::pickup_entries(&store, store.len()), end);
}

/// A run of the systems that ends well leaves no request behind: no intent
/// to attack, and no request to pick up, to use or to drop an item.
pub proof fn lemma_turn_consumes_requests(
    store: Store,
    map: GameMap,
    log: Seq<Seq<char>>,
    end: Outcome,
)
    requires
        turn_resolved(&store, &map, log, end),
        end.result is Ok,
    ensures
        at_rest(&end.store, true, true, true, true),
{
    let shown = choose|next: GameMap|
        {
            &&& #[trigger] mapdex_done(&store, &map, &next, store.len())
            &&& ends_with_melee(&store, &next, log, end)
        };
    let fought = choose|next: Store|
        {
            &&& #[trigger] melee_done(&store, &next, store.len())
            &&& ends_with_damage(
                &next,
                &shown,
                log + crate::combat::melee_entries(&store, store.len()),
                end,
            )
        };
    let entries = log + crate::combat::melee_entries(&store, store.len());
    let hurt = choose|next: Store|
        {
            &&& #[trigger] damage_done(&fought, &next, fought.len())
            &&& ends_with_pickups(&next, &shown, entries, end)
        };
    assert forall|k: int| hurt.holds(k) implies (#[trigger] hurt.at(k)).melee_attack is None by {
        assert(fought.holds(k));
        assert(store.holds(k));
        assert(fought.at(k) == fought.at(k));
    }
    lemma_pickups_consume(hurt, shown, entries, end);
}

/// Whether an entity, if it is an item, either lies on the map or is in an
/// inventory, and not both.
pub open spec fn lies_or_is_loot(components: Components) -> bool {
    components.item ==> (components.position is Some) != (components.loot is Some)
}

/// Picking items up keeps every item either on the map or in an inventory.
pub proof fn lemma_pickups_keep_items_placed(before: Store, after: Store)
    requires
        pickup_done(&before, &after, before.len()),
        forall|k: int| before.holds(k) ==> lies_or_is_loot(#[trigger] before.at(k)),
    ensures
        forall|k: int| after.holds(k) ==> lies_or_is_loot(#[trigger] after.at(k)),
{
    assert forall|k: int| after.holds(k) implies lies_or_is_loot(#[trigger] after.at(k)) by {
        assert(before.holds(k));
        assert(lies_or_is_loot(before.at(k)));
    }
}

/// Where no drop among the slots below `n` has a fault, an entity that was
/// dropped has a position, and any other entity is where it was.
proof fn lemma_drop_positions(store: &Store, n: int, k: int)
    requires
        0 <= n <= store.len(),
        forall|j: int| 0 <= j < n ==> crate::items::drop_fault(store, j) is None,
    ensures
        is_dropped(store, n, k) ==> position_after_drops(store, n, k) is Some,
        !is_dropped(store, n, k) ==> position_after_drops(store, n, k) == store.at(k).position,
    decreases n,
{
    if n > 0 {
        lemma_drop_positions(store, n - 1, k);
        lemma_drop_positions(store, n - 1, n - 1);
        assert(crate::items::drop_fault(store, n - 1) is None);
    }
}

/// Dropping items keeps every item either on the map or in an inventory.
pub proof fn lemma_drops_keep_items_placed(before: Store, after: Store)
    requires
        drop_done(&before, &after, before.len()),
        first_fault(drop_faults(&before)) is None,
        forall|k: int| before.holds(k) ==> lies_or_is_loot(#[trigger] before.at(k)),
    ensures
        forall|k: int| after.holds(k) ==> lies_or_is_loot(#[trigger] after.at(k)),
{
    crate::store::lemma_no_fault(drop_faults(&before));
    assert forall|j: int| 0 <= j < before.len() implies crate::items::drop_fault(&before, j)
        is None by {
        assert(drop_faults(&before)[j] is None);
    }
    assert forall|k: int| after.holds(k) implies lies_or_is_loot(#[trigger] after.at(k)) by {
        assert(before.holds(k));
        assert(lies_or_is_loot(before.at(k)));
        lemma_drop_positions(&before, before.len(), k);
    }
}

} // verus!
