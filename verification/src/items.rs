//! Items: the requests to pick up, drop and use one, and the systems that
//! resolve them.

use vstd::prelude::*;
use crate::components::{DropItem, Entity, Loot, PickupItem, Position, UseItem};
use crate::data::GameLog;
use crate::messages::{
    drop_message, drop_text, nothing_to_pick_up_message, nothing_to_pick_up_text, pickup_message, pickup_text,
};
use crate::store::{
    first_fault, lemma_first_fault_found, lemma_first_fault_none, Components, Fault, Store,
};

verus! {

/// Marks an entity as an item, and holds the requests that can be made of
/// one.
pub struct Item {}

/// Whether the entity in the slot `i` is an item that lies at `position`.
pub open spec fn lies_at(store: &Store, i: int, position: Position) -> bool {
    store.holds(i) && store.at(i).item && store.at(i).position == Some(position)
}

/// The first slot below `n` whose entity is an item that lies at
/// `position`, or `n` if there is none.
pub open spec fn first_item_at(store: &Store, n: int, position: Position) -> int
    decreases n,
{
    if n <= 0 {
        0
    } else {
        let before = first_item_at(store, n - 1, position);
        if before < n - 1 {
            before
        } else if lies_at(store, n - 1, position) {
            n - 1
        } else {
            n
        }
    }
}

/// `first_item_at` names the first slot with an item at the position.
pub proof fn lemma_first_item_at(store: &Store, n: int, position: Position)
    requires
        0 <= n,
    ensures
        0 <= first_item_at(store, n, position) <= n,
        first_item_at(store, n, position) < n ==> lies_at(
            store,
            first_item_at(store, n, position),
            position,
        ),
        forall|j: int|
            0 <= j < first_item_at(store, n, position) ==> !lies_at(store, j, position),
    decreases n,
{
    if n > 0 {
        lemma_first_item_at(store, n - 1, position);
    }
}

/// The name under which an entity is logged: its own, or a stand-in.
pub open spec fn shown_name(components: Components) -> Seq<char> {
    match components.name {
        Some(name) => name.name@,
        None => "Some one"@,
    }
}

/// How the request of `collector` to pick up an item ends: the request for
/// the first item that lies where the collector stands is placed with the
/// collector; or, where no item lies, that is logged.
pub open spec fn pick_up_outcome(
    before: &Store,
    log_before: Seq<Seq<char>>,
    after: &Store,
    log_after: Seq<Seq<char>>,
    collector: Entity,
    r: Result<(), Fault>,
) -> bool {
    &&& after.doomed == before.doomed
    &&& !before.alive(collector) ==> r == Err::<(), Fault>(Fault::MissingEntity(collector))
        && after.slots == before.slots && log_after == log_before
    &&& before.alive(collector) ==> r is Ok && {
        let me = before.of(collector);
        let found = first_item_at(before, before.len(), me.position->0);
        if me.position is Some && found < before.len() {
            &&& log_after == log_before
            &&& after.slots@ == before.slots@.update(
                collector.id as int,
                Some(
                    Components {
                        pickup_item: Some(
                            PickupItem { collector, item: Entity { id: found as u32 } },
                        ),
                        ..me
                    },
                ),
            )
        } else {
            &&& log_after == log_before.push(nothing_to_pick_up_text(shown_name(me)))
            &&& after.slots == before.slots
        }
    }
}

impl Item {
    /// Requests that `collector` picks up the first item that lies where it
    /// stands. Where no item lies, or the collector has no position, this is
    /// logged instead. Fails if the collector does not exist.
    pub fn pick_up(store: &mut Store, game_log: &mut GameLog, collector: &Entity) -> (r: Result<
        (),
        Fault,
    >)
        requires
            old(store).wf(),
        ensures
            pick_up_outcome(
                old(store),
                old(game_log)@,
                final(store),
                final(game_log)@,
                *collector,
                r,
            ),
    {
        let mut picked: Option<Entity> = None;
        let entry: String;
        match store.get(*collector) {
            None => {
                return Err(Fault::MissingEntity(*collector));
            },
            Some(me) => {
                if let Some(position) = me.position {
                    let mut i: usize = 0;
                    while i < store.slots.len() && picked.is_none()
                        invariant
                            store.wf(),
                            i <= store.slots@.len(),
                            picked is None ==> first_item_at(store, i as int, position) == i,
                            picked is Some ==> picked->0.id == first_item_at(
                                store,
                                store.len(),
                                position,
                            ) && picked->0.id < store.len(),
                        decreases store.slots@.len() - i + if picked is None { 1int } else { 0int },
                    {
                        if let Some(c) = &store.slots[i] {
                            if c.item && c.position.is_some() && c.position.unwrap().is_equal(
                                &position,
                            ) {
                                picked = Some(Entity { id: i as u32 });
                                proof {
                                    lemma_first_item_stays(
                                        store,
                                        i as int + 1,
                                        store.len(),
                                        position,
                                    );
                                }
                            }
                        }
                        if picked.is_none() {
                            i += 1;
                        }
                    }
                }
                entry =
                match &me.name {
                    Some(name) => nothing_to_pick_up_message(name.name.as_str()),
                    None => nothing_to_pick_up_message("Some one"),
                };
            },
        }
        match picked {
            None => {
                game_log.push_owned(entry);
            },
            Some(item) => {
                if let Some(me) = &mut store.slots[collector.id as usize] {
                    me.pickup_item = Some(PickupItem { collector: *collector, item });
                }
            },
        }
        Ok(())
    }

    /// Requests that `owner` drops `item`. Fails if the owner does not exist.
    pub fn drop_item(store: &mut Store, owner: &Entity, item: &Entity) -> (r: Result<(), Fault>)
        ensures
            final(store).doomed == old(store).doomed,
            !old(store).alive(*owner) ==> r == Err::<(), Fault>(Fault::MissingEntity(*owner))
                && final(store).slots == old(store).slots,
            old(store).alive(*owner) ==> r is Ok && final(store).slots@ == old(
                store,
            ).slots@.update(
                owner.id as int,
                Some(Components { drop_item: Some(DropItem { item: *item }), ..old(store).of(*owner) }),
            ),
    {
        if !store.is_alive(*owner) {
            return Err(Fault::MissingEntity(*owner));
        }
        if let Some(me) = &mut store.slots[owner.id as usize] {
            me.drop_item = Some(DropItem { item: *item });
        }
        Ok(())
    }

    /// Requests that `user` uses `item`, on the tile `target` if the item
    /// needs one. Fails if the user does not exist.
    pub fn use_item(store: &mut Store, user: &Entity, item: &Entity, target: Option<Position>) -> (r:
        Result<(), Fault>)
        ensures
            final(store).doomed == old(store).doomed,
            !old(store).alive(*user) ==> r == Err::<(), Fault>(Fault::MissingEntity(*user))
                && final(store).slots == old(store).slots,
            old(store).alive(*user) ==> r is Ok && final(store).slots@ == old(store).slots@.update(
                user.id as int,
                Some(
                    Components {
                        use_item: Some(UseItem { item: *item, target }),
                        ..old(store).of(*user)
                    },
                ),
            ),
    {
        if !store.is_alive(*user) {
            return Err(Fault::MissingEntity(*user));
        }
        if let Some(me) = &mut store.slots[user.id as usize] {
            me.use_item = Some(UseItem { item: *item, target });
        }
        Ok(())
    }
}

/// Once an item is found, looking further does not change the answer.
proof fn lemma_first_item_stays(store: &Store, found: int, n: int, position: Position)
    requires
        0 < found <= n,
        first_item_at(store, found, position) == found - 1,
    ensures
        first_item_at(store, n, position) == found - 1,
    decreases n - found,
{
    if found < n {
        lemma_first_item_stays(store, found, n - 1, position);
    }
}

/// Whether the entity in the slot `i` has asked to pick up an item.
pub open spec fn collects(store: &Store, i: int) -> bool {
    store.holds(i) && store.at(i).pickup_item is Some
}

/// What stops the pickup of the entity in the slot `i`, if anything: an
/// item that does not exist, or a collector or an item without a name.
pub open spec fn pickup_fault(store: &Store, i: int) -> Option<Fault> {
    if !collects(store, i) {
        None
    } else {
        let request = store.at(i).pickup_item->0;
        if !store.alive(request.item) {
            Some(Fault::MissingEntity(request.item))
        } else if !store.alive(request.collector) || store.of(request.collector).name is None {
            Some(Fault::MissingName(request.collector))
        } else if store.of(request.item).name is None {
            Some(Fault::MissingName(request.item))
        } else {
            None
        }
    }
}

/// What stops the pickup of each slot's entity, if anything.
pub open spec fn pickup_faults(store: &Store) -> Seq<Option<Fault>> {
    Seq::new(store.slots@.len(), |i: int| pickup_fault(store, i))
}

/// The collector that holds the item in the slot `item` after the requests
/// of the slots below `n` have been resolved, if one of them asked for it:
/// the last one that did.
pub open spec fn picked_by(store: &Store, n: int, item: int) -> Option<Entity>
    decreases n,
{
    if n <= 0 {
        None
    } else if collects(store, n - 1) && store.at(n - 1).pickup_item->0.item.id == item {
        Some(store.at(n - 1).pickup_item->0.collector)
    } else {
        picked_by(store, n - 1, item)
    }
}

/// The log entries for the pickups of the slots below `n`.
pub open spec fn pickup_entries(store: &Store, n: int) -> Seq<Seq<char>>
    decreases n,
{
    if n <= 0 {
        Seq::empty()
    } else if collects(store, n - 1) {
        let request = store.at(n - 1).pickup_item->0;
        pickup_entries(store, n - 1).push(
            pickup_text(
                store.of(request.collector).name_text(),
                store.of(request.item).name_text(),
            ),
        )
    } else {
        pickup_entries(store, n - 1)
    }
}

/// What the pickups of the slots below `n` leave behind: an item that was
/// asked for has no position and is the loot of its collector, and the
/// requests are gone.
pub open spec fn pickup_done(before: &Store, after: &Store, n: int) -> bool {
    &&& after.same_entities(before)
    &&& after.doomed == before.doomed
    &&& forall|i: int|
        before.holds(i) ==> #[trigger] after.at(i) == (Components {
            position: if picked_by(before, n, i) is Some {
                None
            } else {
                before.at(i).position
            },
            loot: match picked_by(before, n, i) {
                Some(collector) => Some(Loot { owner: collector }),
                None => before.at(i).loot,
            },
            pickup_item: if i < n {
                None
            } else {
                before.at(i).pickup_item
            },
            ..before.at(i)
        })
}

/// The log entry for the pickup of the entity in the slot `i`.
fn plan_pickup(store: &Store, i: usize) -> (r: Result<Option<(Entity, Entity, String)>, Fault>)
    requires
        store.wf(),
        i < store.slots@.len(),
    ensures
        match pickup_fault(store, i as int) {
            Some(f) => r == Err::<Option<(Entity, Entity, String)>, Fault>(f),
            None => r is Ok && (r->Ok_0 is Some <==> collects(store, i as int)),
        },
        r is Ok && r->Ok_0 is Some ==> {
            let (collector, item, entry) = r->Ok_0->0;
            &&& collector == store.at(i as int).pickup_item->0.collector
            &&& item == store.at(i as int).pickup_item->0.item
            &&& entry@ == pickup_text(
                store.of(collector).name_text(),
                store.of(item).name_text(),
            )
        },
{
    if let Some(c) = &store.slots[i] {
        if let Some(request) = c.pickup_item {
            match store.get(request.item) {
                None => {
                    return Err(Fault::MissingEntity(request.item));
                },
                Some(item) => {
                    match store.get(request.collector) {
                        None => {
                            return Err(Fault::MissingName(request.collector));
                        },
                        Some(collector) => {
                            match &collector.name {
                                None => {
                                    return Err(Fault::MissingName(request.collector));
                                },
                                Some(collector_name) => {
                                    match &item.name {
                                        None => {
                                            return Err(Fault::MissingName(request.item));
                                        },
                                        Some(item_name) => {
                                            let entry = pickup_message(
                                                collector_name.name.as_str(),
                                                item_name.name.as_str(),
                                            );
                                            return Ok(
                                                Some((request.collector, request.item, entry)),
                                            );
                                        },
                                    }
                                },
                            }
                        },
                    }
                },
            }
        }
    }
    Ok(None)
}

/// System that resolves the requests to pick up an item.
pub struct ItemCollectionSystem {}

impl ItemCollectionSystem {
    /// Resolves every request to pick up an item, in the order of the
    /// collectors' slots: the item loses its position, becomes the loot of
    /// the collector, and the pickup is logged. All requests are removed.
    pub fn run(store: &mut Store, game_log: &mut GameLog) -> (r: Result<(), Fault>)
        requires
            old(store).wf(),
        ensures
            match first_fault(pickup_faults(old(store))) {
                Some(f) => r == Err::<(), Fault>(f),
                None => r is Ok && pickup_done(old(store), final(store), old(store).len())
                    && final(game_log)@ == old(game_log)@ + pickup_entries(
                    old(store),
                    old(store).len(),
                ),
            },
    {
        let mut i: usize = 0;
        while i < store.slots.len()
            invariant
                store.wf(),
                i <= store.slots@.len(),
                pickup_done(old(store), store, i as int),
                game_log@ == old(game_log)@ + pickup_entries(old(store), i as int),
                forall|j: int| 0 <= j < i ==> pickup_fault(old(store), j) is None,
            decreases store.slots@.len() - i,
        {
            let ghost before = *store;
            proof {
                if old(store).holds(i as int) {
                    assert(store.at(i as int).pickup_item == old(store).at(i as int).pickup_item);
                    if old(store).at(i as int).pickup_item is Some {
                        let request = old(store).at(i as int).pickup_item->0;
                        if old(store).alive(request.item) {
                            assert(store.at(request.item.id as int).name == old(store).at(
                                request.item.id as int,
                            ).name);
                        }
                        if old(store).alive(request.collector) {
                            assert(store.at(request.collector.id as int).name == old(store).at(
                                request.collector.id as int,
                            ).name);
                        }
                    }
                }
            }
            match plan_pickup(store, i) {
                Err(f) => {
                    proof {
                        lemma_first_fault_found(pickup_faults(old(store)), i as int);
                    }
                    return Err(f);
                },
                Ok(None) => {},
                Ok(Some((collector, item, entry))) => {
                    proof {
                        assert(old(game_log)@ + pickup_entries(old(store), i as int).push(entry@)
                            =~= (old(game_log)@ + pickup_entries(old(store), i as int)).push(
                            entry@,
                        ));
                    }
                    game_log.push_owned(entry);
                    if let Some(c) = &mut store.slots[item.id as usize] {
                        c.position = None;
                        c.loot = Some(Loot { owner: collector });
                    }
                },
            }
            let ghost middle = *store;
            if let Some(c) = &mut store.slots[i] {
                c.pickup_item = None;
            }
            proof {
                assert forall|k: int| old(store).holds(k) implies #[trigger] store.at(k)
                    == (Components {
                    position: if picked_by(old(store), i + 1, k) is Some {
                        None
                    } else {
                        old(store).at(k).position
                    },
                    loot: match picked_by(old(store), i + 1, k) {
                        Some(collector) => Some(Loot { owner: collector }),
                        None => old(store).at(k).loot,
                    },
                    pickup_item: if k < i + 1 {
                        None
                    } else {
                        old(store).at(k).pickup_item
                    },
                    ..old(store).at(k)
                }) by {
                    assert(before.holds(k));
                    assert(before.at(k) == before.at(k));
                    assert(middle.holds(k));
                    assert(collects(&before, i as int) == collects(old(store), i as int));
                    if collects(old(store), i as int) {
                        let request = old(store).at(i as int).pickup_item->0;
                        if request.item.id == k {
                            assert(picked_by(old(store), i + 1, k) == Some(request.collector));
                            assert(middle.at(k) == (Components {
                                position: None,
                                loot: Some(Loot { owner: request.collector }),
                                ..before.at(k)
                            }));
                        } else {
                            assert(picked_by(old(store), i + 1, k) == picked_by(
                                old(store),
                                i as int,
                                k,
                            ));
                            assert(middle.at(k) == before.at(k));
                        }
                    } else {
                        assert(picked_by(old(store), i + 1, k) == picked_by(
                            old(store),
                            i as int,
                            k,
                        ));
                        assert(middle.at(k) == before.at(k));
                    }
                    if k == i {
                        assert(store.at(k) == (Components { pickup_item: None, ..middle.at(k) }));
                    } else {
                        assert(store.at(k) == middle.at(k));
                    }
                }
            }
            i += 1;
        }
        proof {
            lemma_first_fault_none(pickup_faults(old(store)));
        }
        Ok(())
    }
}

/// Whether the entity in the slot `i` has asked to drop an item.
pub open spec fn drops(store: &Store, i: int) -> bool {
    store.holds(i) && store.at(i).drop_item is Some
}

/// The position of the entity in the slot `k` after the requests of the
/// slots below `n` have been resolved: a dropped item lies where the entity
/// that dropped it stood at that moment.
pub open spec fn position_after_drops(store: &Store, n: int, k: int) -> Option<Position>
    decreases n,
{
    if n <= 0 {
        store.at(k).position
    } else if drops(store, n - 1) && store.at(n - 1).drop_item->0.item.id == k {
        position_after_drops(store, n - 1, n - 1)
    } else {
        position_after_drops(store, n - 1, k)
    }
}

/// Whether one of the slots below `n` has asked to drop the item in the
/// slot `k`.
pub open spec fn is_dropped(store: &Store, n: int, k: int) -> bool
    decreases n,
{
    if n <= 0 {
        false
    } else {
        (drops(store, n - 1) && store.at(n - 1).drop_item->0.item.id == k) || is_dropped(
            store,
            n - 1,
            k,
        )
    }
}

/// What stops the drop of the entity in the slot `i`, if anything: an
/// owner without a position, an item that does not exist, or an owner or an
/// item without a name.
pub open spec fn drop_fault(store: &Store, i: int) -> Option<Fault> {
    if !drops(store, i) {
        None
    } else {
        let item = store.at(i).drop_item->0.item;
        if position_after_drops(store, i, i) is None {
            Some(Fault::MissingPosition(Entity { id: i as u32 }))
        } else if !store.alive(item) {
            Some(Fault::MissingEntity(item))
        } else if store.at(i).name is None {
            Some(Fault::MissingName(Entity { id: i as u32 }))
        } else if store.of(item).name is None {
            Some(Fault::MissingName(item))
        } else {
            None
        }
    }
}

/// What stops the drop of each slot's entity, if anything.
pub open spec fn drop_faults(store: &Store) -> Seq<Option<Fault>> {
    Seq::new(store.slots@.len(), |i: int| drop_fault(store, i))
}

/// The log entries for the drops of the slots below `n`.
pub open spec fn drop_entries(store: &Store, n: int) -> Seq<Seq<char>>
    decreases n,
{
    if n <= 0 {
        Seq::empty()
    } else if drops(store, n - 1) {
        drop_entries(store, n - 1).push(
            drop_text(
                store.at(n - 1).name_text(),
                store.of(store.at(n - 1).drop_item->0.item).name_text(),
            ),
        )
    } else {
        drop_entries(store, n - 1)
    }
}

/// What the drops of the slots below `n` leave behind: a dropped item lies
/// where its owner stood and is no loot any more, and the requests are
/// gone.
pub open spec fn drop_done(before: &Store, after: &Store, n: int) -> bool {
    &&& after.same_entities(before)
    &&& after.doomed == before.doomed
    &&& forall|i: int|
        before.holds(i) ==> #[trigger] after.at(i) == (Components {
            position: position_after_drops(before, n, i),
            loot: if is_dropped(before, n, i) {
                None
            } else {
                before.at(i).loot
            },
            drop_item: if i < n {
                None
            } else {
                before.at(i).drop_item
            },
            ..before.at(i)
        })
}

/// The item, the place and the log entry for the drop of the entity in the
/// slot `i`; `stands` tells what stops it, given where the entity stands.
fn plan_drop(store: &Store, i: usize) -> (r: Result<Option<(Entity, Position, String)>, Fault>)
    requires
        store.wf(),
        i < store.slots@.len(),
    ensures
        !drops(store, i as int) ==> r == Ok::<Option<(Entity, Position, String)>, Fault>(None),
        drops(store, i as int) ==> {
            let item = store.at(i as int).drop_item->0.item;
            if store.at(i as int).position is None {
                r == Err::<Option<(Entity, Position, String)>, Fault>(
                    Fault::MissingPosition(Entity { id: i as u32 }),
                )
            } else if !store.alive(item) {
                r == Err::<Option<(Entity, Position, String)>, Fault>(Fault::MissingEntity(item))
            } else if store.at(i as int).name is None {
                r == Err::<Option<(Entity, Position, String)>, Fault>(
                    Fault::MissingName(Entity { id: i as u32 }),
                )
            } else if store.of(item).name is None {
                r == Err::<Option<(Entity, Position, String)>, Fault>(Fault::MissingName(item))
            } else {
                &&& r is Ok
                &&& r->Ok_0 is Some
                &&& {
                    let (dropped, position, entry) = r->Ok_0->0;
                    &&& dropped == item
                    &&& position == store.at(i as int).position->0
                    &&& entry@ == drop_text(
                        store.at(i as int).name_text(),
                        store.of(item).name_text(),
                    )
                }
            }
        },
{
    if let Some(c) = &store.slots[i] {
        if let Some(request) = c.drop_item {
            match c.position {
                None => {
                    return Err(Fault::MissingPosition(Entity { id: i as u32 }));
                },
                Some(position) => {
                    match store.get(request.item) {
                        None => {
                            return Err(Fault::MissingEntity(request.item));
                        },
                        Some(item) => {
                            match &c.name {
                                None => {
                                    return Err(Fault::MissingName(Entity { id: i as u32 }));
                                },
                                Some(name) => {
                                    match &item.name {
                                        None => {
                                            return Err(Fault::MissingName(request.item));
                                        },
                                        Some(item_name) => {
                                            let entry = drop_message(
                                                name.name.as_str(),
                                                item_name.name.as_str(),
                                            );
                                            return Ok(Some((request.item, position, entry)));
                                        },
                                    }
                                },
                            }
                        },
                    }
                },
            }
        }
    }
    Ok(None)
}

/// The components of a dropped item: it lies at `position` and is no
/// loot.
pub open spec fn laid_down(components: Components, position: Position) -> Components {
    Components { position: Some(position), loot: None, ..components }
}

/// One more resolved request keeps what the drops leave behind in order.
proof fn lemma_drop_step(
    start: &Store,
    before: &Store,
    middle: &Store,
    after: &Store,
    i: int,
)
    requires
        drop_done(start, before, i),
        0 <= i < start.len(),
        middle.same_entities(before),
        middle.doomed == before.doomed,
        after.same_entities(before),
        after.doomed == before.doomed,
        forall|k: int|
            before.holds(k) ==> #[trigger] middle.at(k) == if drops(start, i) && start.at(
                i,
            ).drop_item->0.item.id == k {
                laid_down(before.at(k), before.at(i).position->0)
            } else {
                before.at(k)
            },
        drops(start, i) ==> before.at(i).position is Some,
        forall|k: int|
            before.holds(k) ==> #[trigger] after.at(k) == if k == i {
                Components { drop_item: None, ..middle.at(k) }
            } else {
                middle.at(k)
            },
    ensures
        drop_done(start, after, i + 1),
{
    assert forall|k: int| start.holds(k) implies #[trigger] after.at(k) == (Components {
        position: position_after_drops(start, i + 1, k),
        loot: if is_dropped(start, i + 1, k) {
            None
        } else {
            start.at(k).loot
        },
        drop_item: if k < i + 1 {
            None
        } else {
            start.at(k).drop_item
        },
        ..start.at(k)
    }) by {
        assert(before.holds(k));
        assert(before.at(k) == before.at(k));
        assert(middle.at(k) == middle.at(k));
        if drops(start, i) {
            assert(start.holds(i));
            assert(before.at(i) == before.at(i));
        }
    }
}

/// What a drop reads is what the drops before it have left behind.
proof fn lemma_drop_reads(start: &Store, now: &Store, i: int)
    requires
        drop_done(start, now, i),
        0 <= i < start.len(),
    ensures
        drops(now, i) == drops(start, i),
        drops(start, i) ==> {
            let item = start.at(i).drop_item->0.item;
            &&& now.at(i).drop_item == start.at(i).drop_item
            &&& now.at(i).position == position_after_drops(start, i, i)
            &&& now.at(i).name == start.at(i).name
            &&& now.alive(item) == start.alive(item)
            &&& start.alive(item) ==> now.of(item).name == start.of(item).name
        },
{
    if start.holds(i) {
        assert(now.at(i) == now.at(i));
        if start.at(i).drop_item is Some {
            let item = start.at(i).drop_item->0.item;
            assert(now.alive(item) == start.alive(item)) by {
                if item.id < start.slots@.len() {
                    assert((now.slots@[item.id as int] is Some) == (
                    start.slots@[item.id as int] is Some));
                }
            }
            if start.alive(item) {
                assert(start.holds(item.id as int));
                assert(now.at(item.id as int) == now.at(item.id as int));
                assert(now.of(item) == now.at(item.id as int));
                assert(start.of(item) == start.at(item.id as int));
            }
        }
    }
}

/// System that resolves the requests to drop an item.
pub struct ItemDropSystem {}

impl ItemDropSystem {
    /// Resolves every request to drop an item, in the order of the owners'
    /// slots: the item gets the position of its owner, is no loot any more,
    /// and the drop is logged. All requests are removed.
    pub fn run(store: &mut Store, game_log: &mut GameLog) -> (r: Result<(), Fault>)
        requires
            old(store).wf(),
        ensures
            match first_fault(drop_faults(old(store))) {
                Some(f) => r == Err::<(), Fault>(f),
                None => r is Ok && drop_done(old(store), final(store), old(store).len())
                    && final(game_log)@ == old(game_log)@ + drop_entries(
                    old(store),
                    old(store).len(),
                ),
            },
    {
        let mut i: usize = 0;
        while i < store.slots.len()
            invariant
                store.wf(),
                i <= store.slots@.len(),
                drop_done(old(store), store, i as int),
                game_log@ == old(game_log)@ + drop_entries(old(store), i as int),
                forall|j: int| 0 <= j < i ==> drop_fault(old(store), j) is None,
            decreases store.slots@.len() - i,
        {
            let ghost before = *store;
            proof {
                lemma_drop_reads(old(store), store, i as int);
            }
            match plan_drop(store, i) {
                Err(f) => {
                    proof {
                        lemma_first_fault_found(drop_faults(old(store)), i as int);
                    }
                    return Err(f);
                },
                Ok(None) => {},
                Ok(Some((item, position, entry))) => {
                    proof {
                        assert(old(game_log)@ + drop_entries(old(store), i as int).push(entry@)
                            =~= (old(game_log)@ + drop_entries(old(store), i as int)).push(entry@));
                    }
                    game_log.push_owned(entry);
                    if let Some(c) = &mut store.slots[item.id as usize] {
                        c.position = Some(position);
                        c.loot = None;
                    }
                },
            }
            let ghost middle = *store;
            if let Some(c) = &mut store.slots[i] {
                c.drop_item = None;
            }
            proof {
                lemma_drop_step(old(store), &before, &middle, store, i as int);
            }
            i += 1;
        }
        proof {
            lemma_first_fault_none(drop_faults(old(store)));
        }
        Ok(())
    }
}

} // verus!
