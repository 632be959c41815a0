//! The entity store: a dense table of slots, one for each entity that was
//! ever created, each holding the components of its entity.

use vstd::prelude::*;
use crate::components::{
    DamageCounter, DamageEffect, DropItem, Entity, HealingEffect, Loot, MeleeAttack, Name,
    PickupItem, Position, Ranged, Renderable, SoundEffect, Statistics, UseItem, FOV,
};

verus! {

/// The components of one entity. A component that the entity does not have
/// is `None`, or `false` for a marker.
#[derive(Debug)]
pub struct Components {
    /// Where the entity stands on the map.
    pub position: Option<Position>,
    /// How the entity is drawn.
    pub renderable: Option<Renderable>,
    /// Marks the player.
    pub player: bool,
    /// What the entity sees.
    pub fov: Option<FOV>,
    /// Marks a monster.
    pub monster: bool,
    /// The entity's name.
    pub name: Option<Name>,
    /// Marks an entity that blocks the tile it stands on.
    pub collision: bool,
    /// The entity's combat statistics.
    pub statistics: Option<Statistics>,
    /// The entity's intent to attack in melee.
    pub melee_attack: Option<MeleeAttack>,
    /// The damage the entity has taken this turn.
    pub damage_counter: Option<DamageCounter>,
    /// Marks an item.
    pub item: bool,
    /// Marks an item that is used up when used.
    pub consumable: bool,
    /// The healing effect of an item.
    pub healing_effect: Option<HealingEffect>,
    /// The damage effect of an item.
    pub damage_effect: Option<DamageEffect>,
    /// The sound of an item.
    pub sound_effect: Option<SoundEffect>,
    /// The range of an item that is used at a distance.
    pub ranged: Option<Ranged>,
    /// Marks an item in an inventory.
    pub loot: Option<Loot>,
    /// The entity's request to pick up an item.
    pub pickup_item: Option<PickupItem>,
    /// The entity's request to drop an item.
    pub drop_item: Option<DropItem>,
    /// The entity's request to use an item.
    pub use_item: Option<UseItem>,
}

impl Components {
    /// Whether the entity has no component at all.
    pub open spec fn is_bare(&self) -> bool {
        &&& self.position is None
        &&& self.renderable is None
        &&& !self.player
        &&& self.fov is None
        &&& !self.monster
        &&& self.name is None
        &&& !self.collision
        &&& self.statistics is None
        &&& self.melee_attack is None
        &&& self.damage_counter is None
        &&& !self.item
        &&& !self.consumable
        &&& self.healing_effect is None
        &&& self.damage_effect is None
        &&& self.sound_effect is None
        &&& self.ranged is None
        &&& self.loot is None
        &&& self.pickup_item is None
        &&& self.drop_item is None
        &&& self.use_item is None
    }

    /// The components of an entity that has none.
    pub fn new() -> (c: Self)
        ensures
            c.is_bare(),
    {
        Components {
            position: None,
            renderable: None,
            player: false,
            fov: None,
            monster: false,
            name: None,
            collision: false,
            statistics: None,
            melee_attack: None,
            damage_counter: None,
            item: false,
            consumable: false,
            healing_effect: None,
            damage_effect: None,
            sound_effect: None,
            ranged: None,
            loot: None,
            pickup_item: None,
            drop_item: None,
            use_item: None,
        }
    }

    /// The name of the entity as text; empty without a name.
    pub open spec fn name_text(&self) -> Seq<char> {
        match self.name {
            Some(name) => name.name@,
            None => Seq::empty(),
        }
    }

    /// The pending damage of the entity; empty without a damage counter.
    pub open spec fn pending_damage(&self) -> Seq<i32> {
        match self.damage_counter {
            Some(counter) => counter.damage_values@,
            None => Seq::empty(),
        }
    }
}

/// A violation of the store's consistency, or a number out of range, that
/// ends a turn.
#[derive(Clone, Copy, PartialEq, Eq, Structural, Debug)]
pub enum Fault {
    /// The entity does not exist, or exists no more.
    MissingEntity(Entity),
    /// The entity has no name.
    MissingName(Entity),
    /// The entity has no statistics.
    MissingStatistics(Entity),
    /// The entity has no position.
    MissingPosition(Entity),
    /// The entity uses an item that needs a target, without one.
    MissingTarget(Entity),
    /// A position of the entity, or its target, is not on the map.
    OffMap(Entity),
    /// A number computed for the entity does not fit into 32 bits.
    Overflow(Entity),
}

/// The first fault in a list of what stopped each slot's entity, if anything.
pub open spec fn first_fault(faults: Seq<Option<Fault>>) -> Option<Fault>
    decreases faults.len(),
{
    if faults.len() == 0 {
        None
    } else {
        match first_fault(faults.drop_last()) {
            Some(f) => Some(f),
            None => faults.last(),
        }
    }
}

/// The first fault is the one of the first slot that has one.
pub proof fn lemma_first_fault_found(faults: Seq<Option<Fault>>, i: int)
    requires
        0 <= i < faults.len(),
        forall|j: int| 0 <= j < i ==> faults[j] is None,
        faults[i] is Some,
    ensures
        first_fault(faults) == faults[i],
    decreases faults.len(),
{
    if i == faults.len() - 1 {
        lemma_first_fault_none(faults.drop_last());
    } else {
        lemma_first_fault_found(faults.drop_last(), i);
    }
}

/// There is no first fault where no slot has one.
pub proof fn lemma_first_fault_none(faults: Seq<Option<Fault>>)
    requires
        forall|j: int| 0 <= j < faults.len() ==> faults[j] is None,
    ensures
        first_fault(faults) is None,
    decreases faults.len(),
{
    if faults.len() > 0 {
        lemma_first_fault_none(faults.drop_last());
    }
}

/// Where there is no first fault, no slot has one.
pub proof fn lemma_no_fault(faults: Seq<Option<Fault>>)
    requires
        first_fault(faults) is None,
    ensures
        forall|j: int| 0 <= j < faults.len() ==> faults[j] is None,
    decreases faults.len(),
{
    if faults.len() > 0 {
        lemma_no_fault(faults.drop_last());
        assert forall|j: int| 0 <= j < faults.len() implies faults[j] is None by {
            if j < faults.len() - 1 {
                assert(faults.drop_last()[j] == faults[j]);
            }
        }
    }
}

/// Whether one of `entities` has the slot `i`.
pub open spec fn names_slot(entities: Seq<Entity>, i: int) -> bool {
    exists|k: int| 0 <= k < entities.len() && #[trigger] entities[k].id == i
}

/// The store of all entities.
#[derive(Debug)]
pub struct Store {
    /// One slot for each entity ever created; `None` once it is deleted.
    pub slots: Vec<Option<Components>>,
    /// Entities that will be deleted when the store is next maintained.
    pub doomed: Vec<Entity>,
}

impl Store {
    /// The number of slots.
    pub open spec fn len(&self) -> int {
        self.slots@.len() as int
    }

    /// Every slot can be named by an entity.
    pub open spec fn wf(&self) -> bool {
        self.slots@.len() <= u32::MAX
    }

    /// Whether the entity exists.
    pub open spec fn alive(&self, entity: Entity) -> bool {
        entity.id < self.slots@.len() && self.slots@[entity.id as int] is Some
    }

    /// Whether the slot `i` holds an entity.
    pub open spec fn holds(&self, i: int) -> bool {
        0 <= i < self.slots@.len() && self.slots@[i] is Some
    }

    /// The components in the slot `i`.
    pub open spec fn at(&self, i: int) -> Components {
        self.slots@[i]->0
    }

    /// The components of an entity.
    pub open spec fn of(&self, entity: Entity) -> Components {
        self.slots@[entity.id as int]->0
    }

    /// Whether both stores hold entities in the same slots.
    pub open spec fn same_entities(&self, other: &Store) -> bool {
        &&& self.slots@.len() == other.slots@.len()
        &&& forall|i: int| 0 <= i < self.slots@.len() ==> (self.slots@[i] is Some) == (
        other.slots@[i] is Some)
    }

    /// Creates an empty store.
    pub fn new() -> (store: Self)
        ensures
            store.slots@.len() == 0,
            store.doomed@.len() == 0,
    {
        Store { slots: Vec::new(), doomed: Vec::new() }
    }

    /// The number of slots of the store.
    pub fn slot_count(&self) -> (n: usize)
        ensures
            n == self.slots@.len(),
    {
        self.slots.len()
    }

    /// Creates an entity with the given components.
    pub fn create(&mut self, components: Components) -> (entity: Entity)
        requires
            old(self).slots@.len() < u32::MAX,
        ensures
            entity.id == old(self).slots@.len(),
            final(self).slots@ == old(self).slots@.push(Some(components)),
            final(self).doomed == old(self).doomed,
    {
        let id: u32 = self.slots.len() as u32;
        self.slots.push(Some(components));
        Entity { id }
    }

    /// Whether the entity exists.
    pub fn is_alive(&self, entity: Entity) -> (b: bool)
        ensures
            b == self.alive(entity),
    {
        (entity.id as usize) < self.slots.len() && self.slots[entity.id as usize].is_some()
    }

    /// The components of an entity, if it exists.
    pub fn get(&self, entity: Entity) -> (c: Option<&Components>)
        ensures
            self.alive(entity) ==> c == Some(&self.of(entity)),
            !self.alive(entity) ==> c is None,
    {
        if (entity.id as usize) < self.slots.len() {
            self.slots[entity.id as usize].as_ref()
        } else {
            None
        }
    }

    /// The components of an entity for changing them, if it exists.
    pub fn get_mut(&mut self, entity: Entity) -> (c: Option<&mut Components>)
        ensures
            old(self).alive(entity) ==> c is Some && *c->0 == old(self).of(entity)
                && final(self).slots@ == old(self).slots@.update(
                entity.id as int,
                Some(*final(c->0)),
            ),
            !old(self).alive(entity) ==> c is None && final(self).slots@ == old(self).slots@,
            final(self).doomed == old(self).doomed,
    {
        if (entity.id as usize) < self.slots.len() {
            self.slots[entity.id as usize].as_mut()
        } else {
            None
        }
    }

    /// Deletes an entity with all of its components, at once. Returns whether
    /// it existed.
    pub fn delete(&mut self, entity: Entity) -> (existed: bool)
        ensures
            existed == old(self).alive(entity),
            existed ==> final(self).slots@ == old(self).slots@.update(entity.id as int, None),
            !existed ==> final(self).slots@ == old(self).slots@,
            final(self).doomed == old(self).doomed,
    {
        if self.is_alive(entity) {
            self.slots[entity.id as usize] = None;
            true
        } else {
            false
        }
    }

    /// Marks an entity for deletion at the next maintenance. Fails if the
    /// entity does not exist.
    pub fn delete_later(&mut self, entity: Entity) -> (r: Result<(), Fault>)
        ensures
            final(self).slots == old(self).slots,
            old(self).alive(entity) ==> r is Ok && final(self).doomed@ == old(self).doomed@.push(
                entity,
            ),
            !old(self).alive(entity) ==> r == Err::<(), Fault>(Fault::MissingEntity(entity))
                && final(self).doomed == old(self).doomed,
    {
        if self.is_alive(entity) {
            self.doomed.push(entity);
            Ok(())
        } else {
            Err(Fault::MissingEntity(entity))
        }
    }

    /// Deletes every entity that was marked for deletion.
    pub fn maintain(&mut self)
        ensures
            final(self).doomed@.len() == 0,
            final(self).slots@.len() == old(self).slots@.len(),
            forall|i: int|
                0 <= i < old(self).slots@.len() ==> #[trigger] final(self).slots@[i] == if names_slot(
                    old(self).doomed@,
                    i,
                ) {
                    None
                } else {
                    old(self).slots@[i]
                },
    {
        let mut k: usize = 0;
        while k < self.doomed.len()
            invariant
                k <= self.doomed@.len(),
                self.doomed == old(self).doomed,
                self.slots@.len() == old(self).slots@.len(),
                forall|i: int|
                    0 <= i < old(self).slots@.len() ==> #[trigger] self.slots@[i] == if names_slot(
                        old(self).doomed@.take(k as int),
                        i,
                    ) {
                        None
                    } else {
                        old(self).slots@[i]
                    },
            decreases self.doomed@.len() - k,
        {
            let entity = self.doomed[k];
            let ghost seen = old(self).doomed@.take(k as int);
            let ghost next = old(self).doomed@.take(k as int + 1);
            proof {
                assert(next =~= seen.push(entity));
                assert forall|i: int| names_slot(next, i) == (names_slot(seen, i) || entity.id
                    == i) by {
                    if names_slot(seen, i) {
                        let j = choose|j: int| 0 <= j < seen.len() && #[trigger] seen[j].id == i;
                        assert(next[j].id == i);
                    }
                    if entity.id == i {
                        assert(next[k as int].id == i);
                    }
                    if names_slot(next, i) {
                        let j = choose|j: int| 0 <= j < next.len() && #[trigger] next[j].id == i;
                        if j < k {
                            assert(seen[j].id == i);
                        }
                    }
                }
            }
            if (entity.id as usize) < self.slots.len() {
                self.slots[entity.id as usize] = None;
            }
            k += 1;
        }
        assert(old(self).doomed@.take(k as int) =~= old(self).doomed@);
        self.doomed.clear();
    }
}

} // verus!
