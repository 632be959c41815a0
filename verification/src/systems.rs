//! The systems that keep the map in step with the entities, and that remove
//! the defeated.

use vstd::prelude::*;
use vstd::string::StringExecFns;
use crate::combat::DamageSystem;
use crate::components::Entity;
use crate::dialog::{DialogAction, DialogInterface, DialogOption};
use crate::functions::VirtualKeyCode;
use crate::map::{tile_index, GameMap, TileType};
use crate::messages::{death_message, death_text};
use crate::store::{
    first_fault, lemma_first_fault_found, lemma_first_fault_none, Components, Fault, Store,
};
use crate::world::World;

verus! {

/// Whether the entity in the slot `i` stands on the map.
pub open spec fn stands(store: &Store, i: int) -> bool {
    store.holds(i) && store.at(i).position is Some
}

/// The index of the tile on which the entity in the slot `i` stands.
pub open spec fn tile_under(store: &Store, width: int, i: int) -> int {
    tile_index(width, store.at(i).position->0.x as int, store.at(i).position->0.y as int)
}

/// What stops the registration of the entity in the slot `i` on the map,
/// if anything: a position off the map.
pub open spec fn mapdex_fault(store: &Store, map: &GameMap, i: int) -> Option<Fault> {
    if stands(store, i) && !(0 <= tile_under(store, map.width as int, i) < map.area()) {
        Some(Fault::OffMap(Entity { id: i as u32 }))
    } else {
        None
    }
}

/// What stops the registration of each slot's entity on the map, if
/// anything.
pub open spec fn mapdex_faults(store: &Store, map: &GameMap) -> Seq<Option<Fault>> {
    Seq::new(store.slots@.len(), |i: int| mapdex_fault(store, map, i))
}

/// Whether an entity with collision in a slot below `n` stands on the tile
/// with the index `t`.
pub open spec fn has_blocker(store: &Store, width: int, n: int, t: int) -> bool
    decreases n,
{
    if n <= 0 {
        false
    } else {
        (stands(store, n - 1) && store.at(n - 1).collision && tile_under(store, width, n - 1) == t)
            || has_blocker(store, width, n - 1, t)
    }
}

/// The entities in the slots below `n` that stand on the tile with the
/// index `t`, in the order of their slots.
pub open spec fn occupants(store: &Store, width: int, n: int, t: int) -> Seq<Entity>
    decreases n,
{
    if n <= 0 {
        Seq::empty()
    } else if stands(store, n - 1) && tile_under(store, width, n - 1) == t {
        occupants(store, width, n - 1, t).push(Entity { id: (n - 1) as u32 })
    } else {
        occupants(store, width, n - 1, t)
    }
}

/// What the registration of the entities in the slots below `n` leaves
/// behind: a tile is blocked exactly if it is a wall or an entity with
/// collision stands on it, and its contents are the entities that stand on
/// it; nothing else on the map has changed.
pub open spec fn mapdex_done(store: &Store, before: &GameMap, after: &GameMap, n: int) -> bool {
    &&& *after == (GameMap {
        blocked_tiles: after.blocked_tiles,
        tile_contents: after.tile_contents,
        ..*before
    })
    &&& after.wf()
    &&& forall|t: int|
        0 <= t < before.area() ==> #[trigger] after.blocked_tiles@[t] == (before.tiles@[t]
            == TileType::WALL || has_blocker(store, before.width as int, n, t))
    &&& forall|t: int|
        0 <= t < before.area() ==> (#[trigger] after.tile_contents@[t])@ == occupants(
            store,
            before.width as int,
            n,
            t,
        )
}

/// System that keeps the blocked tiles and the contents of the tiles of
/// the map in step with the entities.
pub struct MapDexSystem {}

impl MapDexSystem {
    /// Rebuilds the blocked tiles and the contents of all tiles from
    /// scratch: first from the walls, then from the entities that have a
    /// position, in the order of their slots.
    pub fn run(store: &Store, map: &mut GameMap) -> (r: Result<(), Fault>)
        requires
            store.wf(),
            old(map).wf(),
        ensures
            match first_fault(mapdex_faults(store, old(map))) {
                Some(f) => r == Err::<(), Fault>(f),
                None => r is Ok && mapdex_done(store, old(map), final(map), store.len()),
            },
    {
        map.clear_tile_contents();
        map.refresh_blocked_tiles();
        let mut i: usize = 0;
        while i < store.slots.len()
            invariant
                store.wf(),
                old(map).wf(),
                i <= store.slots@.len(),
                mapdex_done(store, old(map), map, i as int),
                forall|j: int| 0 <= j < i ==> mapdex_fault(store, old(map), j) is None,
            decreases store.slots@.len() - i,
        {
            if let Some(c) = &store.slots[i] {
                if let Some(position) = c.position {
                    if !map.check_has_tile(position.x, position.y) {
                        proof {
                            lemma_first_fault_found(mapdex_faults(store, old(map)), i as int);
                        }
                        return Err(Fault::OffMap(Entity { id: i as u32 }));
                    }
                    if c.collision {
                        map.set_tile_is_blocked(position.x, position.y, true);
                    }
                    map.tile_contents_push(position.x, position.y, Entity { id: i as u32 });
                }
            }
            i += 1;
        }
        proof {
            lemma_first_fault_none(mapdex_faults(store, old(map)));
        }
        Ok(())
    }
}

/// Whether an entity is defeated: its hit points have dropped below 1.
pub open spec fn is_defeated(components: Components) -> bool {
    components.statistics is Some && components.statistics->0.hp < 1
}

/// Whether a defeated entity is removed: it has a name, and is not the
/// player.
pub open spec fn is_removed(components: Components) -> bool {
    is_defeated(components) && !components.player && components.name is Some
}

/// Whether a player in a slot below `n` is defeated.
pub open spec fn player_died(store: &Store, n: int) -> bool
    decreases n,
{
    if n <= 0 {
        false
    } else {
        (store.holds(n - 1) && is_defeated(store.at(n - 1)) && store.at(n - 1).player)
            || player_died(store, n - 1)
    }
}

/// The log entries for the entities in the slots below `n` that are
/// removed.
pub open spec fn death_entries(store: &Store, n: int) -> Seq<Seq<char>>
    decreases n,
{
    if n <= 0 {
        Seq::empty()
    } else if store.holds(n - 1) && is_removed(store.at(n - 1)) {
        death_entries(store, n - 1).push(death_text(store.at(n - 1).name_text()))
    } else {
        death_entries(store, n - 1)
    }
}

/// Whether `dialog` is the one that tells the player of their death: it
/// cannot be closed, and its only option ends the game.
pub open spec fn is_death_dialog(dialog: DialogInterface) -> bool {
    &&& dialog.title@ == "An untimely end"@
    &&& dialog.message is Some
    &&& dialog.message->0@
        == "You have died while exploring the dungeon! Restart the game and try again."@
    &&& !dialog.cancelable
    &&& dialog.options@.len() == 1
    &&& dialog.options@[0].description@ == "Quit the game"@
    &&& dialog.options@[0].key == VirtualKeyCode::Q
    &&& dialog.options@[0].action == DialogAction::Quit
}

/// What the removal of the defeated leaves behind: the defeated that have
/// a name and are not the player are deleted, and their deaths logged; the
/// death of a player has registered the dialog that ends the game.
pub open spec fn swept(before: &World, after: &World) -> bool {
    &&& *after == (World {
        store: after.store,
        game_log: after.game_log,
        dialog: after.dialog,
        ..*before
    })
    &&& after.store.doomed == before.store.doomed
    &&& after.store.slots@.len() == before.store.slots@.len()
    &&& forall|i: int|
        0 <= i < before.store.len() ==> #[trigger] after.store.slots@[i] == if before.store.holds(i)
            && is_removed(before.store.at(i)) {
            None
        } else {
            before.store.slots@[i]
        }
    &&& after.game_log@ == before.game_log@ + death_entries(&before.store, before.store.len())
    &&& if player_died(&before.store, before.store.len()) {
        after.dialog is Some && is_death_dialog(after.dialog->0)
    } else {
        after.dialog == before.dialog
    }
}

impl DamageSystem {
    /// Removes the defeated from the world. An entity whose hit points are
    /// below 1 is deleted, and its death logged, if it has a name; the
    /// player is never deleted: its death registers a dialog that cannot be
    /// closed and whose only option ends the game.
    pub fn clean_up(ecs: &mut World)
        ensures
            swept(old(ecs), final(ecs)),
    {
        let mut died = false;
        let mut i: usize = 0;
        while i < ecs.store.slots.len()
            invariant
                i <= ecs.store.slots@.len(),
                *ecs == (World { store: ecs.store, game_log: ecs.game_log, ..*old(ecs) }),
                ecs.store.doomed == old(ecs).store.doomed,
                ecs.store.slots@.len() == old(ecs).store.slots@.len(),
                forall|k: int|
                    0 <= k < old(ecs).store.len() ==> #[trigger] ecs.store.slots@[k] == if k < i
                        && old(ecs).store.holds(k) && is_removed(old(ecs).store.at(k)) {
                        None
                    } else {
                        old(ecs).store.slots@[k]
                    },
                ecs.game_log@ == old(ecs).game_log@ + death_entries(&old(ecs).store, i as int),
                died == player_died(&old(ecs).store, i as int),
            decreases ecs.store.slots@.len() - i,
        {
            let mut entry: Option<String> = None;
            if let Some(c) = &ecs.store.slots[i] {
                if let Some(statistics) = c.statistics {
                    if statistics.hp < 1 {
                        if c.player {
                            died = true;
                        } else if let Some(name) = &c.name {
                            entry = Some(death_message(name.name.as_str()));
                        }
                    }
                }
            }
            if let Some(entry) = entry {
                proof {
                    let so_far = death_entries(&old(ecs).store, i as int);
                    assert(old(ecs).game_log@ + so_far.push(entry@) =~= (old(ecs).game_log@
                        + so_far).push(entry@));
                }
                ecs.game_log.push_owned(entry);
                ecs.store.slots[i] = None;
            }
            i += 1;
        }
        if died {
            let mut options: Vec<DialogOption> = Vec::new();
            options.push(
                DialogOption {
                    description: String::from_str("Quit the game"),
                    key: VirtualKeyCode::Q,
                    action: DialogAction::Quit,
                },
            );
            DialogInterface::register_dialog(
                ecs,
                String::from_str("An untimely end"),
                Some(
                    String::from_str(
                        "You have died while exploring the dungeon! Restart the game and try again.",
                    ),
                ),
                options,
                false,
            );
        }
    }
}

} // verus!
