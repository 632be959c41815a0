//! What the player does: move, attack, walk along a clicked path, pick up
//! items, open the inventory.

use vstd::prelude::*;
use vstd::string::StringExecFns;
use crate::components::{points_contain, Entity, MeleeAttack, Position};
use crate::config;
use crate::dialog::{DialogAction, DialogInterface, DialogOption};
use crate::functions::{alpha_key, i32_to_alpha_key, VirtualKeyCode};
use crate::map::GameMap;
use crate::monsters::NavigationPath;
use crate::store::{
    first_fault, lemma_first_fault_found, lemma_first_fault_none, Components, Fault, Store,
};
use crate::world::World;

verus! {

/// A number between two bounds: `low` if it is below, `high` if it is
/// above.
pub open spec fn clamped(value: int, low: int, high: int) -> int {
    if value < low {
        low
    } else if value > high {
        high
    } else {
        value
    }
}

/// Whether the entity in the slot `i` is moved by the player's input: it is
/// marked as player and has a position and a field of view.
pub open spec fn steers(store: &Store, i: int) -> bool {
    &&& store.holds(i)
    &&& store.at(i).player
    &&& store.at(i).position is Some
    &&& store.at(i).fov is Some
}

/// The last of the first `m` entities on a tile that can be attacked: it
/// has statistics.
pub open spec fn last_target(store: &Store, contents: Seq<Entity>, m: int) -> Option<Entity>
    decreases m,
{
    if m <= 0 {
        None
    } else if store.alive(contents[m - 1]) && store.of(contents[m - 1]).statistics is Some {
        Some(contents[m - 1])
    } else {
        last_target(store, contents, m - 1)
    }
}

/// What stops the move of the entity in the slot `i` by `(dx, dy)`, if
/// anything: a destination whose coordinates do not fit into 32 bits, or
/// that is off the map.
pub open spec fn move_fault(store: &Store, map: &GameMap, i: int, dx: int, dy: int) -> Option<Fault> {
    if !steers(store, i) {
        None
    } else {
        let x = store.at(i).position->0.x + dx;
        let y = store.at(i).position->0.y + dy;
        if !(i32::MIN <= x <= i32::MAX && i32::MIN <= y <= i32::MAX) {
            Some(Fault::Overflow(Entity { id: i as u32 }))
        } else if !map.has_tile(x, y) {
            Some(Fault::OffMap(Entity { id: i as u32 }))
        } else {
            None
        }
    }
}

/// What stops the move of each slot's entity, if anything.
pub open spec fn move_faults(store: &Store, map: &GameMap, dx: int, dy: int) -> Seq<Option<Fault>> {
    Seq::new(store.slots@.len(), |i: int| move_fault(store, map, i, dx, dy))
}

/// Whether the entity in the slot `i` walks when it is moved by `(dx, dy)`:
/// its destination is not blocked.
pub open spec fn walks(store: &Store, map: &GameMap, i: int, dx: int, dy: int) -> bool {
    steers(store, i) && !map.blocked_tiles@[map.spec_idx(
        store.at(i).position->0.x + dx,
        store.at(i).position->0.y + dy,
    )]
}

/// Where the entity in the slot `i` stands after it has walked by
/// `(dx, dy)`: at its destination, held inside of the window.
pub open spec fn walked_to(store: &Store, i: int, dx: int, dy: int) -> Position {
    Position {
        x: clamped(store.at(i).position->0.x + dx, 0, config::WINDOW_WIDTH - 1) as i32,
        y: clamped(store.at(i).position->0.y + dy, 0, config::WINDOW_HEIGHT - 1) as i32,
    }
}

/// The last known position of the player after the entities in the slots
/// below `n` have been moved.
pub open spec fn position_after_moves(
    store: &Store,
    map: &GameMap,
    n: int,
    dx: int,
    dy: int,
    start: Position,
) -> Position
    decreases n,
{
    if n <= 0 {
        start
    } else if walks(store, map, n - 1, dx, dy) {
        walked_to(store, n - 1, dx, dy)
    } else {
        position_after_moves(store, map, n - 1, dx, dy, start)
    }
}

/// What the move of the entity in the slot `i` by `(dx, dy)` does to its
/// components: it has the intent to attack the last entity with statistics
/// on its destination, if there is one; and if the destination is not
/// blocked, it stands there with a stale field of view.
pub open spec fn moved(
    store: &Store,
    map: &GameMap,
    i: int,
    dx: int,
    dy: int,
    after: Components,
) -> bool {
    let before = store.at(i);
    let contents = map.tile_contents@[map.spec_idx(
        before.position->0.x + dx,
        before.position->0.y + dy,
    )]@;
    &&& after == (Components {
        melee_attack: after.melee_attack,
        position: after.position,
        fov: after.fov,
        ..before
    })
    &&& after.melee_attack == match last_target(store, contents, contents.len() as int) {
        Some(target) => Some(MeleeAttack { target }),
        None => before.melee_attack,
    }
    &&& after.fov is Some
    &&& after.fov->0.content == before.fov->0.content
    &&& after.fov->0.range == before.fov->0.range
    &&& if walks(store, map, i, dx, dy) {
        after.position == Some(walked_to(store, i, dx, dy)) && after.fov->0.is_dirty
    } else {
        after.position == before.position && after.fov->0.is_dirty == before.fov->0.is_dirty
    }
}

/// What the move of the entities in the slots below `n` leaves behind.
pub open spec fn move_done(
    before: &Store,
    map: &GameMap,
    after: &Store,
    n: int,
    dx: int,
    dy: int,
) -> bool {
    &&& after.same_entities(before)
    &&& after.doomed == before.doomed
    &&& forall|k: int|
        before.holds(k) ==> if k < n && steers(before, k) {
            moved(before, map, k, dx, dy, #[trigger] after.at(k))
        } else {
            #[trigger] after.at(k) == before.at(k)
        }
}

/// How the move of the players by `(dx, dy)` ends.
pub open spec fn move_outcome(before: &World, after: &World, dx: int, dy: int, r: Result<(), Fault>) -> bool {
    match first_fault(move_faults(&before.store, &before.map, dx, dy)) {
        Some(f) => r == Err::<(), Fault>(f),
        None => {
            &&& r is Ok
            &&& *after == (World {
                store: after.store,
                player_position: after.player_position,
                ..*before
            })
            &&& move_done(&before.store, &before.map, &after.store, before.store.len(), dx, dy)
            &&& after.player_position == position_after_moves(
                &before.store,
                &before.map,
                before.store.len(),
                dx,
                dy,
                before.player_position,
            )
        },
    }
}

/// Finds the last entity on a tile that can be attacked.
fn find_target(store: &Store, contents: &Vec<Entity>) -> (target: Option<Entity>)
    ensures
        target == last_target(store, contents@, contents@.len() as int),
{
    let mut target: Option<Entity> = None;
    let mut j: usize = 0;
    while j < contents.len()
        invariant
            j <= contents@.len(),
            target == last_target(store, contents@, j as int),
        decreases contents@.len() - j,
    {
        let candidate: Entity = contents[j];
        match store.get(candidate) {
            Some(c) => {
                if c.statistics.is_some() {
                    target = Some(candidate);
                }
            },
            None => {},
        }
        j += 1;
    }
    target
}

/// Moves every entity that is marked as player by `(delta_x, delta_y)`. An
/// entity with statistics on the destination is attacked; a destination
/// that is not blocked is walked to, and becomes the last known position of
/// the player.
pub fn player_move(delta_x: i32, delta_y: i32, ecs: &mut World) -> (r: Result<(), Fault>)
    requires
        old(ecs).wf(),
    ensures
        move_outcome(old(ecs), final(ecs), delta_x as int, delta_y as int, r),
{
    let mut i: usize = 0;
    while i < ecs.store.slots.len()
        invariant
            ecs.wf(),
            i <= ecs.store.slots@.len(),
            *ecs == (World { store: ecs.store, player_position: ecs.player_position, ..*old(ecs) }),
            move_done(
                &old(ecs).store,
                &old(ecs).map,
                &ecs.store,
                i as int,
                delta_x as int,
                delta_y as int,
            ),
            ecs.player_position == position_after_moves(
                &old(ecs).store,
                &old(ecs).map,
                i as int,
                delta_x as int,
                delta_y as int,
                old(ecs).player_position,
            ),
            forall|j: int|
                0 <= j < i ==> move_fault(
                    &old(ecs).store,
                    &old(ecs).map,
                    j,
                    delta_x as int,
                    delta_y as int,
                ) is None,
        decreases ecs.store.slots@.len() - i,
    {
        let ghost before = ecs.store;
        assert(old(ecs).store.holds(i as int) ==> ecs.store.at(i as int) == old(ecs).store.at(
            i as int,
        ));
        let mut from: Option<Position> = None;
        if let Some(c) = &ecs.store.slots[i] {
            if c.player && c.fov.is_some() {
                from = c.position;
            }
        }
        assert(from is Some == steers(&old(ecs).store, i as int));
        if let Some(from) = from {
            let x: i64 = from.x as i64 + delta_x as i64;
            let y: i64 = from.y as i64 + delta_y as i64;
            if x < i32::MIN as i64 || x > i32::MAX as i64 || y < i32::MIN as i64 || y
                > i32::MAX as i64 {
                proof {
                    lemma_first_fault_found(
                        move_faults(&old(ecs).store, &old(ecs).map, delta_x as int, delta_y as int),
                        i as int,
                    );
                }
                return Err(Fault::Overflow(Entity { id: i as u32 }));
            }
            if !ecs.map.check_has_tile(x as i32, y as i32) {
                proof {
                    lemma_first_fault_found(
                        move_faults(&old(ecs).store, &old(ecs).map, delta_x as int, delta_y as int),
                        i as int,
                    );
                }
                return Err(Fault::OffMap(Entity { id: i as u32 }));
            }
            let contents = ecs.map.tile_contents_get(x as i32, y as i32);
            let target = find_target(&ecs.store, contents);
            proof {
                lemma_last_target_reads(
                    &old(ecs).store,
                    &ecs.store,
                    contents@,
                    contents@.len() as int,
                );
            }
            let blocked = ecs.map.is_tile_blocked(x as i32, y as i32);
            let to = Position {
                x: if x < 0 {
                    0
                } else if x > (config::WINDOW_WIDTH - 1) as i64 {
                    config::WINDOW_WIDTH - 1
                } else {
                    x as i32
                },
                y: if y < 0 {
                    0
                } else if y > (config::WINDOW_HEIGHT - 1) as i64 {
                    config::WINDOW_HEIGHT - 1
                } else {
                    y as i32
                },
            };
            if let Some(c) = &mut ecs.store.slots[i] {
                if let Some(target) = target {
                    c.melee_attack = Some(MeleeAttack { target });
                }
                if !blocked {
                    c.position = Some(to);
                    if let Some(fov) = &mut c.fov {
                        fov.is_dirty = true;
                    }
                }
            }
            if !blocked {
                ecs.player_position = to;
            }
        }
        proof {
            assert forall|k: int| old(ecs).store.holds(k) implies if k < i + 1 && steers(
                &old(ecs).store,
                k,
            ) {
                moved(
                    &old(ecs).store,
                    &old(ecs).map,
                    k,
                    delta_x as int,
                    delta_y as int,
                    #[trigger] ecs.store.at(k),
                )
            } else {
                #[trigger] ecs.store.at(k) == old(ecs).store.at(k)
            } by {
                assert(before.holds(k));
                assert(before.at(k) == before.at(k));
                if k != i {
                    assert(ecs.store.at(k) == before.at(k));
                }
            }
        }
        i += 1;
    }
    proof {
        lemma_first_fault_none(
            move_faults(&old(ecs).store, &old(ecs).map, delta_x as int, delta_y as int),
        );
    }
    Ok(())
}

/// The targets on a tile are the same while only players have moved.
proof fn lemma_last_target_reads(start: &Store, now: &Store, contents: Seq<Entity>, m: int)
    requires
        now.same_entities(start),
        forall|k: int|
            start.holds(k) ==> (#[trigger] now.at(k)).statistics == start.at(k).statistics,
        0 <= m <= contents.len(),
    ensures
        last_target(now, contents, m) == last_target(start, contents, m),
    decreases m,
{
    if m > 0 {
        lemma_last_target_reads(start, now, contents, m - 1);
        let e = contents[m - 1];
        if e.id < start.slots@.len() {
            assert((now.slots@[e.id as int] is Some) == (start.slots@[e.id as int] is Some));
            if start.holds(e.id as int) {
                assert(now.at(e.id as int).statistics == start.at(e.id as int).statistics);
            }
        }
    }
}

/// What the player has entered during a tick.
#[derive(Clone, Copy, Debug)]
pub struct Input {
    /// The key that was pressed, if any.
    pub key: Option<VirtualKeyCode>,
    /// The tile under the mouse.
    pub mouse: Position,
    /// Whether the left button of the mouse was clicked.
    pub left_click: bool,
    /// Whether a shift key is held.
    pub shift: bool,
}

/// How taking the next step of the queued path ends: the step is removed
/// from the queue, and the move that leads from the last known position of
/// the player to it is returned.
pub open spec fn click_outcome(before: &World, after: &World, r: Result<Option<(i32, i32)>, Fault>) -> bool {
    if before.pathing@.len() == 0 {
        &&& r == Ok::<Option<(i32, i32)>, Fault>(None)
        &&& *after == (World { pathing: after.pathing, ..*before })
        &&& after.pathing@ == before.pathing@
    } else {
        let step = before.pathing@.last();
        let to = before.map.spec_coordinates(step as int);
        let dx = to.0 - before.player_position.x;
        let dy = to.1 - before.player_position.y;
        &&& *after == (World { pathing: after.pathing, ..*before })
        &&& after.pathing@ == before.pathing@.drop_last()
        &&& if step > i32::MAX {
            r == Err::<Option<(i32, i32)>, Fault>(Fault::OffMap(before.player))
        } else if !(i32::MIN <= dx <= i32::MAX && i32::MIN <= dy <= i32::MAX) {
            r == Err::<Option<(i32, i32)>, Fault>(Fault::Overflow(before.player))
        } else {
            r == Ok::<Option<(i32, i32)>, Fault>(Some((dx as i32, dy as i32)))
        }
    }
}

/// Takes the next step from the queued path of the player, if there is
/// one, and returns the move that leads to it.
pub fn player_move_click(ecs: &mut World) -> (r: Result<Option<(i32, i32)>, Fault>)
    requires
        old(ecs).wf(),
    ensures
        click_outcome(old(ecs), final(ecs), r),
{
    match ecs.pathing.pop() {
        None => Ok(None),
        Some(idx) => {
            if idx > i32::MAX as usize {
                return Err(Fault::OffMap(ecs.player));
            }
            let to = ecs.map.idx_to_coordinates(idx);
            let dx: i64 = to.0 as i64 - ecs.player_position.x as i64;
            let dy: i64 = to.1 as i64 - ecs.player_position.y as i64;
            if dx < i32::MIN as i64 || dx > i32::MAX as i64 || dy < i32::MIN as i64 || dy
                > i32::MAX as i64 {
                return Err(Fault::Overflow(ecs.player));
            }
            Ok(Some((dx as i32, dy as i32)))
        },
    }
}

/// Whether the player sees the point `target`.
pub open spec fn player_sees(store: &Store, player: Entity, target: Position) -> bool {
    store.alive(player) && store.of(player).fov is Some && store.of(
        player,
    ).fov->0.content@.contains(target)
}

/// The map as the search for the player's path sees it: no tile is blocked
/// but the walls.
pub open spec fn is_cleared(map: &GameMap, cleared: &GameMap) -> bool {
    &&& *cleared == (GameMap { blocked_tiles: cleared.blocked_tiles, ..*map })
    &&& cleared.blocked_tiles@ == Seq::new(
        map.tiles@.len(),
        |i: int| map.tiles@[i] == crate::map::TileType::WALL,
    )
}

/// What holds after a click on the tile `mouse`: the search was asked for a
/// path from the player's tile to the clicked tile, on the map without the
/// entities that block tiles, and what it gave was queued if it was found,
/// has more than one tile, and the player sees the clicked tile; nothing
/// else has changed.
pub open spec fn click_planned<F: Fn(&GameMap, usize, usize) -> NavigationPath>(
    before: &World,
    after: &World,
    mouse: Position,
    search: F,
) -> bool {
    let from = before.map.spec_idx(before.player_position.x as int, before.player_position.y as int);
    let to = before.map.spec_idx(mouse.x as int, mouse.y as int);
    &&& *after == (World { pathing: after.pathing, map: after.map, ..*before })
    &&& after.map == (GameMap { blocked_tiles: after.map.blocked_tiles, ..before.map })
    &&& after.map.blocked_tiles@ == before.map.blocked_tiles@
    &&& exists|cleared: GameMap, path: NavigationPath|
        {
            &&& is_cleared(&before.map, &cleared)
            &&& #[trigger] call_ensures(search, (&cleared, from as usize, to as usize), path)
            &&& after.pathing@ == if path.success && path.steps@.len() > 1 && player_sees(
                &before.store,
                before.player,
                mouse,
            ) {
                path.steps@.drop_first().reverse()
            } else {
                before.pathing@
            }
        }
}

/// How a click on the tile `mouse` ends. A click off the map changes
/// nothing. A click on the map while the player stands off the map is a
/// fault that names the player. Any other click plans the way to the tile.
pub open spec fn click_handled<F: Fn(&GameMap, usize, usize) -> NavigationPath>(
    before: &World,
    after: &World,
    mouse: Position,
    r: Result<(), Fault>,
    search: F,
) -> bool {
    if !before.map.has_tile(mouse.x as int, mouse.y as int) {
        r is Ok && *after == *before
    } else if !before.map.has_tile(
        before.player_position.x as int,
        before.player_position.y as int,
    ) {
        r == Err::<(), Fault>(Fault::OffMap(before.player)) && *after == *before
    } else {
        r is Ok && click_planned(before, after, mouse, search)
    }
}

/// Plans the way of the player to the tile `mouse` that was clicked: asks
/// `search` for a path from the player's tile, on the map as it is without
/// the entities that block tiles, and queues the path if it was found, has
/// more than one tile, and the player sees the tile. A click off the map is
/// passed over.
pub fn handle_new_click_to_move<F>(ecs: &mut World, mouse: Position, search: F) -> (r: Result<
    (),
    Fault,
>) where F: Fn(&GameMap, usize, usize) -> NavigationPath
    requires
        old(ecs).wf(),
        forall|m: &GameMap, from: usize, to: usize|
            m.wf() && from < m.area() && to < m.area() ==> call_requires(search, (m, from, to)),
    ensures
        click_handled(old(ecs), final(ecs), mouse, r, search),
{
    if !ecs.map.check_has_tile(mouse.x, mouse.y) {
        return Ok(());
    }
    if !ecs.map.check_has_tile(ecs.player_position.x, ecs.player_position.y) {
        return Err(Fault::OffMap(ecs.player));
    }
    let from: usize = ecs.map.coordinates_to_idx(ecs.player_position.x, ecs.player_position.y);
    let to: usize = ecs.map.coordinates_to_idx(mouse.x, mouse.y);
    let blocked = copy_flags(&ecs.map.blocked_tiles);
    ecs.map.refresh_blocked_tiles();
    let ghost cleared = ecs.map;
    let path = search(&ecs.map, from, to);
    let ghost found = path;
    ecs.map.blocked_tiles = blocked;
    let in_sight = match ecs.store.get(ecs.player) {
        Some(c) => match &c.fov {
            Some(fov) => points_contain(&fov.content, &mouse),
            None => false,
        },
        None => false,
    };
    ecs.pathing.queue(path.success, path.steps, in_sight);
    proof {
        let start = old(ecs).map.spec_idx(
            old(ecs).player_position.x as int,
            old(ecs).player_position.y as int,
        );
        let goal = old(ecs).map.spec_idx(mouse.x as int, mouse.y as int);
        assert(start as usize == from && goal as usize == to);
        assert(is_cleared(&old(ecs).map, &cleared));
        assert(call_ensures(search, (&cleared, start as usize, goal as usize), found));
        assert(in_sight == player_sees(&old(ecs).store, old(ecs).player, mouse));
    }
    Ok(())
}

/// Copies a list of flags.
fn copy_flags(flags: &Vec<bool>) -> (copy: Vec<bool>)
    ensures
        copy@ == flags@,
{
    let mut copy: Vec<bool> = Vec::new();
    let mut i: usize = 0;
    while i < flags.len()
        invariant
            i <= flags@.len(),
            copy@ == flags@.take(i as int),
        decreases flags@.len() - i,
    {
        copy.push(flags[i]);
        assert(flags@.take(i as int + 1) =~= flags@.take(i as int).push(flags@[i as int]));
        i += 1;
    }
    assert(flags@.take(i as int) =~= flags@);
    copy
}

/// Lets the player pick up the item on which it stands.
pub fn pick_up_item(ecs: &mut World) -> (r: Result<(), Fault>)
    requires
        old(ecs).wf(),
    ensures
        *final(ecs) == (World {
            store: final(ecs).store,
            game_log: final(ecs).game_log,
            ..*old(ecs)
        }),
        crate::items::pick_up_outcome(
            &old(ecs).store,
            old(ecs).game_log@,
            &final(ecs).store,
            final(ecs).game_log@,
            old(ecs).player,
            r,
        ),
{
    let player = ecs.player;
    crate::items::Item::pick_up(&mut ecs.store, &mut ecs.game_log, &player)
}

/// Whether the entity in the slot `i` is listed in the inventory of
/// `owner`: it is loot of the owner and has a name.
pub open spec fn carried(store: &Store, owner: Entity, i: int) -> bool {
    &&& store.holds(i)
    &&& store.at(i).loot is Some
    &&& store.at(i).loot->0.owner == owner
    &&& store.at(i).name is Some
}

/// The slots below `n` whose entities are listed in the inventory of
/// `owner`, in their order.
pub open spec fn inventory(store: &Store, owner: Entity, n: int) -> Seq<int>
    decreases n,
{
    if n <= 0 {
        Seq::empty()
    } else if carried(store, owner, n - 1) {
        inventory(store, owner, n - 1).push(n - 1)
    } else {
        inventory(store, owner, n - 1)
    }
}

/// Whether `options` offer the first `count` items of an inventory: each
/// under its name, with the letter of its place as the key, to be dropped
/// or to be used.
pub open spec fn offers(
    options: Seq<DialogOption>,
    store: &Store,
    owner: Entity,
    items: Seq<int>,
    drop: bool,
) -> bool {
    &&& options.len() == items.len()
    &&& forall|j: int|
        0 <= j < items.len() ==> {
            let item = Entity { id: items[j] as u32 };
            &&& (#[trigger] options[j]).description@ == store.at(items[j]).name_text()
            &&& options[j].key == alpha_key(j)
            &&& options[j].action == if drop {
                DialogAction::DropItem { owner, item }
            } else {
                DialogAction::UseItem { user: owner, item }
            }
        }
}

/// How opening the inventory of the player ends: a dialog that can be
/// closed is registered, which offers the items of the inventory, or tells
/// that there are none.
pub open spec fn inventory_outcome(before: &World, after: &World, drop: bool, r: Result<(), Fault>) -> bool {
    let items = inventory(&before.store, before.player, before.store.len());
    if items.len() > 26 {
        r == Err::<(), Fault>(Fault::Overflow(before.player)) && *after == *before
    } else {
        &&& r is Ok
        &&& *after == (World { dialog: after.dialog, ..*before })
        &&& after.dialog is Some
        &&& after.dialog->0.cancelable
        &&& after.dialog->0.title@ == if drop {
            "Select item to drop"@
        } else {
            "Inventory"@
        }
        &&& offers(after.dialog->0.options@, &before.store, before.player, items, drop)
        &&& if items.len() == 0 {
            after.dialog->0.message is Some && after.dialog->0.message->0@
                == "You backpack is empty..."@
        } else {
            after.dialog->0.message is None
        }
    }
}

/// Opens the inventory of the player: to drop an item if `drop`, to use one
/// otherwise.
pub fn show_inventory(ecs: &mut World, drop: bool) -> (r: Result<(), Fault>)
    requires
        old(ecs).wf(),
    ensures
        inventory_outcome(old(ecs), final(ecs), drop, r),
{
    let mut options: Vec<DialogOption> = Vec::new();
    let player = ecs.player;
    let mut i: usize = 0;
    while i < ecs.store.slots.len()
        invariant
            i <= ecs.store.slots@.len(),
            *ecs == *old(ecs),
            ecs.wf(),
            player == ecs.player,
            inventory(&ecs.store, player, i as int).len() <= 26,
            offers(options@, &ecs.store, player, inventory(&ecs.store, player, i as int), drop),
        decreases ecs.store.slots@.len() - i,
    {
        if let Some(c) = &ecs.store.slots[i] {
            if let Some(loot) = c.loot {
                if loot.owner == player {
                    if let Some(name) = &c.name {
                        if options.len() >= 26 {
                            proof {
                                lemma_inventory_grows(
                                    &ecs.store,
                                    player,
                                    i as int + 1,
                                    ecs.store.len(),
                                );
                            }
                            return Err(Fault::Overflow(player));
                        }
                        let item = Entity { id: i as u32 };
                        let ghost listed = options@;
                        options.push(
                            DialogOption {
                                description: name.name.clone(),
                                key: i32_to_alpha_key(options.len() as i32),
                                action: if drop {
                                    DialogAction::DropItem { owner: player, item }
                                } else {
                                    DialogAction::UseItem { user: player, item }
                                },
                            },
                        );
                        proof {
                            let items = inventory(&ecs.store, player, i as int + 1);
                            assert forall|j: int| 0 <= j < items.len() implies {
                                let item = Entity { id: items[j] as u32 };
                                &&& (#[trigger] options@[j]).description@ == ecs.store.at(
                                    items[j],
                                ).name_text()
                                &&& options@[j].key == alpha_key(j)
                                &&& options@[j].action == if drop {
                                    DialogAction::DropItem { owner: player, item }
                                } else {
                                    DialogAction::UseItem { user: player, item }
                                }
                            } by {
                                if j < listed.len() {
                                    assert(options@[j] == listed[j]);
                                }
                            }
                        }
                    }
                }
            }
        }
        i += 1;
    }
    let title = if drop {
        String::from_str("Select item to drop")
    } else {
        String::from_str("Inventory")
    };
    let message = if options.len() == 0 {
        Some(String::from_str("You backpack is empty..."))
    } else {
        None
    };
    DialogInterface::register_dialog(ecs, title, message, options, true);
    Ok(())
}

/// An inventory does not shrink when more slots are looked at.
proof fn lemma_inventory_grows(store: &Store, owner: Entity, m: int, n: int)
    requires
        0 <= m <= n,
    ensures
        inventory(store, owner, m).len() <= inventory(store, owner, n).len(),
    decreases n - m,
{
    if m < n {
        lemma_inventory_grows(store, owner, m, n - 1);
    }
}

/// Whether `dialog` is the pause dialog: it can be closed, and each of its
/// options, to save, to load and to quit, ends the game.
pub open spec fn is_pause_dialog(dialog: DialogInterface) -> bool {
    &&& dialog.title@ == "Pause"@
    &&& dialog.message is Some
    &&& dialog.message->0@ == "What would you like to do in this moment of respite?"@
    &&& dialog.cancelable
    &&& dialog.options@.len() == 3
    &&& dialog.options@[0].description@ == "Save"@
    &&& dialog.options@[0].key == VirtualKeyCode::S
    &&& dialog.options@[0].action == DialogAction::Quit
    &&& dialog.options@[1].description@ == "Load"@
    &&& dialog.options@[1].key == VirtualKeyCode::L
    &&& dialog.options@[1].action == DialogAction::Quit
    &&& dialog.options@[2].description@ == "Quit"@
    &&& dialog.options@[2].key == VirtualKeyCode::Q
    &&& dialog.options@[2].action == DialogAction::Quit
}

/// Registers the pause dialog.
pub fn register_pause_dialog(ecs: &mut World)
    ensures
        *final(ecs) == (World { dialog: final(ecs).dialog, ..*old(ecs) }),
        final(ecs).dialog is Some,
        is_pause_dialog(final(ecs).dialog->0),
{
    let mut options: Vec<DialogOption> = Vec::new();
    options.push(
        DialogOption {
            description: String::from_str("Save"),
            key: VirtualKeyCode::S,
            action: DialogAction::Quit,
        },
    );
    options.push(
        DialogOption {
            description: String::from_str("Load"),
            key: VirtualKeyCode::L,
            action: DialogAction::Quit,
        },
    );
    options.push(
        DialogOption {
            description: String::from_str("Quit"),
            key: VirtualKeyCode::Q,
            action: DialogAction::Quit,
        },
    );
    DialogInterface::register_dialog(
        ecs,
        String::from_str("Pause"),
        Some(String::from_str("What would you like to do in this moment of respite?")),
        options,
        true,
    );
}

/// What a key asks the player to do.
#[derive(Clone, Copy, PartialEq, Eq, Structural, Debug)]
pub enum PlayerAction {
    /// Move by the given amounts in x and y.
    Move(i32, i32),
    /// Pick up the item on the player's tile.
    PickUp,
    /// Open the inventory.
    Inventory,
    /// Open the pause dialog.
    Pause,
    /// Nothing: the key is not bound.
    Nothing,
}

/// The action that is bound to a key.
pub open spec fn spec_key_action(key: VirtualKeyCode) -> PlayerAction {
    match key {
        VirtualKeyCode::W | VirtualKeyCode::Up | VirtualKeyCode::Numpad8 | VirtualKeyCode::K => PlayerAction::Move(
            0,
            -1i32,
        ),
        VirtualKeyCode::A | VirtualKeyCode::Left | VirtualKeyCode::Numpad4 | VirtualKeyCode::H => PlayerAction::Move(
            -1i32,
            0,
        ),
        VirtualKeyCode::S | VirtualKeyCode::Down | VirtualKeyCode::Numpad2 | VirtualKeyCode::J => PlayerAction::Move(
            0,
            1,
        ),
        VirtualKeyCode::D | VirtualKeyCode::Right | VirtualKeyCode::Numpad6 | VirtualKeyCode::L => PlayerAction::Move(
            1,
            0,
        ),
        VirtualKeyCode::Numpad7 | VirtualKeyCode::Q => PlayerAction::Move(-1i32, -1i32),
        VirtualKeyCode::Numpad9 | VirtualKeyCode::E => PlayerAction::Move(1, -1i32),
        VirtualKeyCode::Numpad1 | VirtualKeyCode::Y => PlayerAction::Move(-1i32, 1),
        VirtualKeyCode::Numpad3 | VirtualKeyCode::X => PlayerAction::Move(1, 1),
        VirtualKeyCode::G => PlayerAction::PickUp,
        VirtualKeyCode::I => PlayerAction::Inventory,
        VirtualKeyCode::Escape => PlayerAction::Pause,
        _ => PlayerAction::Nothing,
    }
}

/// Finds the action that is bound to a key.
pub fn key_action(key: VirtualKeyCode) -> (action: PlayerAction)
    ensures
        action == spec_key_action(key),
{
    match key {
        VirtualKeyCode::W | VirtualKeyCode::Up | VirtualKeyCode::Numpad8 | VirtualKeyCode::K => PlayerAction::Move(
            0,
            -1,
        ),
        VirtualKeyCode::A | VirtualKeyCode::Left | VirtualKeyCode::Numpad4 | VirtualKeyCode::H => PlayerAction::Move(
            -1,
            0,
        ),
        VirtualKeyCode::S | VirtualKeyCode::Down | VirtualKeyCode::Numpad2 | VirtualKeyCode::J => PlayerAction::Move(
            0,
            1,
        ),
        VirtualKeyCode::D | VirtualKeyCode::Right | VirtualKeyCode::Numpad6 | VirtualKeyCode::L => PlayerAction::Move(
            1,
            0,
        ),
        VirtualKeyCode::Numpad7 | VirtualKeyCode::Q => PlayerAction::Move(-1, -1),
        VirtualKeyCode::Numpad9 | VirtualKeyCode::E => PlayerAction::Move(1, -1),
        VirtualKeyCode::Numpad1 | VirtualKeyCode::Y => PlayerAction::Move(-1, 1),
        VirtualKeyCode::Numpad3 | VirtualKeyCode::X => PlayerAction::Move(1, 1),
        VirtualKeyCode::G => PlayerAction::PickUp,
        VirtualKeyCode::I => PlayerAction::Inventory,
        VirtualKeyCode::Escape => PlayerAction::Pause,
        _ => PlayerAction::Nothing,
    }
}

/// The result of an action that, where it succeeds, lets the player's turn
/// begin.
pub open spec fn action_result(r: Result<crate::world::ProcessingState, Fault>) -> Result<(), Fault> {
    match r {
        Ok(_) => Ok(()),
        Err(f) => Err(f),
    }
}

/// How the handling of a key ends, on a world without a queued step: a key
/// that is bound to an action carries the action out and lets the player's
/// turn begin; any other key, and no key, leave the game waiting for input.
/// A click without a key plans the way to the clicked tile.
pub open spec fn key_outcome<F: Fn(&GameMap, usize, usize) -> NavigationPath>(
    before: &World,
    after: &World,
    input: Input,
    r: Result<crate::world::ProcessingState, Fault>,
    search: F,
) -> bool {
    let waiting = Ok::<crate::world::ProcessingState, Fault>(
        crate::world::ProcessingState::WaitingForInput,
    );
    let turn = r is Ok ==> r == Ok::<crate::world::ProcessingState, Fault>(
        crate::world::ProcessingState::PlayerTurn,
    );
    match input.key {
        None => if input.left_click {
            (r is Ok ==> r == waiting) && click_handled(
                before,
                after,
                input.mouse,
                action_result(r),
                search,
            )
        } else {
            r == waiting && *after == *before
        },
        Some(key) => match spec_key_action(key) {
            PlayerAction::Nothing => r == waiting && *after == *before,
            PlayerAction::Move(dx, dy) => turn && move_outcome(
                before,
                after,
                dx as int,
                dy as int,
                action_result(r),
            ),
            PlayerAction::PickUp => {
                &&& turn
                &&& *after == (World { store: after.store, game_log: after.game_log, ..*before })
                &&& crate::items::pick_up_outcome(
                    &before.store,
                    before.game_log@,
                    &after.store,
                    after.game_log@,
                    before.player,
                    action_result(r),
                )
            },
            PlayerAction::Inventory => turn && inventory_outcome(
                before,
                after,
                input.shift,
                action_result(r),
            ),
            PlayerAction::Pause => {
                &&& r == Ok::<crate::world::ProcessingState, Fault>(
                    crate::world::ProcessingState::PlayerTurn,
                )
                &&& *after == (World { dialog: after.dialog, ..*before })
                &&& after.dialog is Some
                &&& is_pause_dialog(after.dialog->0)
            },
        },
    }
}

/// How the handling of the player's input ends: a queued step of the
/// clicked path is taken before any key is looked at, and lets the player's
/// turn begin.
pub open spec fn input_outcome<F: Fn(&GameMap, usize, usize) -> NavigationPath>(
    before: &World,
    after: &World,
    input: Input,
    r: Result<crate::world::ProcessingState, Fault>,
    search: F,
) -> bool {
    exists|middle: World, click: Result<Option<(i32, i32)>, Fault>|
        {
            &&& #[trigger] click_outcome(before, &middle, click)
            &&& match click {
                Err(f) => r == Err::<crate::world::ProcessingState, Fault>(f),
                Ok(Some((dx, dy))) => {
                    &&& r is Ok ==> r == Ok::<crate::world::ProcessingState, Fault>(
                        crate::world::ProcessingState::PlayerTurn,
                    )
                    &&& move_outcome(&middle, after, dx as int, dy as int, action_result(r))
                },
                Ok(None) => key_outcome(&middle, after, input, r, search),
            }
        }
}

/// Handles the input of the player while the game waits for it.
pub fn player_handle_input<F>(game_state: &mut crate::state::State, input: &Input, search: F) -> (r:
    Result<crate::world::ProcessingState, Fault>) where
    F: Fn(&GameMap, usize, usize) -> NavigationPath,

    requires
        old(game_state).ecs.wf(),
        forall|m: &GameMap, from: usize, to: usize|
            m.wf() && from < m.area() && to < m.area() ==> call_requires(search, (m, from, to)),
    ensures
        input_outcome(&old(game_state).ecs, &final(game_state).ecs, *input, r, search),
{
    let click = player_move_click(&mut game_state.ecs);
    let ghost middle = game_state.ecs;
    let r = match click {
        Err(f) => Err(f),
        Ok(Some((dx, dy))) => {
            match player_move(dx, dy, &mut game_state.ecs) {
                Err(f) => Err(f),
                Ok(()) => Ok(crate::world::ProcessingState::PlayerTurn),
            }
        },
        Ok(None) => {
            match input.key {
                None => {
                    if input.left_click {
                        match handle_new_click_to_move(&mut game_state.ecs, input.mouse, search) {
                            Err(f) => Err(f),
                            Ok(()) => Ok(crate::world::ProcessingState::WaitingForInput),
                        }
                    } else {
                        Ok(crate::world::ProcessingState::WaitingForInput)
                    }
                },
                Some(key) => {
                    match key_action(key) {
                        PlayerAction::Nothing => Ok(
                            crate::world::ProcessingState::WaitingForInput,
                        ),
                        PlayerAction::Move(dx, dy) => {
                            match player_move(dx, dy, &mut game_state.ecs) {
                                Err(f) => Err(f),
                                Ok(()) => Ok(crate::world::ProcessingState::PlayerTurn),
                            }
                        },
                        PlayerAction::PickUp => {
                            match pick_up_item(&mut game_state.ecs) {
                                Err(f) => Err(f),
                                Ok(()) => Ok(crate::world::ProcessingState::PlayerTurn),
                            }
                        },
                        PlayerAction::Inventory => {
                            match show_inventory(&mut game_state.ecs, input.shift) {
                                Err(f) => Err(f),
                                Ok(()) => Ok(crate::world::ProcessingState::PlayerTurn),
                            }
                        },
                        PlayerAction::Pause => {
                            register_pause_dialog(&mut game_state.ecs);
                            Ok(crate::world::ProcessingState::PlayerTurn)
                        },
                    }
                },
            }
        },
    };
    assert(click_outcome(&old(game_state).ecs, &middle, click));
    r
}

} // verus!
