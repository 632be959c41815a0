//! Spawning of monsters and items in the rooms of the map.

use vstd::prelude::*;
use crate::components::{points_contain, Entity, Position};
use crate::config;
use crate::entity_factory::{
    is_goblin_kit, is_gremlin_kit, is_potion_kit, is_scroll_kit, one_more, random_item,
    random_monster,
};
use crate::rectangle::Rectangle;
use crate::rng;
use crate::store::{Components, Store};
use crate::world::World;

verus! {

/// How often a free place for an entity is looked for before the entity is
/// given up.
pub const PLACEMENT_TRIES: u32 = 1000;

/// Whether all points of a list differ from each other.
pub open spec fn all_distinct(points: Seq<Position>) -> bool {
    forall|i: int, j: int| 0 <= i < j < points.len() ==> points[i] != points[j]
}

/// Whether `position` lies in `room`, off its left and its top edge.
pub open spec fn placed_in(room: Rectangle, position: Position) -> bool {
    room.left < position.x <= room.right && room.top < position.y <= room.bottom
}

/// Whether `room` has room for entities: it is at least one tile wide and
/// high, and its corners are not at the far ends of the numbers.
pub open spec fn can_hold(room: Rectangle) -> bool {
    &&& room.left < room.right
    &&& room.top < room.bottom
    &&& room.right - room.left < i32::MAX
    &&& room.bottom - room.top < i32::MAX
}

/// Whether none of `points` lies in `room`.
pub open spec fn is_free_of(room: Rectangle, points: Seq<Position>) -> bool {
    forall|k: int| 0 <= k < points.len() ==> !placed_in(room, #[trigger] points[k])
}

/// Adds the place that lies `dx` to the right of and `dy` below the upper
/// left corner of `room` to `container`, unless the place is in it already.
/// Returns whether the place was added.
pub fn place_entity(room: &Rectangle, dx: i32, dy: i32, container: &mut Vec<Position>) -> (placed:
    bool)
    requires
        i32::MIN <= room.left + dx <= i32::MAX,
        i32::MIN <= room.top + dy <= i32::MAX,
    ensures
        placed == !old(container)@.contains(
            Position { x: (room.left + dx) as i32, y: (room.top + dy) as i32 },
        ),
        final(container)@ == if placed {
            old(container)@.push(Position { x: (room.left + dx) as i32, y: (room.top + dy) as i32 })
        } else {
            old(container)@
        },
{
    let position = Position { x: room.left + dx, y: room.top + dy };
    if points_contain(container, &position) {
        false
    } else {
        container.push(position);
        true
    }
}

/// Adding a point that is not among the points of a list keeps the points
/// of the list distinct.
proof fn lemma_distinct_push(points: Seq<Position>, point: Position)
    requires
        all_distinct(points),
        !points.contains(point),
    ensures
        all_distinct(points.push(point)),
{
    let more = points.push(point);
    assert forall|i: int, j: int| 0 <= i < j < more.len() implies more[i] != more[j] by {
        if j == points.len() {
            assert(points[i] == more[i]);
            assert(points.contains(points[i]));
        } else {
            assert(points[i] != points[j]);
        }
    }
}

/// Looks for up to `max_placements` places in `room` that are not yet in
/// `container`, each at random, and adds them to it. A place that is taken
/// is tried again, a fixed number of times at most. The first place is
/// found at the first try where no point of the container lies in the room.
pub fn place_entities_in_room(
    ecs: &mut World,
    max_placements: i32,
    room: &Rectangle,
    container: &mut Vec<Position>,
)
    requires
        old(ecs).rng is Some,
        can_hold(*room),
        all_distinct(old(container)@),
    ensures
        *final(ecs) == (World { rng: final(ecs).rng, ..*old(ecs) }),
        final(ecs).rng is Some,
        all_distinct(final(container)@),
        old(container)@.len() <= final(container)@.len() <= old(container)@.len() + if max_placements
            > 0 {
            max_placements as int
        } else {
            0
        },
        max_placements >= 1 && is_free_of(*room, old(container)@) ==> final(container)@.len()
            > old(container)@.len(),
        final(container)@.take(old(container)@.len() as int) == old(container)@,
        forall|k: int|
            old(container)@.len() <= k < final(container)@.len() ==> placed_in(
                *room,
                #[trigger] final(container)@[k],
            ),
{
    let mut placed: i32 = 0;
    assert(container@.take(old(container)@.len() as int) =~= old(container)@);
    while placed < max_placements
        invariant
            0 <= placed,
            placed <= max_placements || placed == 0,
            *ecs == (World { rng: ecs.rng, ..*old(ecs) }),
            ecs.rng is Some,
            can_hold(*room),
            all_distinct(container@),
            old(container)@.len() <= container@.len() <= old(container)@.len() + placed,
            placed >= 1 && is_free_of(*room, old(container)@) ==> container@.len() > old(
                container,
            )@.len(),
            container@.take(old(container)@.len() as int) == old(container)@,
            forall|k: int|
                old(container)@.len() <= k < container@.len() ==> placed_in(
                    *room,
                    #[trigger] container@[k],
                ),
        decreases max_placements - placed,
    {
        let mut tries: u32 = 0;
        let mut is_placed = false;
        while !is_placed && tries < PLACEMENT_TRIES
            invariant
                *ecs == (World { rng: ecs.rng, ..*old(ecs) }),
                ecs.rng is Some,
                can_hold(*room),
                all_distinct(container@),
                tries <= PLACEMENT_TRIES,
                old(container)@.len() <= container@.len() <= old(container)@.len() + placed + if is_placed {
                    1int
                } else {
                    0int
                },
                is_placed ==> container@.len() > old(container)@.len(),
                placed >= 1 && is_free_of(*room, old(container)@) ==> container@.len() > old(
                    container,
                )@.len(),
                tries >= 1 && placed == 0 && is_free_of(*room, old(container)@) ==> is_placed,
                container@.take(old(container)@.len() as int) == old(container)@,
                forall|k: int|
                    old(container)@.len() <= k < container@.len() ==> placed_in(
                        *room,
                        #[trigger] container@[k],
                    ),
            decreases PLACEMENT_TRIES - tries + if is_placed { 0int } else { 1int },
        {
            let dx: i32 = rng::roll_dice(ecs, 1, room.right - room.left);
            let dy: i32 = rng::roll_dice(ecs, 1, room.bottom - room.top);
            let ghost before = container@;
            let ghost position = Position { x: (room.left + dx) as i32, y: (room.top + dy) as i32 };
            proof {
                assert(placed_in(*room, position));
                if placed == 0 && tries == 0 && is_free_of(*room, old(container)@) {
                    assert(before.len() == old(container)@.len());
                    assert(before =~= before.take(old(container)@.len() as int));
                    if before.contains(position) {
                        let k = choose|k: int| 0 <= k < before.len() && before[k] == position;
                        assert(!placed_in(*room, old(container)@[k]));
                    }
                }
            }
            is_placed = place_entity(room, dx, dy, container);
            proof {
                if is_placed {
                    lemma_distinct_push(before, position);
                    assert(container@.take(old(container)@.len() as int) =~= before.take(
                        old(container)@.len() as int,
                    ));
                }
            }
            tries += 1;
        }
        placed += 1;
    }
}

/// Whether `c` are the components of a new monster at `position`.
pub open spec fn is_monster_at(c: Components, position: Position) -> bool {
    is_goblin_kit(c, position, Seq::empty()) || is_gremlin_kit(c, position, Seq::empty())
}

/// Whether `c` are the components of a new item at `position`.
pub open spec fn is_item_at(c: Components, position: Position) -> bool {
    is_potion_kit(c, position) || is_scroll_kit(c, position)
}

/// Whether the slots `from` up to `to` of a store hold entities that stand
/// at places in `room`, no two of them at the same place.
pub open spec fn stand_apart_in(store: &Store, from: int, to: int, room: Rectangle) -> bool {
    &&& forall|k: int|
        from <= k < to ==> store.holds(k) && (#[trigger] store.at(k)).position is Some
            && placed_in(room, store.at(k).position->0)
    &&& forall|j: int, k: int|
        from <= j < k < to ==> (#[trigger] store.at(j)).position != (#[trigger] store.at(
            k,
        )).position
}

/// What spawning leaves behind: the world has gained `monsters` new
/// monsters, in the slots that follow the old ones, and `items` new items
/// in the slots behind them; they stand in `room`, no two monsters at the
/// same place, and no two items; nothing else has changed but the random
/// number generator.
pub open spec fn spawned(
    before: &World,
    after: &World,
    room: Rectangle,
    monsters: int,
    items: int,
) -> bool {
    let from = before.store.slots@.len() as int;
    &&& 0 <= monsters
    &&& 0 <= items
    &&& *after == (World { store: after.store, rng: after.rng, ..*before })
    &&& after.rng is Some
    &&& after.store.doomed == before.store.doomed
    &&& after.store.slots@.len() == from + monsters + items
    &&& after.store.slots@.take(from) == before.store.slots@
    &&& stand_apart_in(&after.store, from, from + monsters, room)
    &&& stand_apart_in(&after.store, from + monsters, from + monsters + items, room)
    &&& forall|k: int|
        from <= k < from + monsters ==> is_monster_at(
            #[trigger] after.store.at(k),
            after.store.at(k).position->0,
        )
    &&& forall|k: int|
        from + monsters <= k < from + monsters + items ==> is_item_at(
            #[trigger] after.store.at(k),
            after.store.at(k).position->0,
        )
}

/// The number of entities that are asked for: none for an amount below 1.
pub open spec fn asked_for(amount: int) -> int {
    if amount > 0 {
        amount
    } else {
        0
    }
}

/// Whether `found` entities can come of an amount that was asked for: not
/// more than were asked for, and at least one where one was asked for.
pub open spec fn comes_of(found: int, amount: int) -> bool {
    0 <= found <= asked_for(amount) && (amount >= 1 ==> found >= 1)
}

/// A new entity leaves the entities before it as they are.
proof fn lemma_one_more_keeps(before: &World, after: &World, entity: Entity)
    requires
        one_more(before, after, entity),
    ensures
        after.store.holds(before.store.len()),
        forall|k: int|
            0 <= k < before.store.len() ==> after.store.slots@[k] == before.store.slots@[k]
                && #[trigger] after.store.at(k) == before.store.at(k) && after.store.holds(k)
                == before.store.holds(k),
        forall|from: int|
            0 <= from <= before.store.len() ==> #[trigger] after.store.slots@.take(from)
                == before.store.slots@.take(from),
{
    let n = before.store.len();
    assert forall|k: int| 0 <= k < n implies after.store.slots@[k] == before.store.slots@[k] by {
        assert(after.store.slots@.take(n)[k] == before.store.slots@[k]);
    }
    assert forall|from: int| 0 <= from <= n implies #[trigger] after.store.slots@.take(from)
        == before.store.slots@.take(from) by {
        assert(after.store.slots@.take(from) =~= before.store.slots@.take(from));
    }
    assert(after.store.slots@[n] == after.store.slots@.last());
}

/// Spawns monsters and items in `room`, as many as are asked for at most:
/// each at a random place in the room that no monster, or no item, has
/// taken before it, and of a random kind. At least one monster is spawned
/// where one is asked for, and at least one item.
pub fn spawn_amounts(ecs: &mut World, room: &Rectangle, monster_amount: i32, item_amount: i32)
    requires
        old(ecs).rng is Some,
        can_hold(*room),
        old(ecs).store.slots@.len() + asked_for(monster_amount as int) + asked_for(
            item_amount as int,
        ) < u32::MAX,
    ensures
        exists|monsters: int, items: int|
            {
                &&& #[trigger] spawned(old(ecs), final(ecs), *room, monsters, items)
                &&& comes_of(monsters, monster_amount as int)
                &&& comes_of(items, item_amount as int)
            },
{
    let mut monster_spawn_positions: Vec<Position> = Vec::new();
    let mut item_spawn_positions: Vec<Position> = Vec::new();
    place_entities_in_room(ecs, monster_amount, room, &mut monster_spawn_positions);
    place_entities_in_room(ecs, item_amount, room, &mut item_spawn_positions);
    let ghost start = old(ecs).store.slots@.len() as int;
    let ghost monsters = monster_spawn_positions@.len() as int;
    let ghost items = item_spawn_positions@.len() as int;
    assert(ecs.store.slots@.take(start) =~= old(ecs).store.slots@);
    let mut i: usize = 0;
    while i < monster_spawn_positions.len()
        invariant
            i <= monster_spawn_positions@.len(),
            monsters == monster_spawn_positions@.len(),
            0 <= items,
            start == old(ecs).store.slots@.len(),
            start + monsters + items < u32::MAX,
            *ecs == (World { store: ecs.store, rng: ecs.rng, ..*old(ecs) }),
            ecs.rng is Some,
            ecs.store.doomed == old(ecs).store.doomed,
            ecs.store.slots@.len() == start + i,
            ecs.store.slots@.take(start) == old(ecs).store.slots@,
            forall|k: int|
                start <= k < start + i ==> ecs.store.holds(k) && (#[trigger] ecs.store.at(
                    k,
                )).position == Some(monster_spawn_positions@[k - start]) && is_monster_at(
                    ecs.store.at(k),
                    monster_spawn_positions@[k - start],
                ),
        decreases monster_spawn_positions@.len() - i,
    {
        let ghost before = *ecs;
        let entity = random_monster(ecs, monster_spawn_positions[i]);
        proof {
            lemma_one_more_keeps(&before, ecs, entity);
            assert(ecs.store.slots@.take(start) == before.store.slots@.take(start));
        }
        i += 1;
    }
    let ghost middle = *ecs;
    let mut j: usize = 0;
    while j < item_spawn_positions.len()
        invariant
            j <= item_spawn_positions@.len(),
            monsters == monster_spawn_positions@.len(),
            items == item_spawn_positions@.len(),
            start == old(ecs).store.slots@.len(),
            start + monsters + items < u32::MAX,
            *ecs == (World { store: ecs.store, rng: ecs.rng, ..*old(ecs) }),
            ecs.rng is Some,
            ecs.store.doomed == old(ecs).store.doomed,
            ecs.store.slots@.len() == start + monsters + j,
            ecs.store.slots@.take(start) == old(ecs).store.slots@,
            forall|k: int|
                start <= k < start + monsters ==> ecs.store.holds(k) && (#[trigger] ecs.store.at(
                    k,
                )).position == Some(monster_spawn_positions@[k - start]) && is_monster_at(
                    ecs.store.at(k),
                    monster_spawn_positions@[k - start],
                ),
            forall|k: int|
                start + monsters <= k < start + monsters + j ==> ecs.store.holds(k) && (
                #[trigger] ecs.store.at(k)).position == Some(
                    item_spawn_positions@[k - start - monsters],
                ) && is_item_at(ecs.store.at(k), item_spawn_positions@[k - start - monsters]),
        decreases item_spawn_positions@.len() - j,
    {
        let ghost before = *ecs;
        let entity = random_item(ecs, item_spawn_positions[j]);
        proof {
            lemma_one_more_keeps(&before, ecs, entity);
            assert(ecs.store.slots@.take(start) == before.store.slots@.take(start));
        }
        j += 1;
    }
    proof {
        assert(stand_apart_in(&ecs.store, start, start + monsters, *room)) by {
            assert forall|a: int, b: int| start <= a < b < start + monsters implies (
            #[trigger] ecs.store.at(a)).position != (#[trigger] ecs.store.at(b)).position by {
                assert(monster_spawn_positions@[a - start] != monster_spawn_positions@[b - start]);
            }
            assert forall|k: int| start <= k < start + monsters implies ecs.store.holds(k) && (
            #[trigger] ecs.store.at(k)).position is Some && placed_in(
                *room,
                ecs.store.at(k).position->0,
            ) by {
                assert(placed_in(*room, monster_spawn_positions@[k - start]));
            }
        }
        assert(stand_apart_in(&ecs.store, start + monsters, start + monsters + items, *room)) by {
            assert forall|a: int, b: int|
                start + monsters <= a < b < start + monsters + items implies (
            #[trigger] ecs.store.at(a)).position != (#[trigger] ecs.store.at(b)).position by {
                assert(item_spawn_positions@[a - start - monsters] != item_spawn_positions@[b
                    - start - monsters]);
            }
            assert forall|k: int|
                start + monsters <= k < start + monsters + items implies ecs.store.holds(k) && (
            #[trigger] ecs.store.at(k)).position is Some && placed_in(
                *room,
                ecs.store.at(k).position->0,
            ) by {
                assert(placed_in(*room, item_spawn_positions@[k - start - monsters]));
            }
        }
        assert(spawned(old(ecs), ecs, *room, monsters, items));
        assert(is_free_of(*room, Seq::<Position>::empty()));
    }
}

/// Spawns monsters and items in `room`: a random number of each, below the
/// limits of the configuration, each at a random place in the room; no two
/// monsters share a place, and no two items.
pub fn spawn_in_room(ecs: &mut World, room: &Rectangle)
    requires
        old(ecs).rng is Some,
        can_hold(*room),
        old(ecs).store.slots@.len() + config::MAX_MONSTERS_PER_ROOM + config::MAX_ITEMS_PER_ROOM
            < u32::MAX,
    ensures
        exists|monsters: int, items: int|
            {
                &&& #[trigger] spawned(old(ecs), final(ecs), *room, monsters, items)
                &&& monsters < config::MAX_MONSTERS_PER_ROOM
                &&& items < config::MAX_ITEMS_PER_ROOM
            },
{
    let monster_amount: i32 = rng::roll_dice(ecs, 1, config::MAX_MONSTERS_PER_ROOM + 2) - 3;
    let item_amount: i32 = rng::roll_dice(ecs, 1, config::MAX_ITEMS_PER_ROOM + 2) - 3;
    let ghost rolled = *ecs;
    spawn_amounts(ecs, room, monster_amount, item_amount);
    proof {
        let (monsters, items) = choose|monsters: int, items: int|
            {
                &&& #[trigger] spawned(&rolled, ecs, *room, monsters, items)
                &&& comes_of(monsters, monster_amount as int)
                &&& comes_of(items, item_amount as int)
            };
        assert(spawned(old(ecs), ecs, *room, monsters, items));
    }
}

} // verus!
