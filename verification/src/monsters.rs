//! The behaviour of the monsters: attack the player when next to it, chase
//! it along a path when it is in sight.

use vstd::prelude::*;
use crate::components::{points_contain, Entity, MeleeAttack, Position};
use crate::map::{distance_squared, spec_distance_squared, GameMap};
use crate::store::{Components, Fault, Store};
use crate::world::ProcessingState;

verus! {

/// The result of a search for a path on the map.
#[derive(Debug)]
pub struct NavigationPath {
    /// The index of the tile that the search was to reach.
    pub destination: usize,
    /// Whether the search has reached it.
    pub success: bool,
    /// The indices of the tiles of the path, the first tile included.
    pub steps: Vec<usize>,
}

/// Whether two points are less than one and a half tiles apart.
pub open spec fn in_reach(a: Position, b: Position) -> bool {
    spec_distance_squared((a.x as int, a.y as int), (b.x as int, b.y as int)) <= 2
}

/// Whether the entity in the slot `i` takes part in the monsters' turn: it
/// is a monster with a field of view and a position.
pub open spec fn hunts(store: &Store, i: int) -> bool {
    &&& store.holds(i)
    &&& store.at(i).monster
    &&& store.at(i).fov is Some
    &&& store.at(i).position is Some
}

/// Whether the monster in the slot `i` attacks the player at `target`.
pub open spec fn reaches(store: &Store, i: int, target: Position) -> bool {
    hunts(store, i) && in_reach(store.at(i).position->0, target)
}

/// Whether the monster in the slot `i` chases the player at `target`: the
/// player is out of reach, and in sight.
pub open spec fn chases(store: &Store, i: int, target: Position) -> bool {
    hunts(store, i) && !in_reach(store.at(i).position->0, target) && store.at(
        i,
    ).fov->0.content@.contains(target)
}

/// The first slot below `n` whose monster attacks the player at `target`,
/// or `n` if there is none.
pub open spec fn first_in_reach(store: &Store, n: int, target: Position) -> int
    decreases n,
{
    if n <= 0 {
        0
    } else {
        let before = first_in_reach(store, n - 1, target);
        if before < n - 1 {
            before
        } else if reaches(store, n - 1, target) {
            n - 1
        } else {
            n
        }
    }
}

/// The components of a monster after it has moved to `position`: it stands
/// there, and its field of view is stale.
pub open spec fn moved_to(before: Components, after: Components, position: Position) -> bool {
    &&& after == (Components { position: Some(position), fov: after.fov, ..before })
    &&& (after.fov is Some) == (before.fov is Some)
    &&& before.fov is Some ==> {
        &&& after.fov->0.is_dirty
        &&& after.fov->0.content == before.fov->0.content
        &&& after.fov->0.range == before.fov->0.range
    }
}

/// What stops a monster from following a path, if anything: a monster
/// without a position, a position off the map, or a path that leaves the
/// map with its second tile.
pub open spec fn follow_fault(store: &Store, map: &GameMap, monster: Entity, path: &NavigationPath) -> Option<
    Fault,
> {
    if !store.alive(monster) || store.of(monster).position is None {
        Some(Fault::MissingPosition(monster))
    } else if !map.has_tile(
        store.of(monster).position->0.x as int,
        store.of(monster).position->0.y as int,
    ) {
        Some(Fault::OffMap(monster))
    } else if path.success && path.steps@.len() > 1 && path.steps@[1] >= map.area() {
        Some(Fault::OffMap(monster))
    } else {
        None
    }
}

/// System that lets the monsters act.
pub struct MonsterAI {}

impl MonsterAI {
    /// Moves `monster` one step along `path`, if the path was found and has
    /// a second tile: the monster's old tile is no longer blocked, the
    /// monster stands on the second tile of the path, that tile is blocked,
    /// and the monster's field of view is stale. Returns whether the monster
    /// has moved.
    pub fn follow_path(store: &mut Store, map: &mut GameMap, monster: Entity, path: &NavigationPath) -> (r:
        Result<bool, Fault>)
        requires
            old(store).wf(),
            old(map).wf(),
        ensures
            final(store).doomed == old(store).doomed,
            match follow_fault(old(store), old(map), monster, path) {
                Some(f) => r == Err::<bool, Fault>(f) && final(store).slots == old(store).slots
                    && *final(map) == *old(map),
                None => if path.success && path.steps@.len() > 1 {
                    let from = old(store).of(monster).position->0;
                    let to = old(map).spec_coordinates(path.steps@[1] as int);
                    &&& r == Ok::<bool, Fault>(true)
                    &&& final(store).slots@ == old(store).slots@.update(
                        monster.id as int,
                        Some(final(store).of(monster)),
                    )
                    &&& moved_to(
                        old(store).of(monster),
                        final(store).of(monster),
                        Position { x: to.0 as i32, y: to.1 as i32 },
                    )
                    &&& *final(map) == (GameMap {
                        blocked_tiles: final(map).blocked_tiles,
                        ..*old(map)
                    })
                    &&& final(map).blocked_tiles@ == old(map).blocked_tiles@.update(
                        old(map).spec_idx(from.x as int, from.y as int),
                        false,
                    ).update(path.steps@[1] as int, true)
                } else {
                    &&& r == Ok::<bool, Fault>(false)
                    &&& final(store).slots == old(store).slots
                    &&& *final(map) == *old(map)
                },
            },
    {
        let from: Position = match store.get(monster) {
            None => {
                return Err(Fault::MissingPosition(monster));
            },
            Some(c) => match c.position {
                None => {
                    return Err(Fault::MissingPosition(monster));
                },
                Some(position) => position,
            },
        };
        if !map.check_has_tile(from.x, from.y) {
            return Err(Fault::OffMap(monster));
        }
        if !(path.success && path.steps.len() > 1) {
            return Ok(false);
        }
        let step: usize = path.steps[1];
        if step >= map.tile_count() {
            return Err(Fault::OffMap(monster));
        }
        map.set_tile_is_blocked(from.x, from.y, false);
        let to = map.idx_to_coordinates(step);
        proof {
            crate::map::lemma_coordinates_idx_inverse(*map, step as int);
        }
        if let Some(c) = &mut store.slots[monster.id as usize] {
            c.position = Some(Position { x: to.0, y: to.1 });
            if let Some(fov) = &mut c.fov {
                fov.is_dirty = true;
            }
        }
        map.set_tile_is_blocked(to.0, to.1, true);
        Ok(true)
    }
}

/// What the chase of one monster leaves behind: `path` is what the search
/// gave for the way from the monster's tile to the player's, on the map as
/// it was; where the path was found and has a second tile, the monster has
/// moved there, its old tile is not blocked any more, and its new tile is;
/// otherwise nothing has changed.
pub open spec fn chase_step<F: Fn(&GameMap, usize, usize) -> NavigationPath>(
    before: Components,
    after: Components,
    map_before: &GameMap,
    map_after: &GameMap,
    target: Position,
    path: NavigationPath,
    search: F,
) -> bool {
    let from = map_before.spec_idx(before.position->0.x as int, before.position->0.y as int);
    let to = map_before.spec_idx(target.x as int, target.y as int);
    &&& call_ensures(search, (map_before, from as usize, to as usize), path)
    &&& if path.success && path.steps@.len() > 1 {
        let place = map_before.spec_coordinates(path.steps@[1] as int);
        &&& path.steps@[1] < map_before.area()
        &&& moved_to(before, after, Position { x: place.0 as i32, y: place.1 as i32 })
        &&& *map_after == (GameMap { blocked_tiles: map_after.blocked_tiles, ..*map_before })
        &&& map_after.blocked_tiles@ == map_before.blocked_tiles@.update(from, false).update(
            path.steps@[1] as int,
            true,
        )
    } else {
        after == before && *map_after == *map_before
    }
}

/// Whether `maps` and `paths` tell how the entity in the slot `k` has acted
/// in the monsters' turn: `maps[k]` is the map before and `maps[k + 1]` the
/// map after; a monster that chases the player has followed `paths[k]`, and
/// any other entity has left the map as it was.
pub open spec fn hunt_step<F: Fn(&GameMap, usize, usize) -> NavigationPath>(
    before: &Store,
    after: &Store,
    maps: Seq<GameMap>,
    paths: Seq<NavigationPath>,
    k: int,
    target: Position,
    search: F,
) -> bool {
    if before.holds(k) && chases(before, k, target) {
        chase_step(before.at(k), after.at(k), &maps[k], &maps[k + 1], target, paths[k], search)
    } else {
        maps[k + 1] == maps[k]
    }
}

/// Whether `maps` and `paths` tell how the monsters in the slots below `n`
/// have acted, one after the other.
pub open spec fn hunt_traced<F: Fn(&GameMap, usize, usize) -> NavigationPath>(
    before: &Store,
    after: &Store,
    maps: Seq<GameMap>,
    paths: Seq<NavigationPath>,
    n: int,
    target: Position,
    search: F,
) -> bool {
    &&& maps.len() == n + 1
    &&& paths.len() == n
    &&& forall|k: int|
        0 <= k < n ==> #[trigger] hunt_step(before, after, maps, paths, k, target, search)
}

/// What holds after the monsters in the slots below `n` have acted without
/// an attack: each monster that chases the player has asked the search for
/// a path and followed it by one step, on the map as the monsters before it
/// left it; everything else in the store is unchanged, and on the map only
/// the blocked tiles have changed, and only where a monster has moved. Each
/// of these monsters stood on the map, and so does the player.
pub open spec fn hunt_done<F: Fn(&GameMap, usize, usize) -> NavigationPath>(
    before: &Store,
    map_before: &GameMap,
    after: &Store,
    map_after: &GameMap,
    n: int,
    target: Position,
    search: F,
) -> bool {
    &&& after.same_entities(before)
    &&& after.doomed == before.doomed
    &&& *map_after == (GameMap { blocked_tiles: map_after.blocked_tiles, ..*map_before })
    &&& map_after.wf()
    &&& forall|k: int|
        before.holds(k) ==> if k < n && chases(before, k, target) {
            ||| #[trigger] after.at(k) == before.at(k)
            ||| {
                &&& moved_to(before.at(k), after.at(k), after.at(k).position->0)
                &&& map_before.in_bounds(
                    after.at(k).position->0.x as int,
                    after.at(k).position->0.y as int,
                )
            }
        } else {
            #[trigger] after.at(k) == before.at(k)
        }
    &&& (forall|k: int| 0 <= k < n ==> !chases(before, k, target)) ==> *map_after == *map_before
    &&& forall|k: int|
        0 <= k < n && #[trigger] chases(before, k, target) ==> {
            &&& map_before.has_tile(
                before.at(k).position->0.x as int,
                before.at(k).position->0.y as int,
            )
            &&& map_before.has_tile(target.x as int, target.y as int)
        }
    &&& exists|maps: Seq<GameMap>, paths: Seq<NavigationPath>|
        {
            &&& #[trigger] hunt_traced(before, after, maps, paths, n, target, search)
            &&& maps[0] == *map_before
            &&& maps[n] == *map_after
        }
}

/// The components of a monster after it has turned on `player`.
pub open spec fn turned_on(before: Components, player: Entity) -> Components {
    Components { melee_attack: Some(MeleeAttack { target: player }), ..before }
}

/// What holds after the monsters' turn, whatever paths were found: the
/// first monster within reach of the player has the intent to attack it,
/// and no monster after it has acted; the monsters before it have chased
/// the player where it was in sight.
pub open spec fn hunt_ended<F: Fn(&GameMap, usize, usize) -> NavigationPath>(
    before: &Store,
    map_before: &GameMap,
    after: &Store,
    map_after: &GameMap,
    target: Position,
    player: Entity,
    search: F,
) -> bool {
    let attacker = first_in_reach(before, before.len(), target);
    exists|moved: Store|
        {
            &&& #[trigger] hunt_done(
                before,
                map_before,
                &moved,
                map_after,
                attacker,
                target,
                search,
            )
            &&& after.doomed == moved.doomed
            &&& after.slots@ == if attacker < before.len() {
                moved.slots@.update(attacker, Some(turned_on(moved.at(attacker), player)))
            } else {
                moved.slots@
            }
        }
}

/// Whether the chase of the monster in the slot `k` has ended the
/// monsters' turn with the fault `f`. The monsters before it have acted and
/// left `moved` and `map_moved`; the monster chases the player and comes
/// before the first monster within reach. Then one of three things holds:
/// the monster stands off the map, and the fault names it; or the player
/// stands off the map, and the fault names the player; or `path` is what the
/// search gave for the way from the monster's tile to the player's, it was
/// found, and its second tile is no tile of the map, and the fault names
/// the monster.
pub open spec fn chase_failed<F: Fn(&GameMap, usize, usize) -> NavigationPath>(
    before: &Store,
    map_before: &GameMap,
    moved: &Store,
    map_moved: &GameMap,
    k: int,
    target: Position,
    player: Entity,
    f: Fault,
    path: NavigationPath,
    search: F,
) -> bool {
    let position = before.at(k).position->0;
    let from = map_before.spec_idx(position.x as int, position.y as int);
    let to = map_before.spec_idx(target.x as int, target.y as int);
    &&& 0 <= k < first_in_reach(before, before.len(), target)
    &&& chases(before, k, target)
    &&& hunt_done(before, map_before, moved, map_moved, k, target, search)
    &&& if !map_before.has_tile(position.x as int, position.y as int) {
        f == Fault::OffMap(Entity { id: k as u32 })
    } else if !map_before.has_tile(target.x as int, target.y as int) {
        f == Fault::OffMap(player)
    } else {
        &&& f == Fault::OffMap(Entity { id: k as u32 })
        &&& call_ensures(search, (map_moved, from as usize, to as usize), path)
        &&& path.success
        &&& path.steps@.len() > 1
        &&& path.steps@[1] >= map_before.area()
    }
}

/// Whether the monsters' turn has failed with the fault `f`: the chase of
/// one of the monsters has ended it.
pub open spec fn hunt_failed<F: Fn(&GameMap, usize, usize) -> NavigationPath>(
    before: &Store,
    map_before: &GameMap,
    target: Position,
    player: Entity,
    f: Fault,
    search: F,
) -> bool {
    exists|k: int, moved: Store, map_moved: GameMap, path: NavigationPath|
        #[trigger] chase_failed(
            before,
            map_before,
            &moved,
            &map_moved,
            k,
            target,
            player,
            f,
            path,
            search,
        )
}

/// How the monsters' turn ends, whatever paths were found. Outside of their
/// turn nothing happens. In their turn, it ends well where no monster
/// chases the player before the first monster within reach, and it fails
/// where such a monster stands off the map, or the player does while there
/// is such a monster; where it ends well, the monsters have acted; where it
/// fails, a chasing monster or the player is off the map, or the path that
/// the search gave a chasing monster leaves the map with its second tile.
pub open spec fn hunt_outcome<F: Fn(&GameMap, usize, usize) -> NavigationPath>(
    before: &Store,
    map_before: &GameMap,
    after: &Store,
    map_after: &GameMap,
    target: Position,
    player: Entity,
    state: ProcessingState,
    r: Result<(), Fault>,
    search: F,
) -> bool {
    if state != ProcessingState::MonsterTurn {
        r is Ok && *after == *before && *map_after == *map_before
    } else {
        &&& r is Ok ==> hunt_ended(before, map_before, after, map_after, target, player, search)
        &&& r is Err ==> hunt_failed(before, map_before, target, player, r->Err_0, search)
        &&& (forall|k: int|
            0 <= k < first_in_reach(before, before.len(), target) ==> !chases(before, k, target))
            ==> r is Ok
        &&& (exists|k: int|
            0 <= k < first_in_reach(before, before.len(), target) && #[trigger] chases(
                before,
                k,
                target,
            ) && !(map_before.has_tile(
                before.at(k).position->0.x as int,
                before.at(k).position->0.y as int,
            ) && map_before.has_tile(target.x as int, target.y as int))) ==> r is Err
    }
}

impl MonsterAI {
    /// Lets the monsters act, in the order of their slots, if it is their
    /// turn. A monster less than one and a half tiles from the player turns
    /// on it, and ends the turn of all monsters. Any other monster that has
    /// the player in its field of view asks `search` for a path from its
    /// tile to the player's and follows it by one step.
    pub fn run<F>(
        store: &mut Store,
        map: &mut GameMap,
        player_position: &Position,
        player: &Entity,
        state: &ProcessingState,
        search: F,
    ) -> (r: Result<(), Fault>) where F: Fn(&GameMap, usize, usize) -> NavigationPath
        requires
            old(store).wf(),
            old(map).wf(),
            forall|m: &GameMap, from: usize, to: usize|
                m.wf() && from < m.area() && to < m.area() ==> call_requires(
                    search,
                    (m, from, to),
                ),
        ensures
            r is Ok ==> final(store).slots@.len() == old(store).slots@.len() && final(map).wf(),
            hunt_outcome(
                old(store),
                old(map),
                final(store),
                final(map),
                *player_position,
                *player,
                *state,
                r,
                search,
            ),
    {
        match *state {
            ProcessingState::MonsterTurn => {},
            _ => {
                return Ok(());
            },
        }
        let ghost mut maps: Seq<GameMap> = seq![*map];
        let ghost mut paths: Seq<NavigationPath> = Seq::empty();
        let mut i: usize = 0;
        while i < store.slots.len()
            invariant
                store.wf(),
                old(map).wf(),
                i <= store.slots@.len(),
                hunt_traced(old(store), store, maps, paths, i as int, *player_position, search),
                maps[0] == *old(map),
                maps[i as int] == *map,
                *state == ProcessingState::MonsterTurn,
                forall|m: &GameMap, from: usize, to: usize|
                    m.wf() && from < m.area() && to < m.area() ==> call_requires(
                        search,
                        (m, from, to),
                    ),
                hunt_done(old(store), old(map), store, map, i as int, *player_position, search),
                first_in_reach(old(store), i as int, *player_position) == i,
            decreases store.slots@.len() - i,
        {
            let ghost before = *store;
            let ghost map_before = *map;
            let ghost mut path_taken: NavigationPath = arbitrary();
            assert(old(store).holds(i as int) ==> store.at(i as int) == old(store).at(i as int));
            let mut plan: Option<(Position, bool)> = None;
            if let Some(c) = &store.slots[i] {
                if c.monster {
                    if let Some(position) = c.position {
                        if let Some(fov) = &c.fov {
                            plan = Some((position, points_contain(&fov.content, player_position)));
                        }
                    }
                }
            }
            assert(plan is Some == hunts(old(store), i as int));
            if let Some((position, sees)) = plan {
                if distance_squared(&position, player_position) <= 2 {
                    if let Some(c) = &mut store.slots[i] {
                        c.melee_attack = Some(MeleeAttack { target: *player });
                    }
                    proof {
                        assert(reaches(old(store), i as int, *player_position));
                        lemma_first_in_reach_stays(
                            old(store),
                            i as int + 1,
                            old(store).len(),
                            *player_position,
                        );
                        assert(store.slots@ =~= before.slots@.update(
                            i as int,
                            Some(turned_on(before.at(i as int), *player)),
                        ));
                        assert(hunt_done(
                            old(store),
                            old(map),
                            &before,
                            map,
                            i as int,
                            *player_position,
                            search,
                        ));
                    }
                    return Ok(());
                }
                if sees {
                    assert(chases(old(store), i as int, *player_position));
                    proof {
                        assert(first_in_reach(old(store), i as int + 1, *player_position) == i + 1);
                        lemma_first_in_reach_grows(
                            old(store),
                            i as int + 1,
                            old(store).len(),
                            *player_position,
                        );
                    }
                    if !map.check_has_tile(position.x, position.y) {
                        proof {
                            assert(chase_failed(
                                old(store),
                                old(map),
                                &before,
                                &map_before,
                                i as int,
                                *player_position,
                                *player,
                                Fault::OffMap(Entity { id: i as u32 }),
                                path_taken,
                                search,
                            ));
                        }
                        return Err(Fault::OffMap(Entity { id: i as u32 }));
                    }
                    if !map.check_has_tile(player_position.x, player_position.y) {
                        proof {
                            assert(chase_failed(
                                old(store),
                                old(map),
                                &before,
                                &map_before,
                                i as int,
                                *player_position,
                                *player,
                                Fault::OffMap(*player),
                                path_taken,
                                search,
                            ));
                        }
                        return Err(Fault::OffMap(*player));
                    }
                    assert(store.of(Entity { id: i as u32 }) == store.at(i as int));
                    let from: usize = map.coordinates_to_idx(position.x, position.y);
                    let to: usize = map.coordinates_to_idx(player_position.x, player_position.y);
                    let path = search(map, from, to);
                    let moved = Self::follow_path(store, map, Entity { id: i as u32 }, &path);
                    match moved {
                        Err(f) => {
                            proof {
                                assert(chase_failed(
                                    old(store),
                                    old(map),
                                    &before,
                                    &map_before,
                                    i as int,
                                    *player_position,
                                    *player,
                                    f,
                                    path,
                                    search,
                                ));
                            }
                            return Err(f);
                        },
                        Ok(_) => {},
                    }
                    proof {
                        path_taken = path;
                        if moved->Ok_0 {
                            crate::map::lemma_coordinates_idx_inverse(
                                map_before,
                                path.steps@[1] as int,
                            );
                        }
                        assert(chase_step(
                            before.at(i as int),
                            store.at(i as int),
                            &map_before,
                            map,
                            *player_position,
                            path,
                            search,
                        ));
                    }
                }
            }
            proof {
                lemma_trace_push(
                    old(store),
                    &before,
                    store,
                    maps,
                    paths,
                    i as int,
                    *player_position,
                    search,
                    *map,
                    path_taken,
                );
                maps = maps.push(*map);
                paths = paths.push(path_taken);
                assert forall|k: int| old(store).holds(k) implies if k < i + 1 && chases(
                    old(store),
                    k,
                    *player_position,
                ) {
                    ||| #[trigger] store.at(k) == old(store).at(k)
                    ||| {
                        &&& moved_to(old(store).at(k), store.at(k), store.at(k).position->0)
                        &&& old(map).in_bounds(
                            store.at(k).position->0.x as int,
                            store.at(k).position->0.y as int,
                        )
                    }
                } else {
                    #[trigger] store.at(k) == old(store).at(k)
                } by {
                    assert(before.holds(k));
                    assert(before.at(k) == before.at(k));
                    if k != i {
                        assert(store.at(k) == before.at(k));
                    }
                }
            }
            i += 1;
        }
        proof {
            assert(hunt_done(
                old(store),
                old(map),
                store,
                map,
                old(store).len(),
                *player_position,
                search,
            ));
        }
        Ok(())
    }
}

/// One more act keeps the tale of the monsters' acts in order.
proof fn lemma_trace_push<F: Fn(&GameMap, usize, usize) -> NavigationPath>(
    start: &Store,
    before: &Store,
    after: &Store,
    maps: Seq<GameMap>,
    paths: Seq<NavigationPath>,
    n: int,
    target: Position,
    search: F,
    map_after: GameMap,
    path: NavigationPath,
)
    requires
        0 <= n < start.len(),
        hunt_traced(start, before, maps, paths, n, target, search),
        after.same_entities(before),
        before.same_entities(start),
        forall|k: int| before.holds(k) && k != n ==> #[trigger] after.at(k) == before.at(k),
        start.holds(n) ==> before.at(n) == start.at(n),
        if start.holds(n) && chases(start, n, target) {
            chase_step(before.at(n), after.at(n), &maps[n], &map_after, target, path, search)
        } else {
            map_after == maps[n]
        },
    ensures
        hunt_traced(start, after, maps.push(map_after), paths.push(path), n + 1, target, search),
{
    let more_maps = maps.push(map_after);
    let more_paths = paths.push(path);
    assert forall|k: int| 0 <= k < n + 1 implies #[trigger] hunt_step(
        start,
        after,
        more_maps,
        more_paths,
        k,
        target,
        search,
    ) by {
        if k < n {
            assert(hunt_step(start, before, maps, paths, k, target, search));
            assert(more_maps[k] == maps[k]);
            assert(more_maps[k + 1] == maps[k + 1]);
            assert(more_paths[k] == paths[k]);
            if start.holds(k) {
                assert(before.holds(k));
                assert(after.at(k) == before.at(k));
            }
        } else {
            assert(more_maps[k] == maps[n]);
            assert(more_maps[k + 1] == map_after);
            assert(more_paths[k] == path);
        }
    }
}

/// The first monster within reach among the first slots is one of them, or
/// there is none.
pub proof fn lemma_first_in_reach_bound(store: &Store, n: int, target: Position)
    requires
        0 <= n,
    ensures
        0 <= first_in_reach(store, n, target) <= n,
    decreases n,
{
    if n > 0 {
        lemma_first_in_reach_bound(store, n - 1, target);
    }
}

/// Where no monster within reach is found among the first slots, the first
/// one is not among them.
proof fn lemma_first_in_reach_grows(store: &Store, m: int, n: int, target: Position)
    requires
        0 <= m <= n,
        first_in_reach(store, m, target) == m,
    ensures
        first_in_reach(store, n, target) >= m,
    decreases n - m,
{
    if m < n {
        lemma_first_in_reach_grows(store, m, n - 1, target);
    }
}

/// Once a monster within reach is found, looking further does not change
/// the answer.
proof fn lemma_first_in_reach_stays(store: &Store, found: int, n: int, target: Position)
    requires
        0 < found <= n,
        first_in_reach(store, found, target) == found - 1,
    ensures
        first_in_reach(store, n, target) == found - 1,
    decreases n - found,
{
    if found < n {
        lemma_first_in_reach_stays(store, found, n - 1, target);
    }
}

} // verus!
