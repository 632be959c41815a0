//! Field of view: what an entity sees from where it stands, and what the
//! player's sight reveals of the map.

use vstd::prelude::*;
use crate::components::{Entity, Position, FOV};
use crate::map::{tile_index, GameMap, TileType};
use crate::store::{
    first_fault, lemma_first_fault_found, lemma_first_fault_none, Components, Fault, Store,
};

verus! {

/// The largest range of sight for which a field of view is computed: with
/// a larger one, the square of twice the range does not fit in 32 bits.
pub const MAX_SIGHT: i32 = 23170;

/// The set of points that `rltk::field_of_view` returns for an observer at
/// `(x, y)` with the given range of sight, on a map of the given size whose
/// tiles are opaque as `opaque` tells.
pub uninterp spec fn shadow_set(
    opaque: Seq<bool>,
    width: int,
    height: int,
    x: int,
    y: int,
    range: int,
) -> Set<(int, int)>;

/// For each tile of a map, whether sight ends at it: whether it is a wall.
pub open spec fn opaque_tiles(tiles: Seq<TileType>) -> Seq<bool> {
    Seq::new(tiles.len(), |i: int| tiles[i] == TileType::WALL)
}

/// The points that are seen from `position` within `range` on a map.
pub open spec fn visible_from(map: &GameMap, position: Position, range: int) -> Set<(int, int)> {
    shadow_set(
        opaque_tiles(map.tiles@),
        map.width as int,
        map.height as int,
        position.x as int,
        position.y as int,
        range,
    )
}

/// Whether `content` is what is seen from `position` within `range` on a
/// map: it holds each visible point once, and no other point; all of its
/// points lie on the map; and the observer's own place is among them, if it
/// lies on the map.
pub open spec fn is_sight(
    content: Seq<Position>,
    map: &GameMap,
    position: Position,
    range: int,
) -> bool {
    &&& content.no_duplicates()
    &&& forall|p: Position|
        #[trigger] content.contains(p) <==> visible_from(map, position, range).contains(
            (p.x as int, p.y as int),
        )
    &&& map.in_bounds(position.x as int, position.y as int) ==> content.contains(position)
    &&& forall|j: int|
        0 <= j < content.len() ==> map.in_bounds(
            (#[trigger] content[j]).x as int,
            content[j].y as int,
        )
}

/// Calls `rltk::field_of_view`, which casts shadows from `(x, y)` over the
/// map, and hands out the points it returns. Trusted: the call collects the
/// points in a set, starting with the observer's own place, and keeps those
/// on the map; so no point comes twice, all lie on the map, and the
/// observer's place is among them if it lies on the map. Which points they
/// are depends on the opaque tiles, the size of the map, the place and the
/// range alone, and is given a name; their order depends on the walk of a
/// hash set, and is left open. `requires` keeps the place off the ends of
/// the 32 bit range, where the step to a neighbour overflows, and the range
/// small enough for the square of twice the range to fit in 32 bits.
#[verifier::external_body]
fn shadowcast(map: &GameMap, x: i32, y: i32, range: i32) -> (seen: Vec<Position>)
    requires
        map.wf(),
        i32::MIN < x < i32::MAX,
        i32::MIN < y < i32::MAX,
        -MAX_SIGHT <= range <= MAX_SIGHT,
    ensures
        seen@.no_duplicates(),
        forall|p: Position|
            #[trigger] seen@.contains(p) <==> shadow_set(
                opaque_tiles(map.tiles@),
                map.width as int,
                map.height as int,
                x as int,
                y as int,
                range as int,
            ).contains((p.x as int, p.y as int)),
        map.in_bounds(x as int, y as int) ==> seen@.contains(Position { x, y }),
        forall|j: int|
            0 <= j < seen@.len() ==> map.in_bounds(
                (#[trigger] seen@[j]).x as int,
                seen@[j].y as int,
            ),
{
    rltk::field_of_view(rltk::Point::new(x, y), range, map).iter().map(
        |p| Position { x: p.x, y: p.y },
    ).collect()
}

/// The points of a list that all lie on the map are kept as they are.
pub proof fn lemma_points_all_on_map(points: Seq<Position>, width: int, height: int)
    requires
        forall|j: int|
            0 <= j < points.len() ==> 0 <= (#[trigger] points[j]).x < width && 0 <= points[j].y
                < height,
    ensures
        points_on_map(points, width, height) == points,
    decreases points.len(),
{
    if points.len() > 0 {
        let rest = points.drop_last();
        assert forall|j: int| 0 <= j < rest.len() implies 0 <= (#[trigger] rest[j]).x < width && 0
            <= rest[j].y < height by {
            assert(rest[j] == points[j]);
        }
        lemma_points_all_on_map(rest, width, height);
        assert(rest.push(points.last()) =~= points);
    }
}

/// The points of `points` that lie on a map of the given size, in their
/// order.
pub open spec fn points_on_map(points: Seq<Position>, width: int, height: int) -> Seq<Position>
    decreases points.len(),
{
    if points.len() == 0 {
        points
    } else {
        let p = points.last();
        if 0 <= p.x < width && 0 <= p.y < height {
            points_on_map(points.drop_last(), width, height).push(p)
        } else {
            points_on_map(points.drop_last(), width, height)
        }
    }
}

/// Every point that is kept lies on the map, and is one of the given
/// points.
pub proof fn lemma_points_on_map(points: Seq<Position>, width: int, height: int)
    ensures
        forall|j: int|
            0 <= j < points_on_map(points, width, height).len() ==> {
                let p = #[trigger] points_on_map(points, width, height)[j];
                0 <= p.x < width && 0 <= p.y < height && points.contains(p)
            },
    decreases points.len(),
{
    if points.len() > 0 {
        let rest = points.drop_last();
        lemma_points_on_map(rest, width, height);
        let kept = points_on_map(points, width, height);
        assert forall|j: int| 0 <= j < kept.len() implies {
            let p = #[trigger] kept[j];
            0 <= p.x < width && 0 <= p.y < height && points.contains(p)
        } by {
            let p = kept[j];
            if j < points_on_map(rest, width, height).len() {
                assert(p == points_on_map(rest, width, height)[j]);
                assert(rest.contains(p));
                let h = choose|h: int| 0 <= h < rest.len() && rest[h] == p;
                assert(points[h] == p);
            } else {
                assert(p == points.last());
                assert(points[points.len() - 1] == p);
            }
        }
    }
}

/// Whether one of `points` lies on the tile with the index `t`.
pub open spec fn covers(points: Seq<Position>, width: int, t: int) -> bool {
    exists|j: int|
        0 <= j < points.len() && tile_index(width, (#[trigger] points[j]).x as int, points[j].y as int)
            == t
}

impl FOV {
    /// Takes over the points that were seen from where the entity stands:
    /// those on the map become the content, and the field of view is up to
    /// date.
    pub fn take_sight(&mut self, map: &GameMap, seen: Vec<Position>)
        ensures
            !final(self).is_dirty,
            final(self).range == old(self).range,
            final(self).content@ == points_on_map(seen@, map.width as int, map.height as int),
    {
        self.is_dirty = false;
        let mut content: Vec<Position> = Vec::new();
        let mut j: usize = 0;
        while j < seen.len()
            invariant
                j <= seen@.len(),
                content@ == points_on_map(seen@.take(j as int), map.width as int, map.height as int),
            decreases seen@.len() - j,
        {
            proof {
                assert(seen@.take(j as int + 1).drop_last() =~= seen@.take(j as int));
            }
            let p: Position = seen[j];
            if p.x >= 0 && p.x < map.width && p.y >= 0 && p.y < map.height {
                content.push(p);
            }
            j += 1;
        }
        assert(seen@.take(j as int) =~= seen@);
        self.content = content;
    }
}

impl GameMap {
    /// Shows the player's sight on the map: exactly the tiles of `content`
    /// are seen now, and they are explored from now on.
    pub fn show_sight(&mut self, content: &Vec<Position>)
        requires
            old(self).wf(),
            forall|j: int|
                0 <= j < content@.len() ==> old(self).in_bounds(
                    (#[trigger] content@[j]).x as int,
                    content@[j].y as int,
                ),
        ensures
            *final(self) == (GameMap {
                explored_tiles: final(self).explored_tiles,
                tiles_in_fov: final(self).tiles_in_fov,
                ..*old(self)
            }),
            final(self).wf(),
            forall|t: int|
                0 <= t < old(self).area() ==> #[trigger] final(self).tiles_in_fov@[t] == covers(
                    content@,
                    old(self).width as int,
                    t,
                ),
            forall|t: int|
                0 <= t < old(self).area() ==> #[trigger] final(self).explored_tiles@[t] == (old(
                    self,
                ).explored_tiles@[t] || covers(content@, old(self).width as int, t)),
    {
        self.reset_tiles_in_fov();
        let mut j: usize = 0;
        while j < content.len()
            invariant
                j <= content@.len(),
                self.wf(),
                forall|h: int|
                    0 <= h < content@.len() ==> old(self).in_bounds(
                        (#[trigger] content@[h]).x as int,
                        content@[h].y as int,
                    ),
                *self == (GameMap {
                    explored_tiles: self.explored_tiles,
                    tiles_in_fov: self.tiles_in_fov,
                    ..*old(self)
                }),
                forall|t: int|
                    0 <= t < old(self).area() ==> #[trigger] self.tiles_in_fov@[t] == covers(
                        content@.take(j as int),
                        old(self).width as int,
                        t,
                    ),
                forall|t: int|
                    0 <= t < old(self).area() ==> #[trigger] self.explored_tiles@[t] == (old(
                        self,
                    ).explored_tiles@[t] || covers(
                        content@.take(j as int),
                        old(self).width as int,
                        t,
                    )),
            decreases content@.len() - j,
        {
            let p: Position = content[j];
            proof {
                crate::map::lemma_idx_coordinates_inverse(*self, p.x as int, p.y as int);
                let w = old(self).width as int;
                let seen = content@.take(j as int);
                let more = content@.take(j as int + 1);
                assert(more =~= seen.push(p));
                assert forall|t: int| covers(more, w, t) == (covers(seen, w, t) || tile_index(
                    w,
                    p.x as int,
                    p.y as int,
                ) == t) by {
                    if covers(seen, w, t) {
                        let h = choose|h: int|
                            0 <= h < seen.len() && tile_index(
                                w,
                                (#[trigger] seen[h]).x as int,
                                seen[h].y as int,
                            ) == t;
                        assert(more[h] == seen[h]);
                    }
                    if tile_index(w, p.x as int, p.y as int) == t {
                        assert(more[j as int] == p);
                    }
                    if covers(more, w, t) {
                        let h = choose|h: int|
                            0 <= h < more.len() && tile_index(
                                w,
                                (#[trigger] more[h]).x as int,
                                more[h].y as int,
                            ) == t;
                        if h < j {
                            assert(seen[h] == more[h]);
                        }
                    }
                }
            }
            self.set_explored_tile(p.x, p.y, true);
            self.set_tile_in_fov(p.x, p.y, true);
            j += 1;
        }
        assert(content@.take(j as int) =~= content@);
    }
}

/// Whether the field of view of the entity in the slot `i` is computed
/// anew: it has one that is stale, and a position.
pub open spec fn refreshes(store: &Store, i: int) -> bool {
    &&& store.holds(i)
    &&& store.at(i).fov is Some
    &&& store.at(i).position is Some
    &&& store.at(i).fov->0.is_dirty
}

/// Whether a field of view can be computed from `position` within `range`:
/// neither coordinate is the least or the largest number of 32 bits, and
/// the range is at most `MAX_SIGHT` either way.
pub open spec fn can_look(position: Position, range: int) -> bool {
    &&& i32::MIN < position.x < i32::MAX
    &&& i32::MIN < position.y < i32::MAX
    &&& -MAX_SIGHT <= range <= MAX_SIGHT
}

/// What stops the computation of the field of view of the entity in the
/// slot `i`, if anything: a position or a range with which the computation
/// overflows. An entity that stands off the map sees what is seen from
/// there.
pub open spec fn sight_fault(store: &Store, map: &GameMap, i: int) -> Option<Fault> {
    if refreshes(store, i) && !can_look(
        store.at(i).position->0,
        store.at(i).fov->0.range as int,
    ) {
        Some(Fault::Overflow(Entity { id: i as u32 }))
    } else {
        None
    }
}

/// What stops the computation of the field of view of each slot's entity,
/// if anything.
pub open spec fn sight_faults(store: &Store, map: &GameMap) -> Seq<Option<Fault>> {
    Seq::new(store.slots@.len(), |i: int| sight_fault(store, map, i))
}

/// The last slot below `n` whose entity is the player with a field of view
/// that is computed anew, if there is one.
pub open spec fn last_player_sight(store: &Store, n: int) -> Option<int>
    decreases n,
{
    if n <= 0 {
        None
    } else if refreshes(store, n - 1) && store.at(n - 1).player {
        Some(n - 1)
    } else {
        last_player_sight(store, n - 1)
    }
}

/// Whether a player in a slot below `n`, whose field of view was computed
/// anew, sees the tile with the index `t`.
pub open spec fn seen_by_player(before: &Store, after: &Store, width: int, n: int, t: int) -> bool {
    exists|k: int|
        0 <= k < n && #[trigger] refreshes(before, k) && before.at(k).player && covers(
            after.at(k).fov->0.content@,
            width,
            t,
        )
}

/// What holds after the fields of view of the slots below `n` have been
/// computed: a field of view that was stale is up to date and holds what is
/// seen from the entity's place within its range; the map shows as seen now what
/// the last player sees, and as explored what was explored or is seen by a
/// player; nothing else has changed.
pub open spec fn sight_done(
    before: &Store,
    map_before: &GameMap,
    after: &Store,
    map_after: &GameMap,
    n: int,
) -> bool {
    &&& after.same_entities(before)
    &&& after.doomed == before.doomed
    &&& forall|k: int|
        before.holds(k) ==> {
            &&& #[trigger] after.at(k) == (Components { fov: after.at(k).fov, ..before.at(k) })
            &&& if k < n && refreshes(before, k) {
                &&& after.at(k).fov is Some
                &&& !after.at(k).fov->0.is_dirty
                &&& after.at(k).fov->0.range == before.at(k).fov->0.range
                &&& is_sight(
                    after.at(k).fov->0.content@,
                    map_before,
                    before.at(k).position->0,
                    before.at(k).fov->0.range as int,
                )
            } else {
                after.at(k).fov == before.at(k).fov
            }
        }
    &&& *map_after == (GameMap {
        explored_tiles: map_after.explored_tiles,
        tiles_in_fov: map_after.tiles_in_fov,
        ..*map_before
    })
    &&& map_after.wf()
    &&& match last_player_sight(before, n) {
        None => map_after.tiles_in_fov == map_before.tiles_in_fov,
        Some(k) => forall|t: int|
            0 <= t < map_before.area() ==> #[trigger] map_after.tiles_in_fov@[t] == covers(
                after.at(k).fov->0.content@,
                map_before.width as int,
                t,
            ),
    }
    &&& forall|t: int|
        0 <= t < map_before.area() ==> #[trigger] map_after.explored_tiles@[t] == (
        map_before.explored_tiles@[t] || seen_by_player(
            before,
            after,
            map_before.width as int,
            n,
            t,
        ))
}

/// System that computes the fields of view.
pub struct FOVSystem {}

impl FOVSystem {
    /// Computes every stale field of view anew, in the order of the slots:
    /// the points seen from the entity's position within its range, as far
    /// as they lie on the map. The sight of the player is shown on the map;
    /// that of any other entity leaves the map as it is.
    pub fn run(store: &mut Store, map: &mut GameMap) -> (r: Result<(), Fault>)
        requires
            old(store).wf(),
            old(map).wf(),
        ensures
            match first_fault(sight_faults(old(store), old(map))) {
                Some(f) => r == Err::<(), Fault>(f),
                None => r is Ok && sight_done(
                    old(store),
                    old(map),
                    final(store),
                    final(map),
                    old(store).len(),
                ),
            },
    {
        let mut i: usize = 0;
        while i < store.slots.len()
            invariant
                store.wf(),
                old(map).wf(),
                i <= store.slots@.len(),
                sight_done(old(store), old(map), store, map, i as int),
                forall|j: int| 0 <= j < i ==> sight_fault(old(store), old(map), j) is None,
            decreases store.slots@.len() - i,
        {
            let ghost before = *store;
            let ghost map_before = *map;
            let mut plan: Option<(Position, i32)> = None;
            if let Some(c) = &store.slots[i] {
                if let Some(position) = c.position {
                    if let Some(fov) = &c.fov {
                        if fov.is_dirty {
                            plan = Some((position, fov.range));
                        }
                    }
                }
            }
            assert(plan is Some == refreshes(old(store), i as int)) by {
                if old(store).holds(i as int) {
                    assert(store.at(i as int).fov == old(store).at(i as int).fov);
                }
            }
            if let Some((position, range)) = plan {
                if position.x == i32::MIN || position.x == i32::MAX || position.y == i32::MIN
                    || position.y == i32::MAX || range < -MAX_SIGHT || range > MAX_SIGHT {
                    proof {
                        lemma_first_fault_found(sight_faults(old(store), old(map)), i as int);
                    }
                    return Err(Fault::Overflow(Entity { id: i as u32 }));
                }
                let seen = shadowcast(map, position.x, position.y, range);
                proof {
                    lemma_points_all_on_map(seen@, map.width as int, map.height as int);
                    assert(is_sight(seen@, old(map), position, range as int));
                }
                if let Some(c) = &mut store.slots[i] {
                    if let Some(fov) = &mut c.fov {
                        fov.take_sight(map, seen);
                        if c.player {
                            map.show_sight(&fov.content);
                        }
                    }
                }
            }
            proof {
                lemma_sight_step(
                    old(store),
                    old(map),
                    &before,
                    &map_before,
                    store,
                    map,
                    i as int,
                );
            }
            i += 1;
        }
        proof {
            lemma_first_fault_none(sight_faults(old(store), old(map)));
        }
        Ok(())
    }
}

/// One more field of view keeps what holds of the computed ones.
proof fn lemma_sight_step(
    start: &Store,
    map_start: &GameMap,
    before: &Store,
    map_before: &GameMap,
    after: &Store,
    map_after: &GameMap,
    i: int,
)
    requires
        0 <= i < start.len(),
        map_start.wf(),
        sight_done(start, map_start, before, map_before, i),
        after.same_entities(before),
        after.doomed == before.doomed,
        forall|k: int|
            before.holds(k) && k != i ==> #[trigger] after.at(k) == before.at(k),
        before.holds(i) ==> after.at(i) == (Components { fov: after.at(i).fov, ..before.at(i) }),
        !refreshes(before, i) ==> (before.holds(i) ==> after.at(i).fov == before.at(i).fov)
            && *map_after == *map_before,
        refreshes(before, i) ==> {
            &&& after.at(i).fov is Some
            &&& !after.at(i).fov->0.is_dirty
            &&& after.at(i).fov->0.range == before.at(i).fov->0.range
            &&& is_sight(
                after.at(i).fov->0.content@,
                map_start,
                before.at(i).position->0,
                before.at(i).fov->0.range as int,
            )
            &&& if before.at(i).player {
                &&& *map_after == (GameMap {
                    explored_tiles: map_after.explored_tiles,
                    tiles_in_fov: map_after.tiles_in_fov,
                    ..*map_before
                })
                &&& map_after.wf()
                &&& forall|t: int|
                    0 <= t < map_before.area() ==> #[trigger] map_after.tiles_in_fov@[t] == covers(
                        after.at(i).fov->0.content@,
                        map_before.width as int,
                        t,
                    )
                &&& forall|t: int|
                    0 <= t < map_before.area() ==> #[trigger] map_after.explored_tiles@[t] == (
                    map_before.explored_tiles@[t] || covers(
                        after.at(i).fov->0.content@,
                        map_before.width as int,
                        t,
                    ))
            } else {
                *map_after == *map_before
            }
        },
    ensures
        sight_done(start, map_start, after, map_after, i + 1),
{
    let w = map_start.width as int;
    assert(refreshes(before, i) == refreshes(start, i)) by {
        if start.holds(i) {
            assert(before.at(i) == before.at(i));
        }
    }
    assert forall|k: int| start.holds(k) implies {
        &&& #[trigger] after.at(k) == (Components { fov: after.at(k).fov, ..start.at(k) })
        &&& if k < i + 1 && refreshes(start, k) {
            &&& after.at(k).fov is Some
            &&& !after.at(k).fov->0.is_dirty
            &&& after.at(k).fov->0.range == start.at(k).fov->0.range
            &&& is_sight(
                after.at(k).fov->0.content@,
                map_start,
                start.at(k).position->0,
                start.at(k).fov->0.range as int,
            )
        } else {
            after.at(k).fov == start.at(k).fov
        }
    } by {
        assert(before.holds(k));
        assert(before.at(k) == before.at(k));
        if k != i {
            assert(after.at(k) == before.at(k));
        }
    }
    assert forall|t: int| 0 <= t < map_start.area() implies seen_by_player(
        start,
        after,
        w,
        i + 1,
        t,
    ) == (seen_by_player(start, before, w, i, t) || (refreshes(start, i) && start.at(i).player
        && covers(after.at(i).fov->0.content@, w, t))) by {
        if seen_by_player(start, before, w, i, t) {
            let k = choose|k: int|
                0 <= k < i && #[trigger] refreshes(start, k) && start.at(k).player && covers(
                    before.at(k).fov->0.content@,
                    w,
                    t,
                );
            assert(start.holds(k));
            assert(after.at(k) == before.at(k));
        }
        if seen_by_player(start, after, w, i + 1, t) {
            let k = choose|k: int|
                0 <= k < i + 1 && #[trigger] refreshes(start, k) && start.at(k).player && covers(
                    after.at(k).fov->0.content@,
                    w,
                    t,
                );
            if k < i {
                assert(start.holds(k));
                assert(after.at(k) == before.at(k));
            }
        }
    }
    if start.holds(i) {
        assert(before.at(i) == before.at(i));
    }
    match last_player_sight(start, i) {
        Some(k) => {
            lemma_last_player_sight(start, i);
            assert(start.holds(k));
            assert(after.at(k) == before.at(k));
        },
        None => {},
    }
}

/// The last player whose sight is computed is in a slot below `n`.
proof fn lemma_last_player_sight(store: &Store, n: int)
    ensures
        last_player_sight(store, n) is Some ==> 0 <= last_player_sight(store, n)->0 < n
            && refreshes(store, last_player_sight(store, n)->0),
    decreases n,
{
    if n > 0 {
        lemma_last_player_sight(store, n - 1);
    }
}

} // verus!
