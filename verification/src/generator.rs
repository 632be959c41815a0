//! Procedural layout of a level: rooms that do not overlap, joined by
//! corridors, and what holds of every layout that is generated.

use vstd::prelude::*;
use crate::config;
use crate::map::{
    carve, column_carved, greater, lesser, row_carved, span_covers, tile_index, GameMap, TileType,
};
use crate::rectangle::Rectangle;
use crate::rng::{generator_new, generator_range, generator_roll_dice};

verus! {

/// Whether `b` is one of the four neighbours of `a`.
pub open spec fn is_step(a: (int, int), b: (int, int)) -> bool {
    ||| a.0 == b.0 && (a.1 - b.1 == 1 || b.1 - a.1 == 1)
    ||| a.1 == b.1 && (a.0 - b.0 == 1 || b.0 - a.0 == 1)
}

/// The point in the middle of a room.
pub open spec fn center_of(room: Rectangle) -> (int, int) {
    (room.spec_center().x as int, room.spec_center().y as int)
}

/// Whether `(x, y)` is one of the points that drawing `room` turns into
/// floor.
pub open spec fn in_room(room: Rectangle, x: int, y: int) -> bool {
    room.left < x <= room.right && room.top < y <= room.bottom
}

impl GameMap {
    /// Whether `(x, y)` is on the map and its tile is floor.
    pub open spec fn floor_at(&self, x: int, y: int) -> bool {
        self.in_bounds(x, y) && self.tiles@[self.spec_idx(x, y)] == TileType::FLOOR
    }

    /// Whether `path` is a walk over floor tiles, each point a neighbour of
    /// the one before it.
    pub open spec fn is_walk(&self, path: Seq<(int, int)>) -> bool {
        &&& path.len() > 0
        &&& forall|k: int| 0 <= k < path.len() ==> self.floor_at(#[trigger] path[k].0, path[k].1)
        &&& forall|k: int| 0 <= k < path.len() - 1 ==> is_step(#[trigger] path[k], path[k + 1])
    }

    /// Whether a walk over floor tiles leads from `a` to `b`.
    pub open spec fn connected(&self, a: (int, int), b: (int, int)) -> bool {
        exists|path: Seq<(int, int)>|
            #[trigger] self.is_walk(path) && path.first() == a && path.last() == b
    }

    /// Whether `room` lies on the map with a margin of one tile to the right
    /// and to the bottom, and is at least two tiles wide and high.
    pub open spec fn room_on_map(&self, room: Rectangle) -> bool {
        &&& 0 <= room.left
        &&& room.left + 2 <= room.right
        &&& room.right < self.width - 1
        &&& 0 <= room.top
        &&& room.top + 2 <= room.bottom
        &&& room.bottom < self.height - 1
    }

    /// Whether `room` overlaps none of the rooms of the map.
    pub open spec fn room_is_free(&self, room: Rectangle) -> bool {
        forall|k: int| 0 <= k < self.rooms@.len() ==> !room.spec_overlaps(#[trigger] self.rooms@[k])
    }

    /// What holds of the rooms of every generated map: they lie on the map,
    /// no two of them overlap, every tile of a room is floor, and a walk over
    /// floor tiles leads from the center of the first room to the center of
    /// each room.
    pub open spec fn layout_ok(&self) -> bool {
        &&& forall|k: int| 0 <= k < self.rooms@.len() ==> self.room_on_map(#[trigger] self.rooms@[k])
        &&& forall|i: int, j: int|
            0 <= i < self.rooms@.len() && 0 <= j < self.rooms@.len() && i != j ==> !(
            #[trigger] self.rooms@[i]).spec_overlaps(#[trigger] self.rooms@[j])
        &&& forall|k: int, x: int, y: int|
            0 <= k < self.rooms@.len() && in_room(#[trigger] self.rooms@[k], x, y)
                ==> #[trigger] self.floor_at(x, y)
        &&& forall|k: int|
            0 <= k < self.rooms@.len() ==> self.connected(
                center_of(self.rooms@[0]),
                center_of(#[trigger] self.rooms@[k]),
            )
    }
}

/// A floor tile is connected to itself.
pub proof fn lemma_connected_self(map: GameMap, a: (int, int))
    requires
        map.floor_at(a.0, a.1),
    ensures
        map.connected(a, a),
{
    let path = seq![a];
    assert(map.is_walk(path));
    assert(path.first() == a && path.last() == a);
}

/// A walk can be extended by a floor tile next to its end.
pub proof fn lemma_connected_push(map: GameMap, a: (int, int), b: (int, int), c: (int, int))
    requires
        map.connected(a, b),
        map.floor_at(c.0, c.1),
        is_step(b, c),
    ensures
        map.connected(a, c),
{
    let path = choose|path: Seq<(int, int)>|
        #[trigger] map.is_walk(path) && path.first() == a && path.last() == b;
    let longer = path.push(c);
    assert forall|k: int| 0 <= k < longer.len() implies map.floor_at(
        #[trigger] longer[k].0,
        longer[k].1,
    ) by {
        if k < path.len() {
            assert(longer[k] == path[k]);
        }
    }
    assert forall|k: int| 0 <= k < longer.len() - 1 implies is_step(
        #[trigger] longer[k],
        longer[k + 1],
    ) by {
        if k < path.len() - 1 {
            assert(longer[k] == path[k]);
            assert(longer[k + 1] == path[k + 1]);
        }
    }
    assert(map.is_walk(longer));
    assert(longer.first() == a && longer.last() == c);
}

/// Two walks that meet make one walk.
pub proof fn lemma_connected_join(map: GameMap, a: (int, int), b: (int, int), c: (int, int))
    requires
        map.connected(a, b),
        map.connected(b, c),
    ensures
        map.connected(a, c),
{
    let second = choose|path: Seq<(int, int)>|
        #[trigger] map.is_walk(path) && path.first() == b && path.last() == c;
    lemma_connected_along(map, a, second, second.len() as int - 1);
}

/// From a point connected to the start of a walk, every point of the walk
/// is reached.
proof fn lemma_connected_along(map: GameMap, a: (int, int), walk: Seq<(int, int)>, k: int)
    requires
        map.is_walk(walk),
        map.connected(a, walk.first()),
        0 <= k < walk.len(),
    ensures
        map.connected(a, walk[k]),
    decreases k,
{
    if k > 0 {
        lemma_connected_along(map, a, walk, k - 1);
        assert(is_step(walk[k - 1], walk[k - 1 + 1]));
        assert(map.floor_at(walk[k].0, walk[k].1));
        lemma_connected_push(map, a, walk[k - 1], walk[k]);
    }
}

/// A walk can be walked backwards.
pub proof fn lemma_connected_back(map: GameMap, a: (int, int), b: (int, int))
    requires
        map.connected(a, b),
    ensures
        map.connected(b, a),
{
    let path = choose|path: Seq<(int, int)>|
        #[trigger] map.is_walk(path) && path.first() == a && path.last() == b;
    lemma_connected_self(map, b);
    lemma_connected_down(map, path, path.len() as int - 1, 0);
}

/// From a point of a walk, every earlier point of the walk is reached.
proof fn lemma_connected_down(map: GameMap, walk: Seq<(int, int)>, from: int, to: int)
    requires
        map.is_walk(walk),
        0 <= to <= from < walk.len(),
    ensures
        map.connected(walk[from], walk[to]),
    decreases from - to,
{
    if to == from {
        assert(map.floor_at(walk[from].0, walk[from].1));
        lemma_connected_self(map, walk[from]);
    } else {
        lemma_connected_down(map, walk, from, to + 1);
        assert(is_step(walk[to], walk[to + 1]));
        assert(map.floor_at(walk[to].0, walk[to].1));
        lemma_connected_push(map, walk[from], walk[to + 1], walk[to]);
    }
}

/// A walk stays a walk when more tiles become floor.
pub proof fn lemma_connected_grows(before: GameMap, after: GameMap, a: (int, int), b: (int, int))
    requires
        before.connected(a, b),
        forall|x: int, y: int| before.floor_at(x, y) ==> after.floor_at(x, y),
    ensures
        after.connected(a, b),
{
    let path = choose|path: Seq<(int, int)>|
        #[trigger] before.is_walk(path) && path.first() == a && path.last() == b;
    assert forall|k: int| 0 <= k < path.len() implies after.floor_at(
        #[trigger] path[k].0,
        path[k].1,
    ) by {
        assert(before.floor_at(path[k].0, path[k].1));
    }
    assert(after.is_walk(path));
}

/// A row of floor tiles is connected from one end to the other.
pub proof fn lemma_row_connected(map: GameMap, x1: int, x2: int, y: int)
    requires
        x1 <= x2,
        forall|x: int| x1 <= x <= x2 ==> map.floor_at(x, y),
    ensures
        map.connected((x1, y), (x2, y)),
        map.connected((x2, y), (x1, y)),
    decreases x2 - x1,
{
    if x1 == x2 {
        lemma_connected_self(map, (x1, y));
    } else {
        lemma_row_connected(map, x1, x2 - 1, y);
        lemma_connected_push(map, (x1, y), (x2 - 1, y), (x2, y));
        lemma_connected_back(map, (x1, y), (x2, y));
    }
}

/// A column of floor tiles is connected from one end to the other.
pub proof fn lemma_column_connected(map: GameMap, x: int, y1: int, y2: int)
    requires
        y1 <= y2,
        forall|y: int| y1 <= y <= y2 ==> map.floor_at(x, y),
    ensures
        map.connected((x, y1), (x, y2)),
        map.connected((x, y2), (x, y1)),
    decreases y2 - y1,
{
    if y1 == y2 {
        lemma_connected_self(map, (x, y1));
    } else {
        lemma_column_connected(map, x, y1, y2 - 1);
        lemma_connected_push(map, (x, y1), (x, y2 - 1), (x, y2));
        lemma_connected_back(map, (x, y1), (x, y2));
    }
}

/// Two points are connected if the row of the first, between their columns,
/// and the column of the second, between their rows, are floor.
pub proof fn lemma_corner_connected(map: GameMap, a: (int, int), b: (int, int))
    requires
        forall|x: int|
            (a.0 <= x <= b.0 || b.0 <= x <= a.0) ==> map.floor_at(x, a.1),
        forall|y: int|
            (a.1 <= y <= b.1 || b.1 <= y <= a.1) ==> map.floor_at(b.0, y),
    ensures
        map.connected(a, b),
        map.connected(b, a),
{
    if a.0 <= b.0 {
        lemma_row_connected(map, a.0, b.0, a.1);
    } else {
        lemma_row_connected(map, b.0, a.0, a.1);
    }
    if a.1 <= b.1 {
        lemma_column_connected(map, b.0, a.1, b.1);
    } else {
        lemma_column_connected(map, b.0, b.1, a.1);
    }
    lemma_connected_join(map, a, (b.0, a.1), b);
    lemma_connected_back(map, a, b);
}

/// The tiles after `room` has been drawn on `tiles` and, if it is not the
/// first room, joined to the center of the last of the `earlier` rooms by a
/// corridor with one corner: along the row of the earlier room first if
/// `horizontal_first`, along its column first otherwise. Every other tile is
/// as it was.
pub open spec fn room_drawn(
    tiles: Seq<TileType>,
    width: int,
    height: int,
    earlier: Seq<Rectangle>,
    room: Rectangle,
    horizontal_first: bool,
) -> Seq<TileType> {
    let cut = carve(
        tiles,
        width,
        room.left + 1,
        room.right as int,
        room.top + 1,
        room.bottom as int,
        false,
    );
    if earlier.len() == 0 {
        cut
    } else {
        let to = center_of(room);
        let from = center_of(earlier.last());
        if horizontal_first {
            column_carved(
                row_carved(cut, width, height, from.0, to.0, from.1),
                width,
                height,
                from.1,
                to.1,
                to.0,
            )
        } else {
            row_carved(
                column_carved(cut, width, height, from.1, to.1, from.0),
                width,
                height,
                from.0,
                to.0,
                to.1,
            )
        }
    }
}

/// The tiles of a map of walls on which `rooms` have been drawn one after
/// the other, each joined to the room before it; `turns` tells for each
/// room whether its corridor runs along the row first.
pub open spec fn laid_out(width: int, height: int, rooms: Seq<Rectangle>, turns: Seq<bool>) -> Seq<
    TileType,
>
    decreases rooms.len(),
{
    if rooms.len() == 0 {
        Seq::new((width * height) as nat, |i: int| TileType::WALL)
    } else {
        room_drawn(
            laid_out(width, height, rooms.drop_last(), turns.drop_last()),
            width,
            height,
            rooms.drop_last(),
            rooms.last(),
            turns.last(),
        )
    }
}

impl GameMap {
    /// The tiles after `room` has been drawn and, if it is not the first
    /// room, joined to the center of the room before it by a corridor with
    /// one corner: along the row of the earlier room first if
    /// `horizontal_first`, along its column first otherwise.
    pub open spec fn tiles_with_room(&self, room: Rectangle, horizontal_first: bool) -> Seq<
        TileType,
    > {
        room_drawn(
            self.tiles@,
            self.width as int,
            self.height as int,
            self.rooms@,
            room,
            horizontal_first,
        )
    }

    /// Whether the tiles of the map are those of a map of walls on which
    /// its rooms have been drawn one after the other, each joined to the
    /// room before it by a corridor of one of the two orientations: every
    /// tile outside of the rooms and the corridors is a wall.
    pub open spec fn is_laid_out(&self) -> bool {
        exists|turns: Seq<bool>|
            turns.len() == self.rooms@.len() && self.tiles@ == #[trigger] laid_out(
                self.width as int,
                self.height as int,
                self.rooms@,
                turns,
            )
    }

    /// Whether the center of `room` can be computed in 32 bits.
    pub open spec fn has_center(room: Rectangle) -> bool {
        &&& i32::MIN <= room.left + room.right <= i32::MAX
        &&& i32::MIN <= room.top + room.bottom <= i32::MAX
    }

    /// Whether `room` overlaps none of the rooms of the map.
    pub fn room_fits(&self, room: &Rectangle) -> (b: bool)
        ensures
            b == self.room_is_free(*room),
    {
        let mut k: usize = 0;
        while k < self.rooms.len()
            invariant
                k <= self.rooms@.len(),
                forall|j: int| 0 <= j < k ==> !room.spec_overlaps(#[trigger] self.rooms@[j]),
            decreases self.rooms@.len() - k,
        {
            if room.overlaps(&self.rooms[k]) {
                return false;
            }
            k += 1;
        }
        true
    }

    /// Draws `room`, joins it to the room placed before it, if there is one,
    /// and appends it to the rooms of the map.
    pub fn add_room(&mut self, room: Rectangle, horizontal_first: bool)
        requires
            old(self).wf(),
            old(self).span_has_tiles(
                room.left + 1,
                room.right as int,
                room.top + 1,
                room.bottom as int,
            ),
            old(self).rooms@.len() > 0 ==> Self::has_center(room) && Self::has_center(
                old(self).rooms@.last(),
            ),
        ensures
            *final(self) == (GameMap {
                tiles: final(self).tiles,
                rooms: final(self).rooms,
                ..*old(self)
            }),
            final(self).rooms@ == old(self).rooms@.push(room),
            final(self).tiles@ == old(self).tiles_with_room(room, horizontal_first),
    {
        self.draw_room(&room);
        if self.rooms.len() > 0 {
            let to = room.center();
            let from = self.rooms[self.rooms.len() - 1].center();
            if horizontal_first {
                self.draw_horizontal_intersection(from.x, to.x, from.y);
                self.draw_vertical_intersection(from.y, to.y, to.x);
            } else {
                self.draw_vertical_intersection(from.y, to.y, from.x);
                self.draw_horizontal_intersection(from.x, to.x, to.y);
            }
        }
        self.rooms.push(room);
    }
}

/// Carving keeps floor tiles and turns the carved tiles into floor.
pub proof fn lemma_carve(
    tiles: Seq<TileType>,
    width: int,
    x_lo: int,
    x_hi: int,
    y_lo: int,
    y_hi: int,
    checked: bool,
)
    ensures
        carve(tiles, width, x_lo, x_hi, y_lo, y_hi, checked).len() == tiles.len(),
        forall|i: int|
            0 <= i < tiles.len() && tiles[i] == TileType::FLOOR ==> #[trigger] carve(
                tiles,
                width,
                x_lo,
                x_hi,
                y_lo,
                y_hi,
                checked,
            )[i] == TileType::FLOOR,
        forall|x: int, y: int|
            x_lo <= x <= x_hi && y_lo <= y <= y_hi && 0 <= tile_index(width, x, y) < tiles.len() && (
            !checked || tile_index(width, x, y) > 0) ==> carve(
                tiles,
                width,
                x_lo,
                x_hi,
                y_lo,
                y_hi,
                checked,
            )[#[trigger] tile_index(width, x, y)] == TileType::FLOOR,
{
    assert forall|x: int, y: int|
        x_lo <= x <= x_hi && y_lo <= y <= y_hi && 0 <= tile_index(width, x, y) < tiles.len() && (
        !checked || tile_index(width, x, y) > 0) implies carve(
        tiles,
        width,
        x_lo,
        x_hi,
        y_lo,
        y_hi,
        checked,
    )[#[trigger] tile_index(width, x, y)] == TileType::FLOOR by {
        assert(span_covers(width, x_lo, x_hi, y_lo, y_hi, tile_index(width, x, y)));
    }
}

/// On a well-formed map, a point in bounds has a tile, and its index is
/// positive unless the point is the origin.
pub proof fn lemma_in_bounds_index(map: GameMap, x: int, y: int)
    requires
        map.wf(),
        map.in_bounds(x, y),
    ensures
        0 <= tile_index(map.width as int, x, y) < map.area(),
        y > 0 ==> tile_index(map.width as int, x, y) > 0,
{
    let w = map.width as int;
    let h = map.height as int;
    assert(0 <= y * w + x < w * h) by (nonlinear_arith)
        requires
            0 <= x < w,
            0 <= y < h,
    ;
    if y > 0 {
        assert(y * w + x > 0) by (nonlinear_arith)
            requires
                0 <= x,
                0 < w,
                0 < y,
        ;
    }
}

/// Adding a room that lies on the map and overlaps no other room keeps the
/// layout in order.
pub proof fn lemma_add_room_layout(
    before: GameMap,
    after: GameMap,
    room: Rectangle,
    horizontal_first: bool,
)
    requires
        before.wf(),
        before.layout_ok(),
        before.room_on_map(room),
        before.room_is_free(room),
        after.width == before.width,
        after.height == before.height,
        after.rooms@ == before.rooms@.push(room),
        after.tiles@ == before.tiles_with_room(room, horizontal_first),
    ensures
        after.layout_ok(),
{
    let w = before.width as int;
    let n = before.rooms@.len() as int;
    let to = center_of(room);
    assert(to == ((room.left + room.right) / 2, (room.top + room.bottom) / 2));
    assert(in_room(room, to.0, to.1));
    let cut = carve(
        before.tiles@,
        w,
        room.left + 1,
        room.right as int,
        room.top + 1,
        room.bottom as int,
        false,
    );
    lemma_carve(before.tiles@, w, room.left + 1, room.right as int, room.top + 1, room.bottom as int, false);
    // The tiles of the new room are floor after the first cut.
    assert forall|x: int, y: int| in_room(room, x, y) implies 0 <= tile_index(w, x, y)
        < before.area() && cut[tile_index(w, x, y)] == TileType::FLOOR by {
        lemma_in_bounds_index(before, x, y);
    }
    if n == 0 {
        assert(after.tiles@ == cut);
        assert forall|x: int, y: int| before.floor_at(x, y) implies after.floor_at(x, y) by {
            lemma_in_bounds_index(before, x, y);
        }
        assert forall|x: int, y: int| in_room(room, x, y) implies after.floor_at(x, y) by {}
        lemma_connected_self(after, to);
    } else {
        let last = before.rooms@.last();
        assert(last == before.rooms@[n - 1]);
        assert(before.room_on_map(last));
        let from = center_of(last);
        assert(from == ((last.left + last.right) / 2, (last.top + last.bottom) / 2));
        assert(in_room(last, from.0, from.1));
        let x_lo = lesser(from.0, to.0);
        let x_hi = greater(from.0, to.0);
        let y_lo = lesser(from.1, to.1);
        let y_hi = greater(from.1, to.1);
        if horizontal_first {
            let mid = carve(cut, w, x_lo, x_hi, from.1, from.1, true);
            lemma_carve(cut, w, x_lo, x_hi, from.1, from.1, true);
            lemma_carve(mid, w, to.0, to.0, y_lo, y_hi, true);
            assert(after.tiles@ == carve(mid, w, to.0, to.0, y_lo, y_hi, true));
            assert forall|x: int, y: int| before.floor_at(x, y) implies after.floor_at(x, y) by {
                lemma_in_bounds_index(before, x, y);
            }
            assert forall|x: int, y: int| in_room(room, x, y) implies after.floor_at(x, y) by {
                lemma_in_bounds_index(before, x, y);
            }
            assert forall|x: int| (from.0 <= x <= to.0 || to.0 <= x <= from.0) implies after.floor_at(
                x,
                from.1,
            ) by {
                lemma_in_bounds_index(before, x, from.1);
                assert(mid[tile_index(w, x, from.1)] == TileType::FLOOR);
            }
            assert forall|y: int| (from.1 <= y <= to.1 || to.1 <= y <= from.1) implies after.floor_at(
                to.0,
                y,
            ) by {
                lemma_in_bounds_index(before, to.0, y);
            }
            lemma_corner_connected(after, from, to);
        } else {
            let mid = carve(cut, w, from.0, from.0, y_lo, y_hi, true);
            lemma_carve(cut, w, from.0, from.0, y_lo, y_hi, true);
            lemma_carve(mid, w, x_lo, x_hi, to.1, to.1, true);
            assert(after.tiles@ == carve(mid, w, x_lo, x_hi, to.1, to.1, true));
            assert forall|x: int, y: int| before.floor_at(x, y) implies after.floor_at(x, y) by {
                lemma_in_bounds_index(before, x, y);
            }
            assert forall|x: int, y: int| in_room(room, x, y) implies after.floor_at(x, y) by {
                lemma_in_bounds_index(before, x, y);
            }
            assert forall|x: int| (to.0 <= x <= from.0 || from.0 <= x <= to.0) implies after.floor_at(
                x,
                to.1,
            ) by {
                lemma_in_bounds_index(before, x, to.1);
            }
            assert forall|y: int| (to.1 <= y <= from.1 || from.1 <= y <= to.1) implies after.floor_at(
                from.0,
                y,
            ) by {
                lemma_in_bounds_index(before, from.0, y);
                assert(mid[tile_index(w, from.0, y)] == TileType::FLOOR);
            }
            lemma_corner_connected(after, to, from);
        }
        assert(after.connected(from, to));
    }
    assert forall|k: int| 0 <= k < after.rooms@.len() implies after.connected(
        center_of(after.rooms@[0]),
        center_of(#[trigger] after.rooms@[k]),
    ) by {
        if n == 0 {
            assert(after.rooms@[k] == room);
        } else {
            assert(after.rooms@[0] == before.rooms@[0]);
            let first = center_of(before.rooms@[0]);
            if k < n {
                assert(after.rooms@[k] == before.rooms@[k]);
                lemma_connected_grows(before, after, first, center_of(before.rooms@[k]));
            } else {
                let from = center_of(before.rooms@[n - 1]);
                assert(before.connected(first, from));
                lemma_connected_grows(before, after, first, from);
                lemma_connected_join(after, first, from, to);
            }
        }
    }
    assert forall|k: int, x: int, y: int|
        0 <= k < after.rooms@.len() && in_room(
            #[trigger] after.rooms@[k],
            x,
            y,
        ) implies #[trigger] after.floor_at(x, y) by {
        if k < n {
            assert(after.rooms@[k] == before.rooms@[k]);
            assert(before.floor_at(x, y));
        }
    }
    assert forall|i: int, j: int|
        0 <= i < after.rooms@.len() && 0 <= j < after.rooms@.len() && i != j implies !(
    #[trigger] after.rooms@[i]).spec_overlaps(#[trigger] after.rooms@[j]) by {
        if i < n && j < n {
            assert(after.rooms@[i] == before.rooms@[i]);
            assert(after.rooms@[j] == before.rooms@[j]);
        } else if i < n {
            assert(after.rooms@[i] == before.rooms@[i]);
            assert(!room.spec_overlaps(before.rooms@[i]));
        } else {
            assert(after.rooms@[j] == before.rooms@[j]);
            assert(!room.spec_overlaps(before.rooms@[j]));
        }
    }
    assert forall|k: int| 0 <= k < after.rooms@.len() implies after.room_on_map(
        #[trigger] after.rooms@[k],
    ) by {
        if k < n {
            assert(after.rooms@[k] == before.rooms@[k]);
            assert(before.room_on_map(before.rooms@[k]));
        }
    }
}

/// On every map whose layout is in order, each tile of each room is reached
/// from the center of the first room by a walk over floor tiles.
pub proof fn lemma_rooms_reachable(map: GameMap, k: int, x: int, y: int)
    requires
        map.wf(),
        map.layout_ok(),
        0 <= k < map.rooms@.len(),
        in_room(map.rooms@[k], x, y),
    ensures
        map.connected(center_of(map.rooms@[0]), (x, y)),
{
    let room = map.rooms@[k];
    assert(map.room_on_map(room));
    let c = center_of(room);
    assert(c == ((room.left + room.right) / 2, (room.top + room.bottom) / 2));
    assert forall|px: int| (c.0 <= px <= x || x <= px <= c.0) implies map.floor_at(px, c.1) by {
        assert(in_room(room, px, c.1));
    }
    assert forall|py: int| (c.1 <= py <= y || y <= py <= c.1) implies map.floor_at(x, py) by {
        assert(in_room(room, x, py));
    }
    lemma_corner_connected(map, c, (x, y));
    lemma_connected_join(map, center_of(map.rooms@[0]), c, (x, y));
}

impl GameMap {
    /// Whether nothing on the map is explored, seen or blocked, and no tile
    /// has an entity on it.
    pub open spec fn is_untouched(&self) -> bool {
        &&& forall|i: int| 0 <= i < self.area() ==> !#[trigger] self.explored_tiles@[i]
        &&& forall|i: int| 0 <= i < self.area() ==> !#[trigger] self.tiles_in_fov@[i]
        &&& forall|i: int| 0 <= i < self.area() ==> !#[trigger] self.blocked_tiles@[i]
        &&& forall|i: int|
            0 <= i < self.area() ==> (#[trigger] self.tile_contents@[i])@ == Seq::<
                crate::components::Entity,
            >::empty()
    }

    /// Whether every room of the map is as wide and as high as the
    /// configuration asks.
    pub open spec fn rooms_sized(&self) -> bool {
        forall|k: int|
            0 <= k < self.rooms@.len() ==> {
                let room = #[trigger] self.rooms@[k];
                &&& config::MIN_ROOM_SIZE <= room.right - room.left < config::MAX_ROOM_SIZE
                &&& config::MIN_ROOM_SIZE <= room.bottom - room.top < config::MAX_ROOM_SIZE
            }
    }

    /// Creates a map of walls and lays out rooms on it, with numbers drawn
    /// from `rng`. A fixed number of times, a room of random size is tried at
    /// a random place; one that overlaps an earlier room is dropped, any
    /// other is drawn and joined to the room before it by a corridor whose
    /// orientation is random. The first room that is tried is always placed.
    /// Every tile outside of the rooms and the corridors stays a wall.
    pub fn new_map_with_rooms_from(
        width: i32,
        height: i32,
        rng: &mut rltk::RandomNumberGenerator,
    ) -> (map: Self)
        requires
            config::MAX_ROOM_SIZE < width,
            config::MAX_ROOM_SIZE < height,
            width * height <= i32::MAX,
        ensures
            map.wf(),
            map.width == width,
            map.height == height,
            1 <= map.rooms@.len() <= config::MAX_ROOMS,
            map.layout_ok(),
            map.rooms_sized(),
            map.is_untouched(),
            map.is_laid_out(),
    {
        let mut map = GameMap::new_filled(width, height, TileType::WALL);
        let ghost mut turns: Seq<bool> = Seq::empty();
        assert(map.tiles@ =~= laid_out(width as int, height as int, map.rooms@, turns));
        let mut attempt: i32 = 0;
        while attempt < config::MAX_ROOMS
            invariant
                0 <= attempt <= config::MAX_ROOMS,
                config::MAX_ROOM_SIZE < width,
                config::MAX_ROOM_SIZE < height,
                width * height <= i32::MAX,
                map.wf(),
                map.width == width,
                map.height == height,
                map.rooms@.len() <= attempt,
                attempt >= 1 ==> map.rooms@.len() >= 1,
                map.layout_ok(),
                map.rooms_sized(),
                map.is_untouched(),
                turns.len() == map.rooms@.len(),
                map.tiles@ == laid_out(width as int, height as int, map.rooms@, turns),
            decreases config::MAX_ROOMS - attempt,
        {
            let room_width: i32 = generator_range(
                rng,
                config::MIN_ROOM_SIZE,
                config::MAX_ROOM_SIZE,
            );
            let room_height: i32 = generator_range(
                rng,
                config::MIN_ROOM_SIZE,
                config::MAX_ROOM_SIZE,
            );
            let x: i32 = generator_roll_dice(rng, 1, width - room_width - 1) - 1;
            let y: i32 = generator_roll_dice(rng, 1, height - room_height - 1) - 1;
            let room = Rectangle::new(x, y, room_width, room_height);
            if map.room_fits(&room) {
                let horizontal_first = map.rooms.len() > 0 && generator_range(rng, 0, 2) == 1;
                let ghost before = map;
                proof {
                    assert(map.room_on_map(room));
                    assert(width < 0x4000_0000 && height < 0x4000_0000) by (nonlinear_arith)
                        requires
                            width * height <= 0x7fff_ffff,
                            width > 10,
                            height > 10,
                    ;
                    assert forall|px: int, py: int|
                        room.left + 1 <= px <= room.right && room.top + 1 <= py
                            <= room.bottom implies 0 <= #[trigger] tile_index(
                        map.width as int,
                        px,
                        py,
                    ) < map.area() by {
                        lemma_in_bounds_index(map, px, py);
                    }
                    if map.rooms@.len() > 0 {
                        let last = map.rooms@[map.rooms@.len() - 1];
                        assert(map.room_on_map(last));
                        assert(last == map.rooms@.last());
                        assert(Self::has_center(last));
                    }
                }
                map.add_room(room, horizontal_first);
                proof {
                    let more = turns.push(horizontal_first);
                    assert(map.rooms@.drop_last() =~= before.rooms@);
                    assert(more.drop_last() =~= turns);
                    assert(map.rooms@.last() == room && more.last() == horizontal_first);
                    turns = more;
                    lemma_add_room_layout(before, map, room, horizontal_first);
                    assert forall|k: int| 0 <= k < map.rooms@.len() implies {
                        let placed = #[trigger] map.rooms@[k];
                        &&& config::MIN_ROOM_SIZE <= placed.right - placed.left
                            < config::MAX_ROOM_SIZE
                        &&& config::MIN_ROOM_SIZE <= placed.bottom - placed.top
                            < config::MAX_ROOM_SIZE
                    } by {
                        if k < before.rooms@.len() {
                            assert(map.rooms@[k] == before.rooms@[k]);
                        }
                    }
                }
            }
            attempt += 1;
        }
        map
    }

    /// Creates a map of walls and lays out rooms on it, with a generator
    /// seeded by the operating system.
    pub fn new_map_with_rooms(width: i32, height: i32) -> (map: Self)
        requires
            config::MAX_ROOM_SIZE < width,
            config::MAX_ROOM_SIZE < height,
            width * height <= i32::MAX,
        ensures
            map.wf(),
            map.width == width,
            map.height == height,
            1 <= map.rooms@.len() <= config::MAX_ROOMS,
            map.layout_ok(),
            map.rooms_sized(),
            map.is_untouched(),
            map.is_laid_out(),
    {
        let mut rng = generator_new();
        Self::new_map_with_rooms_from(width, height, &mut rng)
    }
}

impl GameMap {
    /// Calls `block` for each room of the map but the first, in their order:
    /// for each of them a call of `block` has ended.
    pub fn rooms_for_each<F>(&self, block: F) where F: FnMut(&Rectangle)
        requires
            forall|room: &Rectangle| call_requires(block, (room,)),
        ensures
            forall|k: int|
                1 <= k < self.rooms@.len() ==> call_ensures(block, (&#[trigger] self.rooms@[k],), ()),
    {
        broadcast use vstd::function::group_function_axioms;

        let mut called = block;
        let mut i: usize = 1;
        while i < self.rooms.len()
            invariant
                1 <= i,
                called == block,
                forall|room: &Rectangle| call_requires(block, (room,)),
                forall|k: int|
                    1 <= k < i && k < self.rooms@.len() ==> call_ensures(
                        block,
                        (&#[trigger] self.rooms@[k],),
                        (),
                    ),
            decreases self.rooms@.len() - i,
        {
            called(&self.rooms[i]);
            i += 1;
        }
    }

    /// Calls `block` for each room of the map from the room `skip` on, in
    /// their order, with the count of the rooms that came before it in this
    /// walk: for each of them a call of `block` has ended.
    pub fn rooms_for_each_skip<F>(&self, skip: usize, block: F) where F: FnMut(usize, &Rectangle)
        requires
            forall|idx: usize, room: &Rectangle| call_requires(block, (idx, room)),
        ensures
            forall|k: int|
                skip <= k < self.rooms@.len() ==> call_ensures(
                    block,
                    ((k - skip) as usize, &#[trigger] self.rooms@[k]),
                    (),
                ),
    {
        broadcast use vstd::function::group_function_axioms;

        let mut called = block;
        let mut i: usize = skip;
        while i < self.rooms.len()
            invariant
                skip <= i,
                called == block,
                forall|idx: usize, room: &Rectangle| call_requires(block, (idx, room)),
                forall|k: int|
                    skip <= k < i && k < self.rooms@.len() ==> call_ensures(
                        block,
                        ((k - skip) as usize, &#[trigger] self.rooms@[k]),
                        (),
                    ),
            decreases self.rooms@.len() - i,
        {
            called(i - skip, &self.rooms[i]);
            i += 1;
        }
    }

    /// The tile at the point `(x, y)`.
    pub open spec fn tile_at(&self, x: int, y: int) -> TileType {
        self.tiles@[tile_index(self.width as int, x, y)]
    }

    /// Turns the tile at `(x, y)` into a wall.
    fn wall_at(&mut self, x: i32, y: i32)
        requires
            old(self).wf(),
            old(self).in_bounds(x as int, y as int),
        ensures
            *final(self) == (GameMap { tiles: final(self).tiles, ..*old(self) }),
            final(self).wf(),
            forall|px: int, py: int|
                old(self).in_bounds(px, py) ==> #[trigger] final(self).tile_at(px, py) == if px == x
                    && py == y {
                    TileType::WALL
                } else {
                    old(self).tile_at(px, py)
                },
    {
        proof {
            lemma_in_bounds_index(*self, x as int, y as int);
            lemma_row_column_apart(*self);
        }
        self.set_tile(x, y, TileType::WALL);
        proof {
            assert forall|px: int, py: int| old(self).in_bounds(px, py) implies #[trigger] self.tile_at(
                px,
                py,
            ) == if px == x && py == y {
                TileType::WALL
            } else {
                old(self).tile_at(px, py)
            } by {
                lemma_in_bounds_index(*old(self), px, py);
            }
        }
    }

    /// Creates a map of floor with walls on its edge and at random places
    /// in between, for trying things out. The tile at `(40, 25)` is never one
    /// of the random walls.
    pub fn new_map_test(width: i32, height: i32) -> (map: Self)
        requires
            2 <= width,
            2 <= height,
            width * height <= i32::MAX,
        ensures
            map.wf(),
            map.width == width,
            map.height == height,
            map.rooms@.len() == 0,
            map.is_untouched(),
            forall|x: int, y: int|
                map.in_bounds(x, y) && (x == 0 || y == 0 || x == width - 1 || y == height - 1)
                    ==> #[trigger] map.tile_at(x, y) == TileType::WALL,
            0 < 40 < width - 1 && 0 < 25 < height - 1 ==> map.tile_at(40, 25) == TileType::FLOOR,
    {
        let mut map = GameMap::new_filled(width, height, TileType::FLOOR);
        let ghost blank = map;
        proof {
            assert forall|px: int, py: int| map.in_bounds(px, py) implies #[trigger] map.tile_at(
                px,
                py,
            ) == TileType::FLOOR by {
                lemma_in_bounds_index(map, px, py);
            }
        }
        let mut x: i32 = 0;
        while x < width
            invariant
                0 <= x <= width,
                2 <= height,
                map.wf(),
                map == (GameMap { tiles: map.tiles, ..blank }),
                map.width == width,
                map.height == height,
                map.rooms@.len() == 0,
                map.is_untouched(),
                forall|px: int, py: int|
                    map.in_bounds(px, py) ==> #[trigger] map.tile_at(px, py) == if px < x && (py
                        == 0 || py == height - 1) {
                        TileType::WALL
                    } else {
                        TileType::FLOOR
                    },
            decreases width - x,
        {
            map.wall_at(x, 0);
            map.wall_at(x, height - 1);
            x += 1;
        }
        let mut y: i32 = 0;
        while y < height
            invariant
                0 <= y <= height,
                2 <= width,
                map.wf(),
                map == (GameMap { tiles: map.tiles, ..blank }),
                map.width == width,
                map.height == height,
                map.rooms@.len() == 0,
                map.is_untouched(),
                forall|px: int, py: int|
                    map.in_bounds(px, py) ==> #[trigger] map.tile_at(px, py) == if py == 0 || py
                        == height - 1 || (py < y && (px == 0 || px == width - 1)) {
                        TileType::WALL
                    } else {
                        TileType::FLOOR
                    },
            decreases height - y,
        {
            map.wall_at(0, y);
            map.wall_at(width - 1, y);
            y += 1;
        }
        let mut rng = generator_new();
        let mut count: i32 = 0;
        while count < 400
            invariant
                0 <= count <= 400,
                2 <= width,
                2 <= height,
                map.wf(),
                map == (GameMap { tiles: map.tiles, ..blank }),
                map.width == width,
                map.height == height,
                map.rooms@.len() == 0,
                map.is_untouched(),
                forall|px: int, py: int|
                    map.in_bounds(px, py) && (px == 0 || py == 0 || px == width - 1 || py == height
                        - 1) ==> #[trigger] map.tile_at(px, py) == TileType::WALL,
                0 < 40 < width - 1 && 0 < 25 < height - 1 ==> map.tile_at(40, 25)
                    == TileType::FLOOR,
            decreases 400 - count,
        {
            let x: i32 = generator_roll_dice(&mut rng, 1, width - 1);
            let y: i32 = generator_roll_dice(&mut rng, 1, height - 1);
            if !(x == 40 && y == 25) {
                map.wall_at(x, y);
            }
            count += 1;
        }
        map
    }
}

/// On a well-formed map, two points in bounds with the same index are the
/// same point.
pub proof fn lemma_row_column_apart(map: GameMap)
    requires
        map.wf(),
    ensures
        forall|x1: int, y1: int, x2: int, y2: int|
            map.in_bounds(x1, y1) && map.in_bounds(x2, y2) && #[trigger] tile_index(
                map.width as int,
                x1,
                y1,
            ) == #[trigger] tile_index(map.width as int, x2, y2) ==> x1 == x2 && y1 == y2,
{
    assert forall|x1: int, y1: int, x2: int, y2: int|
        map.in_bounds(x1, y1) && map.in_bounds(x2, y2) && #[trigger] tile_index(
            map.width as int,
            x1,
            y1,
        ) == #[trigger] tile_index(map.width as int, x2, y2) implies x1 == x2 && y1 == y2 by {
        crate::map::lemma_idx_coordinates_inverse(map, x1, y1);
        crate::map::lemma_idx_coordinates_inverse(map, x2, y2);
    }
}

} // verus!
