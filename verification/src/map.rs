//! The game map: tile storage, per-tile flags and occupants, and the
//! mapping between coordinates and tile indices.

use vstd::prelude::*;
use vstd::string::StringExecFns;
use crate::components::{Entity, Position};
use crate::rectangle::Rectangle;
use crate::text::{join, join_number, without};

verus! {

/// All tile types of the game.
#[allow(non_camel_case_types)]
#[derive(Clone, Copy, PartialEq, Eq, Structural, Debug)]
pub enum TileType {
    /// Any floor: walkable and transparent.
    FLOOR,
    /// Any wall: blocking and opaque.
    WALL,
}

/// Cost of a step to a neighbour in a cardinal direction, in hundredths.
pub const STRAIGHT_COST: u32 = 100;

/// Cost of a step to a diagonal neighbour, in hundredths.
pub const DIAGONAL_COST: u32 = 145;

/// The map of a level.
#[derive(Debug)]
pub struct GameMap {
    /// Width of the map in tiles.
    pub width: i32,
    /// Height of the map in tiles.
    pub height: i32,
    /// All tiles of the map, row by row.
    pub tiles: Vec<TileType>,
    /// All rooms of the map, in the order in which they were placed.
    pub rooms: Vec<Rectangle>,
    /// For each tile, whether the player has ever seen it.
    pub explored_tiles: Vec<bool>,
    /// For each tile, whether the player sees it now.
    pub tiles_in_fov: Vec<bool>,
    /// For each tile, whether it cannot be walked into.
    pub blocked_tiles: Vec<bool>,
    /// For each tile, the entities that stand on it.
    pub tile_contents: Vec<Vec<Entity>>,
}

/// The index of the tile `(x, y)` on a map of the given width.
pub open spec fn tile_index(width: int, x: int, y: int) -> int {
    y * width + x
}

/// The text of the error for an index outside of a map.
pub open spec fn out_of_bounds_text(idx: int, width: int, height: int) -> Seq<char> {
    "Index "@ + crate::text::decimal_text(idx) + " is out of bounds in map "@
        + crate::text::decimal_text(width) + " * "@ + crate::text::decimal_text(height) + "!"@
}

/// Whether the tile with the index `i` is the one of some point `(x, y)` with
/// `x_lo <= x <= x_hi` and `y_lo <= y <= y_hi`.
pub open spec fn span_covers(width: int, x_lo: int, x_hi: int, y_lo: int, y_hi: int, i: int) -> bool {
    exists|x: int, y: int|
        x_lo <= x <= x_hi && y_lo <= y <= y_hi && #[trigger] tile_index(width, x, y) == i
}

/// The tiles after each point of a span has been turned into floor; with
/// `checked`, the tile with the index 0 is left as it is.
pub open spec fn carve(
    tiles: Seq<TileType>,
    width: int,
    x_lo: int,
    x_hi: int,
    y_lo: int,
    y_hi: int,
    checked: bool,
) -> Seq<TileType> {
    Seq::new(
        tiles.len(),
        |i: int|
            if (!checked || i > 0) && span_covers(width, x_lo, x_hi, y_lo, y_hi, i) {
                TileType::FLOOR
            } else {
                tiles[i]
            },
    )
}

/// The smaller of two numbers.
pub open spec fn lesser(a: int, b: int) -> int {
    if a <= b {
        a
    } else {
        b
    }
}

/// The larger of two numbers.
pub open spec fn greater(a: int, b: int) -> int {
    if a <= b {
        b
    } else {
        a
    }
}

/// The tiles after a corridor has been drawn along the row `y` between the
/// columns `a` and `b`: each of its points that lies on the map, but for the
/// origin, has become floor.
pub open spec fn row_carved(
    tiles: Seq<TileType>,
    width: int,
    height: int,
    a: int,
    b: int,
    y: int,
) -> Seq<TileType> {
    if 0 <= y < height {
        carve(tiles, width, greater(lesser(a, b), 0), lesser(greater(a, b), width - 1), y, y, true)
    } else {
        tiles
    }
}

/// The tiles after a corridor has been drawn along the column `x` between
/// the rows `a` and `b`: each of its points that lies on the map, but for
/// the origin, has become floor.
pub open spec fn column_carved(
    tiles: Seq<TileType>,
    width: int,
    height: int,
    a: int,
    b: int,
    x: int,
) -> Seq<TileType> {
    if 0 <= x < width {
        carve(tiles, width, x, x, greater(lesser(a, b), 0), lesser(greater(a, b), height - 1), true)
    } else {
        tiles
    }
}

impl GameMap {
    /// The number of tiles.
    pub open spec fn area(&self) -> int {
        self.width * self.height
    }

    /// The five per-tile arrays have one entry for each tile.
    pub open spec fn wf(&self) -> bool {
        &&& 0 < self.width
        &&& 0 < self.height
        &&& self.area() <= i32::MAX
        &&& self.tiles@.len() == self.area()
        &&& self.explored_tiles@.len() == self.area()
        &&& self.tiles_in_fov@.len() == self.area()
        &&& self.blocked_tiles@.len() == self.area()
        &&& self.tile_contents@.len() == self.area()
    }

    /// The index of the tile `(x, y)`.
    pub open spec fn spec_idx(&self, x: int, y: int) -> int {
        tile_index(self.width as int, x, y)
    }

    /// Whether `(x, y)` lies inside of the map's rectangle.
    pub open spec fn in_bounds(&self, x: int, y: int) -> bool {
        0 <= x < self.width && 0 <= y < self.height
    }

    /// Whether the index of `(x, y)` is one of a tile.
    pub open spec fn has_tile(&self, x: int, y: int) -> bool {
        0 <= self.spec_idx(x, y) < self.area()
    }

    /// Whether `(x, y)` passes the bounds check: it lies inside of the map's
    /// rectangle, and is not the origin, whose index 0 is never valid.
    pub open spec fn spec_check_idx(&self, x: int, y: int) -> bool {
        self.in_bounds(x, y) && !(x == 0 && y == 0)
    }

    /// Whether `(x, y)` passes the bounds check and its tile is not blocked.
    pub open spec fn spec_walkable(&self, x: int, y: int) -> bool {
        self.spec_check_idx(x, y) && !self.blocked_tiles@[self.spec_idx(x, y)]
    }

    /// The coordinates of the tile with the index `idx`.
    pub open spec fn spec_coordinates(&self, idx: int) -> (int, int) {
        (idx % (self.width as int), idx / (self.width as int))
    }

    /// The exit to `(x, y)`, if that tile is walkable.
    pub open spec fn exit_to(&self, x: int, y: int, cost: u32) -> Seq<(usize, u32)> {
        if self.spec_walkable(x, y) {
            seq![(self.spec_idx(x, y) as usize, cost)]
        } else {
            Seq::empty()
        }
    }

    /// The exits of the tile with the index `idx`: its walkable neighbours,
    /// first in the cardinal directions, then in the diagonal ones, each with
    /// the cost of the step.
    pub open spec fn spec_exits(&self, idx: int) -> Seq<(usize, u32)> {
        let (x, y) = self.spec_coordinates(idx);
        self.exit_to(x - 1, y, STRAIGHT_COST) + self.exit_to(x + 1, y, STRAIGHT_COST)
            + self.exit_to(x, y - 1, STRAIGHT_COST) + self.exit_to(x, y + 1, STRAIGHT_COST)
            + self.exit_to(x - 1, y - 1, DIAGONAL_COST) + self.exit_to(x + 1, y - 1, DIAGONAL_COST)
            + self.exit_to(x - 1, y + 1, DIAGONAL_COST) + self.exit_to(x + 1, y + 1, DIAGONAL_COST)
    }

    /// The index of `(x, y)`, computed without overflow.
    fn wide_idx(&self, x: i32, y: i32) -> (idx: i64)
        requires
            self.wf(),
        ensures
            idx == self.spec_idx(x as int, y as int),
    {
        assert(-0x4000_0000_0000_0000 <= (y as int) * (self.width as int) <= 0x4000_0000_0000_0000)
            by (nonlinear_arith)
            requires
                -0x8000_0000 <= y <= 0x7fff_ffff,
                0 < self.width <= 0x7fff_ffff,
        ;
        (y as i64) * (self.width as i64) + (x as i64)
    }

    /// The number of tiles.
    pub fn tile_count(&self) -> (n: usize)
        requires
            self.wf(),
        ensures
            n == self.area(),
    {
        self.tiles.len()
    }

    /// The largest x coordinate on the map.
    pub fn max_x(&self) -> (x: i32)
        requires
            self.width > i32::MIN,
        ensures
            x == self.width - 1,
    {
        self.width - 1
    }

    /// The largest y coordinate on the map.
    pub fn max_y(&self) -> (y: i32)
        requires
            self.height > i32::MIN,
        ensures
            y == self.height - 1,
    {
        self.height - 1
    }

    /// Maps the coordinates `(x, y)` to the index of their tile.
    pub fn coordinates_to_idx(&self, x: i32, y: i32) -> (idx: usize)
        requires
            self.wf(),
            0 <= self.spec_idx(x as int, y as int) <= usize::MAX,
        ensures
            idx == self.spec_idx(x as int, y as int),
    {
        self.wide_idx(x, y) as usize
    }

    /// Maps the index `idx` back to the coordinates `(x, y)` of its tile.
    pub fn idx_to_coordinates(&self, idx: usize) -> (c: (i32, i32))
        requires
            self.wf(),
            idx <= i32::MAX,
        ensures
            (c.0 as int, c.1 as int) == self.spec_coordinates(idx as int),
    {
        let x: i32 = idx as i32 % self.width;
        let y: i32 = idx as i32 / self.width;
        (x, y)
    }

    /// Checks `(x, y)` against the bounds of the map. Returns the index of the
    /// point if it lies on the map and is not the origin, and the text of the
    /// error otherwise.
    pub fn check_idx_result(&self, x: i32, y: i32) -> (r: Result<usize, String>)
        requires
            self.wf(),
        ensures
            self.spec_check_idx(x as int, y as int) ==> r == Ok::<usize, String>(
                self.spec_idx(x as int, y as int) as usize,
            ),
            !self.spec_check_idx(x as int, y as int) ==> r is Err && r->Err_0@
                == out_of_bounds_text(
                self.spec_idx(x as int, y as int),
                self.width as int,
                self.height as int,
            ),
    {
        let idx: i64 = self.wide_idx(x, y);
        if self.check_idx(x, y) {
            proof {
                lemma_idx_coordinates_inverse(*self, x as int, y as int);
            }
            return Ok(idx as usize);
        }
        let mut err = String::from_str("Index ");
        err = join_number(err, idx);
        err = join(err, " is out of bounds in map ");
        err = join_number(err, self.width as i64);
        err = join(err, " * ");
        err = join_number(err, self.height as i64);
        err = join(err, "!");
        Err(err)
    }

    /// Whether `(x, y)` passes the bounds check: it lies on the map and is not
    /// the origin.
    pub fn check_idx(&self, x: i32, y: i32) -> (b: bool)
        requires
            self.wf(),
        ensures
            b == self.spec_check_idx(x as int, y as int),
    {
        x >= 0 && x < self.width && y >= 0 && y < self.height && !(x == 0 && y == 0)
    }

    /// Whether the index of `(x, y)` is one of a tile.
    pub fn check_has_tile(&self, x: i32, y: i32) -> (b: bool)
        requires
            self.wf(),
        ensures
            b == self.has_tile(x as int, y as int),
    {
        let idx: i64 = self.wide_idx(x, y);
        idx >= 0 && idx < self.tiles.len() as i64
    }

    /// The tile at `(x, y)`.
    pub fn get_tile(&self, x: i32, y: i32) -> (tile: TileType)
        requires
            self.wf(),
            self.has_tile(x as int, y as int),
        ensures
            tile == self.tiles@[self.spec_idx(x as int, y as int)],
    {
        self.tiles[self.coordinates_to_idx(x, y)]
    }

    /// Sets the tile at `(x, y)`.
    pub fn set_tile(&mut self, x: i32, y: i32, tile: TileType) -> (r: &Self)
        requires
            old(self).wf(),
            old(self).has_tile(x as int, y as int),
        ensures
            *final(self) == (GameMap {
                tiles: final(self).tiles,
                ..*old(self)
            }),
            final(self).tiles@ == old(self).tiles@.update(
                old(self).spec_idx(x as int, y as int),
                tile,
            ),
            *r == *final(self),
    {
        let idx = self.coordinates_to_idx(x, y);
        self.tiles[idx] = tile;
        self
    }

    /// Whether the player has ever seen the tile at `(x, y)`.
    pub fn is_tile_explored(&self, x: i32, y: i32) -> (b: bool)
        requires
            self.wf(),
            self.has_tile(x as int, y as int),
        ensures
            b == self.explored_tiles@[self.spec_idx(x as int, y as int)],
    {
        self.explored_tiles[self.coordinates_to_idx(x, y)]
    }

    /// Sets whether the player has ever seen the tile at `(x, y)`.
    pub fn set_explored_tile(&mut self, x: i32, y: i32, explored: bool) -> (r: &Self)
        requires
            old(self).wf(),
            old(self).has_tile(x as int, y as int),
        ensures
            *final(self) == (GameMap {
                explored_tiles: final(self).explored_tiles,
                ..*old(self)
            }),
            final(self).explored_tiles@ == old(self).explored_tiles@.update(
                old(self).spec_idx(x as int, y as int),
                explored,
            ),
            *r == *final(self),
    {
        let idx = self.coordinates_to_idx(x, y);
        self.explored_tiles[idx] = explored;
        self
    }

    /// Whether the player sees the tile at `(x, y)` now.
    pub fn is_tile_in_fov(&self, x: i32, y: i32) -> (b: bool)
        requires
            self.wf(),
            self.has_tile(x as int, y as int),
        ensures
            b == self.tiles_in_fov@[self.spec_idx(x as int, y as int)],
    {
        self.tiles_in_fov[self.coordinates_to_idx(x, y)]
    }

    /// Sets whether the player sees the tile at `(x, y)` now.
    pub fn set_tile_in_fov(&mut self, x: i32, y: i32, is_in_fov: bool) -> (r: &Self)
        requires
            old(self).wf(),
            old(self).has_tile(x as int, y as int),
        ensures
            *final(self) == (GameMap {
                tiles_in_fov: final(self).tiles_in_fov,
                ..*old(self)
            }),
            final(self).tiles_in_fov@ == old(self).tiles_in_fov@.update(
                old(self).spec_idx(x as int, y as int),
                is_in_fov,
            ),
            *r == *final(self),
    {
        let idx = self.coordinates_to_idx(x, y);
        self.tiles_in_fov[idx] = is_in_fov;
        self
    }

    /// Marks every tile as not seen now.
    pub fn reset_tiles_in_fov(&mut self) -> (r: &Self)
        ensures
            *final(self) == (GameMap {
                tiles_in_fov: final(self).tiles_in_fov,
                ..*old(self)
            }),
            final(self).tiles_in_fov@ == Seq::new(
                old(self).tiles_in_fov@.len(),
                |i: int| false,
            ),
            *r == *final(self),
    {
        let mut i: usize = 0;
        while i < self.tiles_in_fov.len()
            invariant
                i <= self.tiles_in_fov.len(),
                *self == (GameMap { tiles_in_fov: self.tiles_in_fov, ..*old(self) }),
                self.tiles_in_fov@.len() == old(self).tiles_in_fov@.len(),
                forall|j: int| 0 <= j < i ==> !self.tiles_in_fov@[j],
            decreases self.tiles_in_fov.len() - i,
        {
            self.tiles_in_fov[i] = false;
            i += 1;
        }
        assert(self.tiles_in_fov@ =~= Seq::new(old(self).tiles_in_fov@.len(), |i: int| false));
        self
    }

    /// Whether the tile at `(x, y)` is blocked.
    pub fn is_tile_blocked(&self, x: i32, y: i32) -> (b: bool)
        requires
            self.wf(),
            self.has_tile(x as int, y as int),
        ensures
            b == self.blocked_tiles@[self.spec_idx(x as int, y as int)],
    {
        self.blocked_tiles[self.coordinates_to_idx(x, y)]
    }

    /// Sets whether the tile at `(x, y)` is blocked.
    pub fn set_tile_is_blocked(&mut self, x: i32, y: i32, blocked: bool) -> (r: &Self)
        requires
            old(self).wf(),
            old(self).has_tile(x as int, y as int),
        ensures
            *final(self) == (GameMap {
                blocked_tiles: final(self).blocked_tiles,
                ..*old(self)
            }),
            final(self).blocked_tiles@ == old(self).blocked_tiles@.update(
                old(self).spec_idx(x as int, y as int),
                blocked,
            ),
            *r == *final(self),
    {
        let idx = self.coordinates_to_idx(x, y);
        self.blocked_tiles[idx] = blocked;
        self
    }

    /// Whether the tile at `(x, y)` can be walked into: the point lies on the
    /// map, is not the origin, and its tile is not blocked.
    pub fn is_tile_walkable(&self, x: i32, y: i32) -> (b: bool)
        requires
            self.wf(),
        ensures
            b == self.spec_walkable(x as int, y as int),
    {
        if self.check_idx(x, y) {
            proof {
                lemma_idx_coordinates_inverse(*self, x as int, y as int);
            }
            let idx: i64 = self.wide_idx(x, y);
            !self.blocked_tiles[idx as usize]
        } else {
            false
        }
    }

    /// The entities on the tile at `(x, y)`.
    pub fn tile_contents_get(&self, x: i32, y: i32) -> (entities: &Vec<Entity>)
        requires
            self.wf(),
            self.has_tile(x as int, y as int),
        ensures
            *entities == self.tile_contents@[self.spec_idx(x as int, y as int)],
    {
        &self.tile_contents[self.coordinates_to_idx(x, y)]
    }

    /// Adds `entity` to the entities on the tile at `(x, y)`.
    pub fn tile_contents_push(&mut self, x: i32, y: i32, entity: Entity) -> (r: &Self)
        requires
            old(self).wf(),
            old(self).has_tile(x as int, y as int),
        ensures
            *final(self) == (GameMap {
                tile_contents: final(self).tile_contents,
                ..*old(self)
            }),
            final(self).tile_contents@.len() == old(self).tile_contents@.len(),
            forall|i: int|
                0 <= i < old(self).area() && i != old(self).spec_idx(x as int, y as int)
                    ==> final(self).tile_contents@[i] == old(self).tile_contents@[i],
            final(self).tile_contents@[old(self).spec_idx(x as int, y as int)]@ == old(
                self,
            ).tile_contents@[old(self).spec_idx(x as int, y as int)]@.push(entity),
            *r == *final(self),
    {
        let idx = self.coordinates_to_idx(x, y);
        self.tile_contents[idx].push(entity);
        self
    }

    /// Removes `entity` from the entities on the tile at `(x, y)`.
    pub fn tile_contents_remove(&mut self, x: i32, y: i32, entity: Entity) -> (r: &Self)
        requires
            old(self).wf(),
            old(self).has_tile(x as int, y as int),
        ensures
            *final(self) == (GameMap {
                tile_contents: final(self).tile_contents,
                ..*old(self)
            }),
            final(self).tile_contents@.len() == old(self).tile_contents@.len(),
            forall|i: int|
                0 <= i < old(self).area() && i != old(self).spec_idx(x as int, y as int)
                    ==> final(self).tile_contents@[i] == old(self).tile_contents@[i],
            final(self).tile_contents@[old(self).spec_idx(x as int, y as int)]@ == without(
                old(self).tile_contents@[old(self).spec_idx(x as int, y as int)]@,
                entity,
            ),
            *r == *final(self),
    {
        let idx = self.coordinates_to_idx(x, y);
        let mut kept: Vec<Entity> = Vec::new();
        let mut i: usize = 0;
        let ghost before = self.tile_contents@[idx as int]@;
        while i < self.tile_contents[idx].len()
            invariant
                idx < self.tile_contents@.len(),
                *self == *old(self),
                before == self.tile_contents@[idx as int]@,
                i <= before.len(),
                kept@ == without(before.take(i as int), entity),
            decreases before.len() - i,
        {
            proof {
                assert(before.take(i as int + 1).drop_last() =~= before.take(i as int));
            }
            let element = self.tile_contents[idx][i];
            if element != entity {
                kept.push(element);
            }
            i += 1;
        }
        assert(before.take(i as int) =~= before);
        self.tile_contents[idx] = kept;
        self
    }

    /// Removes the entities from every tile.
    pub fn clear_tile_contents(&mut self) -> (r: &Self)
        ensures
            *final(self) == (GameMap {
                tile_contents: final(self).tile_contents,
                ..*old(self)
            }),
            final(self).tile_contents@.len() == old(self).tile_contents@.len(),
            forall|i: int|
                0 <= i < final(self).tile_contents@.len() ==> final(self).tile_contents@[i]@
                    == Seq::<Entity>::empty(),
            *r == *final(self),
    {
        let mut i: usize = 0;
        while i < self.tile_contents.len()
            invariant
                i <= self.tile_contents.len(),
                *self == (GameMap { tile_contents: self.tile_contents, ..*old(self) }),
                self.tile_contents@.len() == old(self).tile_contents@.len(),
                forall|j: int| 0 <= j < i ==> self.tile_contents@[j]@ == Seq::<Entity>::empty(),
            decreases self.tile_contents.len() - i,
        {
            self.tile_contents[i].clear();
            i += 1;
        }
        self
    }

    /// Recomputes the blocked flags from the tiles alone: a tile is blocked
    /// exactly if it is a wall.
    pub fn refresh_blocked_tiles(&mut self) -> (r: &Self)
        requires
            old(self).wf(),
        ensures
            *final(self) == (GameMap {
                blocked_tiles: final(self).blocked_tiles,
                ..*old(self)
            }),
            final(self).blocked_tiles@ == Seq::new(
                old(self).tiles@.len(),
                |i: int| old(self).tiles@[i] == TileType::WALL,
            ),
            *r == *final(self),
    {
        let mut i: usize = 0;
        while i < self.tiles.len()
            invariant
                i <= self.tiles.len(),
                *self == (GameMap { blocked_tiles: self.blocked_tiles, ..*old(self) }),
                self.blocked_tiles@.len() == self.tiles@.len(),
                forall|j: int|
                    0 <= j < i ==> self.blocked_tiles@[j] == (self.tiles@[j] == TileType::WALL),
            decreases self.tiles.len() - i,
        {
            self.blocked_tiles[i] = self.tiles[i] == TileType::WALL;
            i += 1;
        }
        assert(self.blocked_tiles@ =~= Seq::new(
            old(self).tiles@.len(),
            |i: int| old(self).tiles@[i] == TileType::WALL,
        ));
        self
    }
    /// Whether every point of the span has a tile.
    pub open spec fn span_has_tiles(&self, x_lo: int, x_hi: int, y_lo: int, y_hi: int) -> bool {
        forall|x: int, y: int|
            x_lo <= x <= x_hi && y_lo <= y <= y_hi ==> 0 <= #[trigger] tile_index(
                self.width as int,
                x,
                y,
            ) < self.area()
    }

    /// Whether `tiles` are the map's tiles after the span has been carved.
    pub open spec fn tiles_carved(
        &self,
        tiles: Seq<TileType>,
        x_lo: int,
        x_hi: int,
        y_lo: int,
        y_hi: int,
        checked: bool,
    ) -> bool {
        &&& tiles.len() == self.tiles@.len()
        &&& forall|i: int|
            0 <= i < self.tiles@.len() ==> #[trigger] tiles[i] == if (!checked || i > 0)
                && span_covers(self.width as int, x_lo, x_hi, y_lo, y_hi, i) {
                TileType::FLOOR
            } else {
                self.tiles@[i]
            }
    }

    /// Turns the tiles `(x, y)` with `y_lo <= y <= y_hi` into floor. With
    /// `checked`, points whose index fails the bounds check are passed over.
    fn fill_column(&mut self, x: i32, y_lo: i64, y_hi: i64, checked: bool)
        requires
            old(self).wf(),
            i32::MIN <= y_lo,
            y_hi <= i32::MAX,
            !checked ==> old(self).span_has_tiles(x as int, x as int, y_lo as int, y_hi as int),
        ensures
            *final(self) == (GameMap { tiles: final(self).tiles, ..*old(self) }),
            old(self).tiles_carved(
                final(self).tiles@,
                x as int,
                x as int,
                y_lo as int,
                y_hi as int,
                checked,
            ),
    {
        let mut y: i64 = y_lo;
        while y <= y_hi
            invariant
                old(self).wf(),
                i32::MIN <= y_lo <= y,
                y <= y_hi + 1 || y == y_lo,
                y_hi <= i32::MAX,
                !checked ==> old(self).span_has_tiles(
                    x as int,
                    x as int,
                    y_lo as int,
                    y_hi as int,
                ),
                *self == (GameMap { tiles: self.tiles, ..*old(self) }),
                old(self).tiles_carved(
                    self.tiles@,
                    x as int,
                    x as int,
                    y_lo as int,
                    y - 1,
                    checked,
                ),
            decreases y_hi + 1 - y,
        {
            let ghost before = self.tiles@;
            let idx: i64 = self.wide_idx(x, y as i32);
            assert(idx == tile_index(self.width as int, x as int, y as int));
            if !checked || (idx > 0 && idx < self.tiles.len() as i64) {
                self.tiles[idx as usize] = TileType::FLOOR;
            }
            proof {
                let w = self.width as int;
                assert forall|i: int| 0 <= i < self.tiles@.len() implies #[trigger] self.tiles@[i]
                    == if (!checked || i > 0) && span_covers(
                    w,
                    x as int,
                    x as int,
                    y_lo as int,
                    y as int,
                    i,
                ) {
                    TileType::FLOOR
                } else {
                    old(self).tiles@[i]
                } by {
                    let now = span_covers(w, x as int, x as int, y_lo as int, y as int, i);
                    let was = span_covers(w, x as int, x as int, y_lo as int, y - 1, i);
                    if was {
                        let (wx, wy) = choose|wx: int, wy: int|
                            x <= wx <= x && y_lo <= wy <= y - 1 && #[trigger] tile_index(w, wx, wy)
                                == i;
                        assert(tile_index(w, wx, wy) == i);
                        assert(now);
                    }
                    if i == idx {
                        assert(now);
                    }
                    if now && i != idx {
                        let (wx, wy) = choose|wx: int, wy: int|
                            x <= wx <= x && y_lo <= wy <= y && #[trigger] tile_index(w, wx, wy)
                                == i;
                        assert(wy != y);
                        assert(tile_index(w, wx, wy) == i);
                        assert(was);
                    }
                    assert(before[i] == if (!checked || i > 0) && was {
                        TileType::FLOOR
                    } else {
                        old(self).tiles@[i]
                    });
                }
            }
            y += 1;
        }
    }

    /// Turns the tiles `(x, y)` with `x_lo <= x <= x_hi` into floor. With
    /// `checked`, points whose index fails the bounds check are passed over.
    fn fill_row(&mut self, x_lo: i64, x_hi: i64, y: i32, checked: bool)
        requires
            old(self).wf(),
            i32::MIN <= x_lo,
            x_hi <= i32::MAX,
            !checked ==> old(self).span_has_tiles(x_lo as int, x_hi as int, y as int, y as int),
        ensures
            *final(self) == (GameMap { tiles: final(self).tiles, ..*old(self) }),
            old(self).tiles_carved(
                final(self).tiles@,
                x_lo as int,
                x_hi as int,
                y as int,
                y as int,
                checked,
            ),
    {
        let mut x: i64 = x_lo;
        while x <= x_hi
            invariant
                old(self).wf(),
                i32::MIN <= x_lo <= x,
                x <= x_hi + 1 || x == x_lo,
                x_hi <= i32::MAX,
                !checked ==> old(self).span_has_tiles(
                    x_lo as int,
                    x_hi as int,
                    y as int,
                    y as int,
                ),
                *self == (GameMap { tiles: self.tiles, ..*old(self) }),
                old(self).tiles_carved(
                    self.tiles@,
                    x_lo as int,
                    x - 1,
                    y as int,
                    y as int,
                    checked,
                ),
            decreases x_hi + 1 - x,
        {
            let ghost before = self.tiles@;
            let idx: i64 = self.wide_idx(x as i32, y);
            assert(idx == tile_index(self.width as int, x as int, y as int));
            if !checked || (idx > 0 && idx < self.tiles.len() as i64) {
                self.tiles[idx as usize] = TileType::FLOOR;
            }
            proof {
                let w = self.width as int;
                assert forall|i: int| 0 <= i < self.tiles@.len() implies #[trigger] self.tiles@[i]
                    == if (!checked || i > 0) && span_covers(
                    w,
                    x_lo as int,
                    x as int,
                    y as int,
                    y as int,
                    i,
                ) {
                    TileType::FLOOR
                } else {
                    old(self).tiles@[i]
                } by {
                    let now = span_covers(w, x_lo as int, x as int, y as int, y as int, i);
                    let was = span_covers(w, x_lo as int, x - 1, y as int, y as int, i);
                    if was {
                        let (wx, wy) = choose|wx: int, wy: int|
                            x_lo <= wx <= x - 1 && y <= wy <= y && #[trigger] tile_index(w, wx, wy)
                                == i;
                        assert(tile_index(w, wx, wy) == i);
                        assert(now);
                    }
                    if i == idx {
                        assert(now);
                    }
                    if now && i != idx {
                        let (wx, wy) = choose|wx: int, wy: int|
                            x_lo <= wx <= x && y <= wy <= y && #[trigger] tile_index(w, wx, wy)
                                == i;
                        assert(wx != x);
                        assert(tile_index(w, wx, wy) == i);
                        assert(was);
                    }
                    assert(before[i] == if (!checked || i > 0) && was {
                        TileType::FLOOR
                    } else {
                        old(self).tiles@[i]
                    });
                }
            }
            x += 1;
        }
    }

    /// Draws `room` on the map: every tile `(x, y)` with `left < x <= right` and
    /// `top < y <= bottom` becomes floor.
    pub fn draw_room(&mut self, room: &Rectangle) -> (r: &Self)
        requires
            old(self).wf(),
            old(self).span_has_tiles(
                room.left + 1,
                room.right as int,
                room.top + 1,
                room.bottom as int,
            ),
        ensures
            *final(self) == (GameMap { tiles: final(self).tiles, ..*old(self) }),
            final(self).tiles@ == carve(
                old(self).tiles@,
                old(self).width as int,
                room.left + 1,
                room.right as int,
                room.top + 1,
                room.bottom as int,
                false,
            ),
            *r == *final(self),
    {
        let x_lo: i64 = room.left as i64 + 1;
        let y_lo: i64 = room.top as i64 + 1;
        let y_hi: i64 = room.bottom as i64;
        let mut x: i64 = x_lo;
        if y_lo <= y_hi {
            while x <= room.right as i64
                invariant
                    old(self).wf(),
                    x_lo == room.left + 1,
                    y_lo == room.top + 1,
                    y_hi == room.bottom,
                    y_lo <= y_hi,
                    x_lo <= x,
                    x <= room.right + 1 || x == x_lo,
                    old(self).span_has_tiles(x_lo as int, room.right as int, y_lo as int, y_hi as int),
                    *self == (GameMap { tiles: self.tiles, ..*old(self) }),
                    old(self).tiles_carved(
                        self.tiles@,
                        x_lo as int,
                        x - 1,
                        y_lo as int,
                        y_hi as int,
                        false,
                    ),
                decreases room.right + 1 - x,
            {
                let ghost before = *self;
                assert(self.span_has_tiles(x as int, x as int, y_lo as int, y_hi as int)) by {
                    assert forall|px: int, py: int|
                        x <= px <= x && y_lo <= py <= y_hi implies 0 <= #[trigger] tile_index(
                        self.width as int,
                        px,
                        py,
                    ) < self.area() by {
                        assert(x_lo <= px <= room.right);
                    }
                }
                self.fill_column(x as i32, y_lo, y_hi, false);
                proof {
                    let w = self.width as int;
                    assert forall|i: int| 0 <= i < self.tiles@.len() implies #[trigger] self.tiles@[i]
                        == if span_covers(w, x_lo as int, x as int, y_lo as int, y_hi as int, i) {
                        TileType::FLOOR
                    } else {
                        old(self).tiles@[i]
                    } by {
                        let now = span_covers(w, x_lo as int, x as int, y_lo as int, y_hi as int, i);
                        let was = span_covers(w, x_lo as int, x - 1, y_lo as int, y_hi as int, i);
                        let col = span_covers(w, x as int, x as int, y_lo as int, y_hi as int, i);
                        if was {
                            let (wx, wy) = choose|wx: int, wy: int|
                                x_lo <= wx <= x - 1 && y_lo <= wy <= y_hi && #[trigger] tile_index(
                                    w,
                                    wx,
                                    wy,
                                ) == i;
                            assert(tile_index(w, wx, wy) == i);
                            assert(now);
                        }
                        if col {
                            let (wx, wy) = choose|wx: int, wy: int|
                                x <= wx <= x && y_lo <= wy <= y_hi && #[trigger] tile_index(
                                    w,
                                    wx,
                                    wy,
                                ) == i;
                            assert(tile_index(w, wx, wy) == i);
                            assert(now);
                        }
                        if now {
                            let (wx, wy) = choose|wx: int, wy: int|
                                x_lo <= wx <= x && y_lo <= wy <= y_hi && #[trigger] tile_index(
                                    w,
                                    wx,
                                    wy,
                                ) == i;
                            assert(tile_index(w, wx, wy) == i);
                            assert(was || col);
                        }
                        assert(before.tiles@[i] == if was {
                            TileType::FLOOR
                        } else {
                            old(self).tiles@[i]
                        });
                    }
                }
                x += 1;
            }
        }
        proof {
            let w = self.width as int;
            if y_lo > y_hi {
                assert forall|i: int| 0 <= i < self.tiles@.len() implies !span_covers(
                    w,
                    x_lo as int,
                    room.right as int,
                    y_lo as int,
                    y_hi as int,
                    i,
                ) by {}
            }
            assert(self.tiles@ =~= carve(
                old(self).tiles@,
                w,
                room.left + 1,
                room.right as int,
                room.top + 1,
                room.bottom as int,
                false,
            ));
        }
        self
    }

    /// Draws each of `rooms` on the map.
    pub fn draw_rooms(&mut self, rooms: &[&Rectangle]) -> (r: &Self)
        requires
            old(self).wf(),
            forall|k: int|
                0 <= k < rooms@.len() ==> old(self).span_has_tiles(
                    #[trigger] rooms@[k].left + 1,
                    rooms@[k].right as int,
                    rooms@[k].top + 1,
                    rooms@[k].bottom as int,
                ),
        ensures
            *final(self) == (GameMap { tiles: final(self).tiles, ..*old(self) }),
            final(self).tiles@.len() == old(self).tiles@.len(),
            forall|i: int|
                0 <= i < old(self).tiles@.len() ==> #[trigger] final(self).tiles@[i] == if exists|
                    k: int,
                |
                    0 <= k < rooms@.len() && span_covers(
                        old(self).width as int,
                        #[trigger] rooms@[k].left + 1,
                        rooms@[k].right as int,
                        rooms@[k].top + 1,
                        rooms@[k].bottom as int,
                        i,
                    ) {
                    TileType::FLOOR
                } else {
                    old(self).tiles@[i]
                },
            *r == *final(self),
    {
        let mut n: usize = 0;
        while n < rooms.len()
            invariant
                n <= rooms@.len(),
                self.wf(),
                forall|k: int|
                    0 <= k < rooms@.len() ==> old(self).span_has_tiles(
                        #[trigger] rooms@[k].left + 1,
                        rooms@[k].right as int,
                        rooms@[k].top + 1,
                        rooms@[k].bottom as int,
                    ),
                *self == (GameMap { tiles: self.tiles, ..*old(self) }),
                self.tiles@.len() == old(self).tiles@.len(),
                forall|i: int|
                    0 <= i < old(self).tiles@.len() ==> #[trigger] self.tiles@[i] == if exists|
                        k: int,
                    |
                        0 <= k < n && span_covers(
                            old(self).width as int,
                            #[trigger] rooms@[k].left + 1,
                            rooms@[k].right as int,
                            rooms@[k].top + 1,
                            rooms@[k].bottom as int,
                            i,
                        ) {
                        TileType::FLOOR
                    } else {
                        old(self).tiles@[i]
                    },
            decreases rooms@.len() - n,
        {
            assert(old(self).span_has_tiles(
                rooms@[n as int].left + 1,
                rooms@[n as int].right as int,
                rooms@[n as int].top + 1,
                rooms@[n as int].bottom as int,
            ));
            self.draw_room(rooms[n]);
            n += 1;
        }
        self
    }

    /// Draws a corridor along the row `y` between the columns `start_x` and
    /// `end_x`: each of its points that passes the bounds check becomes floor.
    pub fn draw_horizontal_intersection(&mut self, start_x: i32, end_x: i32, y: i32) -> (r: &Self)
        requires
            old(self).wf(),
        ensures
            *final(self) == (GameMap { tiles: final(self).tiles, ..*old(self) }),
            final(self).tiles@ == row_carved(
                old(self).tiles@,
                old(self).width as int,
                old(self).height as int,
                start_x as int,
                end_x as int,
                y as int,
            ),
            *r == *final(self),
    {
        if y >= 0 && y < self.height {
            let first: i32 = if start_x <= end_x { start_x } else { end_x };
            let last: i32 = if start_x <= end_x { end_x } else { start_x };
            let lo: i32 = if first > 0 { first } else { 0 };
            let hi: i32 = if last < self.width - 1 { last } else { self.width - 1 };
            self.fill_row(lo as i64, hi as i64, y, true);
            assert(self.tiles@ =~= carve(
                old(self).tiles@,
                old(self).width as int,
                lo as int,
                hi as int,
                y as int,
                y as int,
                true,
            ));
        }
        self
    }

    /// Draws a corridor along the column `x` between the rows `start_y` and
    /// `end_y`: each of its points that passes the bounds check becomes floor.
    pub fn draw_vertical_intersection(&mut self, start_y: i32, end_y: i32, x: i32) -> (r: &Self)
        requires
            old(self).wf(),
        ensures
            *final(self) == (GameMap { tiles: final(self).tiles, ..*old(self) }),
            final(self).tiles@ == column_carved(
                old(self).tiles@,
                old(self).width as int,
                old(self).height as int,
                start_y as int,
                end_y as int,
                x as int,
            ),
            *r == *final(self),
    {
        if x >= 0 && x < self.width {
            let first: i32 = if start_y <= end_y { start_y } else { end_y };
            let last: i32 = if start_y <= end_y { end_y } else { start_y };
            let lo: i32 = if first > 0 { first } else { 0 };
            let hi: i32 = if last < self.height - 1 { last } else { self.height - 1 };
            self.fill_column(x, lo as i64, hi as i64, true);
            assert(self.tiles@ =~= carve(
                old(self).tiles@,
                old(self).width as int,
                x as int,
                x as int,
                lo as int,
                hi as int,
                true,
            ));
        }
        self
    }

    /// Creates a map on which every tile is `tile`, nothing is explored, seen
    /// or blocked, and no tile has an entity on it.
    pub fn new_filled(width: i32, height: i32, tile: TileType) -> (map: Self)
        requires
            0 < width,
            0 < height,
            width * height <= i32::MAX,
        ensures
            map.wf(),
            map.width == width,
            map.height == height,
            map.rooms@ == Seq::<Rectangle>::empty(),
            forall|i: int| 0 <= i < map.area() ==> #[trigger] map.tiles@[i] == tile,
            forall|i: int| 0 <= i < map.area() ==> !#[trigger] map.explored_tiles@[i],
            forall|i: int| 0 <= i < map.area() ==> !#[trigger] map.tiles_in_fov@[i],
            forall|i: int| 0 <= i < map.area() ==> !#[trigger] map.blocked_tiles@[i],
            forall|i: int|
                0 <= i < map.area() ==> (#[trigger] map.tile_contents@[i])@ == Seq::<
                    Entity,
                >::empty(),
    {
        let count: usize = (width as i64 * height as i64) as usize;
        let mut tile_contents: Vec<Vec<Entity>> = Vec::new();
        let mut i: usize = 0;
        while i < count
            invariant
                i <= count,
                tile_contents@.len() == i,
                forall|j: int| 0 <= j < i ==> (#[trigger] tile_contents@[j])@ == Seq::<
                    Entity,
                >::empty(),
            decreases count - i,
        {
            tile_contents.push(Vec::new());
            i += 1;
        }
        GameMap {
            width,
            height,
            tiles: vec![tile; count],
            rooms: Vec::new(),
            explored_tiles: vec![false; count],
            tiles_in_fov: vec![false; count],
            blocked_tiles: vec![false; count],
            tile_contents,
        }
    }

    /// The exit to `(x, y)` as a list: the tile's index and `cost` if the tile
    /// is walkable, and nothing otherwise.
    fn push_exit(&self, exits: &mut Vec<(usize, u32)>, x: i64, y: i64, cost: u32)
        requires
            self.wf(),
            -1 <= x <= i32::MAX,
            -1 <= y <= i32::MAX + 1,
        ensures
            final(exits)@ == old(exits)@ + self.exit_to(x as int, y as int, cost),
    {
        if x <= i32::MAX as i64 && y <= i32::MAX as i64 {
            if self.is_tile_walkable(x as i32, y as i32) {
                proof {
                    lemma_idx_coordinates_inverse(*self, x as int, y as int);
                }
                let idx: i64 = self.wide_idx(x as i32, y as i32);
                exits.push((idx as usize, cost));
                assert(exits@ =~= old(exits)@ + self.exit_to(x as int, y as int, cost));
                return ;
            }
        }
        assert(exits@ =~= old(exits)@ + self.exit_to(x as int, y as int, cost));
    }

    /// The tiles that can be reached in one step from the tile with the index
    /// `idx`, each with the cost of the step in hundredths: walkable
    /// neighbours only, the cardinal directions before the diagonal ones.
    pub fn get_available_exits(&self, idx: usize) -> (exits: Vec<(usize, u32)>)
        requires
            self.wf(),
            idx <= i32::MAX,
        ensures
            exits@ == self.spec_exits(idx as int),
    {
        let c = self.idx_to_coordinates(idx);
        let x: i64 = c.0 as i64;
        let y: i64 = c.1 as i64;
        let mut exits: Vec<(usize, u32)> = Vec::new();
        assert(exits@ =~= Seq::<(usize, u32)>::empty());
        self.push_exit(&mut exits, x - 1, y, STRAIGHT_COST);
        self.push_exit(&mut exits, x + 1, y, STRAIGHT_COST);
        self.push_exit(&mut exits, x, y - 1, STRAIGHT_COST);
        self.push_exit(&mut exits, x, y + 1, STRAIGHT_COST);
        self.push_exit(&mut exits, x - 1, y - 1, DIAGONAL_COST);
        self.push_exit(&mut exits, x + 1, y - 1, DIAGONAL_COST);
        self.push_exit(&mut exits, x - 1, y + 1, DIAGONAL_COST);
        self.push_exit(&mut exits, x + 1, y + 1, DIAGONAL_COST);
        assert(exits@ =~= self.spec_exits(idx as int));
        exits
    }

    /// The square of the straight-line distance between the tiles with the
    /// indices `idx1` and `idx2`.
    pub fn get_pathing_distance_squared(&self, idx1: usize, idx2: usize) -> (d: u64)
        requires
            self.wf(),
            idx1 <= i32::MAX,
            idx2 <= i32::MAX,
        ensures
            d == spec_distance_squared(
                self.spec_coordinates(idx1 as int),
                self.spec_coordinates(idx2 as int),
            ),
    {
        let a = self.idx_to_coordinates(idx1);
        let b = self.idx_to_coordinates(idx2);
        let d = distance_squared(&Position { x: a.0, y: a.1 }, &Position { x: b.0, y: b.1 });
        proof {
            let dx = a.0 - b.0;
            let dy = a.1 - b.1;
            assert(0 <= a.0 && 0 <= a.1 && 0 <= b.0 && 0 <= b.1) by (nonlinear_arith)
                requires
                    0 < self.width,
                    a.0 == (idx1 as int) % (self.width as int),
                    a.1 == (idx1 as int) / (self.width as int),
                    b.0 == (idx2 as int) % (self.width as int),
                    b.1 == (idx2 as int) / (self.width as int),
            ;
            assert(dx * dx <= 0x7fff_ffff * 0x7fff_ffff) by (nonlinear_arith)
                requires
                    -0x7fff_ffff <= dx <= 0x7fff_ffff,
            ;
            assert(dy * dy <= 0x7fff_ffff * 0x7fff_ffff) by (nonlinear_arith)
                requires
                    -0x7fff_ffff <= dy <= 0x7fff_ffff,
            ;
        }
        d as u64
    }
}

/// The square of the straight-line distance between two points.
pub open spec fn spec_distance_squared(a: (int, int), b: (int, int)) -> int {
    (a.0 - b.0) * (a.0 - b.0) + (a.1 - b.1) * (a.1 - b.1)
}

/// The square of the straight-line distance between `start` and `end`.
pub fn distance_squared(start: &Position, end: &Position) -> (d: u128)
    ensures
        d == spec_distance_squared(
            (start.x as int, start.y as int),
            (end.x as int, end.y as int),
        ),
{
    let dx: i64 = start.x as i64 - end.x as i64;
    let dy: i64 = start.y as i64 - end.y as i64;
    let ax: u128 = if dx < 0 { (-dx) as u128 } else { dx as u128 };
    let ay: u128 = if dy < 0 { (-dy) as u128 } else { dy as u128 };
    assert(ax * ax <= 0xffff_ffff * 0xffff_ffff) by (nonlinear_arith)
        requires
            ax <= 0xffff_ffff,
    ;
    assert(ay * ay <= 0xffff_ffff * 0xffff_ffff) by (nonlinear_arith)
        requires
            ay <= 0xffff_ffff,
    ;
    assert(ax * ax == (start.x - end.x) * (start.x - end.x)) by (nonlinear_arith)
        requires
            ax == start.x - end.x || ax == -(start.x - end.x),
    ;
    assert(ay * ay == (start.y - end.y) * (start.y - end.y)) by (nonlinear_arith)
        requires
            ay == start.y - end.y || ay == -(start.y - end.y),
    ;
    ax * ax + ay * ay
}

/// The point type of `rltk`. Its fields are not read here.
#[verifier::external_type_specification]
#[verifier::external_body]
pub struct ExPoint(rltk::Point);

impl rltk::BaseMap for GameMap {
    /// Whether sight ends at the tile with the index `idx`: it is a wall, or
    /// no tile at all.
    fn is_opaque(&self, idx: usize) -> (b: bool)
        ensures
            b == (idx >= self.tiles@.len() || self.tiles@[idx as int] == TileType::WALL),
    {
        idx >= self.tiles.len() || self.tiles[idx] == TileType::WALL
    }
}

impl rltk::Algorithm2D for GameMap {
    /// Calls `Point::new` with the width and the height of the map. Nothing is
    /// claimed of the point here.
    #[verifier::external_body]
    fn dimensions(&self) -> rltk::Point {
        rltk::Point::new(self.width, self.height)
    }
}

/// Mapping coordinates on the map to an index and back gives the coordinates.
pub proof fn lemma_idx_coordinates_inverse(map: GameMap, x: int, y: int)
    requires
        map.wf(),
        map.in_bounds(x, y),
    ensures
        map.has_tile(x, y),
        map.spec_coordinates(map.spec_idx(x, y)) == (x, y),
{
    let w = map.width as int;
    assert(0 <= y * w + x < w * map.height) by (nonlinear_arith)
        requires
            0 <= x < w,
            0 <= y < map.height,
    ;
    vstd::arithmetic::div_mod::lemma_fundamental_div_mod_converse(y * w + x, w, y, x);
}

/// Mapping the index of a tile to coordinates and back gives the index.
pub proof fn lemma_coordinates_idx_inverse(map: GameMap, idx: int)
    requires
        map.wf(),
        0 <= idx < map.area(),
    ensures
        map.in_bounds(map.spec_coordinates(idx).0, map.spec_coordinates(idx).1),
        map.spec_idx(map.spec_coordinates(idx).0, map.spec_coordinates(idx).1) == idx,
{
    let w = map.width as int;
    vstd::arithmetic::div_mod::lemma_fundamental_div_mod(idx, w);
    assert(idx / w < map.height) by (nonlinear_arith)
        requires
            0 <= idx < w * map.height,
            0 < w,
            idx == w * (idx / w) + idx % w,
            0 <= idx % w < w,
    ;
    assert(0 <= idx / w) by (nonlinear_arith)
        requires
            0 <= idx,
            0 < w,
    ;
    assert((idx / w) * w == w * (idx / w)) by (nonlinear_arith);
}

} // verus!
