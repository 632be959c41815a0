//! Components that can be attached to an entity.

use vstd::prelude::*;

verus! {

/// Identifier of an entity in the store.
#[derive(Clone, Copy, PartialEq, Eq, Structural, Debug)]
pub struct Entity {
    /// Index of the entity's slot in the store.
    pub id: u32,
}

impl Entity {
    /// The index of the entity's slot.
    pub fn id(&self) -> (id: u32)
        ensures
            id == self.id,
    {
        self.id
    }
}

/// Position of an entity, or any other point, on the map.
#[derive(Clone, Copy, PartialEq, Eq, Structural, Debug)]
pub struct Position {
    /// X coordinate.
    pub x: i32,
    /// Y coordinate.
    pub y: i32,
}

impl Position {
    /// Creates a position from a tuple of the form `(x, y)`.
    pub fn new_from_tuple(tuple: (i32, i32)) -> (p: Self)
        ensures
            p.x == tuple.0,
            p.y == tuple.1,
    {
        Position { x: tuple.0, y: tuple.1 }
    }

    /// Overwrites both coordinates.
    pub fn update(&mut self, x: i32, y: i32) -> (r: &Self)
        ensures
            final(self).x == x,
            final(self).y == y,
            *r == *final(self),
    {
        self.x = x;
        self.y = y;
        self
    }

    /// Overwrites both coordinates with a tuple of the form `(x, y)`.
    pub fn update_with_tuple(&mut self, tuple: (i32, i32)) -> (r: &Self)
        ensures
            final(self).x == tuple.0,
            final(self).y == tuple.1,
            *r == *final(self),
    {
        self.update(tuple.0, tuple.1)
    }

    /// Whether both coordinates agree with those of `other`.
    pub fn is_equal(&self, other: &Position) -> (b: bool)
        ensures
            b == (*self == *other),
    {
        self.x == other.x && self.y == other.y
    }

    /// Whether the position is the point `(x, y)` given as a tuple.
    pub fn is_equal_to_tuple(&self, tuple: &(i32, i32)) -> (b: bool)
        ensures
            b == (self.x == tuple.0 && self.y == tuple.1),
    {
        self.x == tuple.0 && self.y == tuple.1
    }
}

/// An RGB colour, one byte per channel.
pub type U8Color = (u8, u8, u8);

/// Render information of an entity or tile.
#[derive(Clone, Copy, Debug)]
pub struct Renderable {
    /// Glyph of the entity in code page 437.
    pub symbol: u16,
    /// Foreground colour.
    pub fg: U8Color,
    /// Background colour.
    pub bg: U8Color,
    /// Place in the rendering order; a higher order is painted on top.
    pub order: i32,
}

/// Field of view of an entity.
#[derive(Debug)]
pub struct FOV {
    /// Points that are currently visible.
    pub content: Vec<Position>,
    /// Range of sight.
    pub range: i32,
    /// Whether the content has to be computed anew.
    pub is_dirty: bool,
}

impl FOV {
    /// Marks the field of view as stale.
    pub fn mark_as_dirty(&mut self) -> (r: &Self)
        ensures
            final(self).is_dirty,
            final(self).content == old(self).content,
            final(self).range == old(self).range,
            *r == *final(self),
    {
        self.is_dirty = true;
        self
    }

    /// Marks the field of view as up to date.
    pub fn mark_as_clean(&mut self) -> (r: &Self)
        ensures
            !final(self).is_dirty,
            final(self).content == old(self).content,
            final(self).range == old(self).range,
            *r == *final(self),
    {
        self.is_dirty = false;
        self
    }

    /// Whether `point` is among the visible points.
    pub fn contains(&self, point: &Position) -> (b: bool)
        ensures
            b == self.content@.contains(*point),
    {
        points_contain(&self.content, point)
    }
}

/// Whether `point` occurs in `points`.
pub fn points_contain(points: &Vec<Position>, point: &Position) -> (b: bool)
    ensures
        b == points@.contains(*point),
{
    let mut i: usize = 0;
    while i < points.len()
        invariant
            i <= points.len(),
            forall|j: int| 0 <= j < i ==> points@[j] != *point,
        decreases points.len() - i,
    {
        if points[i].is_equal(point) {
            return true;
        }
        i += 1;
    }
    false
}

/// Combat statistics of an entity.
#[derive(Clone, Copy, PartialEq, Eq, Structural, Debug)]
pub struct Statistics {
    /// Maximum hit points.
    pub hp_max: i32,
    /// Current hit points.
    pub hp: i32,
    /// Attack power.
    pub power: i32,
    /// Defense.
    pub defense: i32,
}

/// Intent of an entity to attack another one in melee.
#[derive(Clone, Copy, PartialEq, Eq, Structural, Debug)]
pub struct MeleeAttack {
    /// The entity that is attacked.
    pub target: Entity,
}

/// Damage an entity has received during the current turn.
#[derive(Debug)]
pub struct DamageCounter {
    /// The pending damage amounts, oldest first.
    pub damage_values: Vec<i32>,
}

/// Name of an entity.
#[derive(Debug)]
pub struct Name {
    /// The name itself.
    pub name: String,
}

/// Sound that is played when the item is used.
#[derive(Debug)]
pub struct SoundEffect {
    /// Path of the audio resource.
    pub resource: String,
}

/// Effect of an item that restores hit points.
#[derive(Clone, Copy, PartialEq, Eq, Structural, Debug)]
pub struct HealingEffect {
    /// Hit points restored by the item.
    pub healing_amount: i32,
}

/// Effect of an item that damages everything on the targeted tile.
#[derive(Clone, Copy, PartialEq, Eq, Structural, Debug)]
pub struct DamageEffect {
    /// Damage dealt to each entity on the tile.
    pub damage_amount: i32,
}

/// Marks an item that is used at a distance, on a selected tile.
#[derive(Clone, Copy, PartialEq, Eq, Structural, Debug)]
pub struct Ranged {
    /// Maximum distance to the target.
    pub range: i32,
}

/// Marks an item as being in the inventory of its owner.
#[derive(Clone, Copy, PartialEq, Eq, Structural, Debug)]
pub struct Loot {
    /// The owner of the item.
    pub owner: Entity,
}

/// Request of an entity to pick up an item.
#[derive(Clone, Copy, PartialEq, Eq, Structural, Debug)]
pub struct PickupItem {
    /// The entity that picks the item up.
    pub collector: Entity,
    /// The item to pick up.
    pub item: Entity,
}

/// Request of an entity to drop an item from its inventory.
#[derive(Clone, Copy, PartialEq, Eq, Structural, Debug)]
pub struct DropItem {
    /// The item to drop.
    pub item: Entity,
}

/// Request of an entity to use an item.
#[derive(Clone, Copy, Debug)]
pub struct UseItem {
    /// The item to use.
    pub item: Entity,
    /// The targeted tile, for items that need one.
    pub target: Option<Position>,
}

} // verus!
