//! Factory for the entities of the game.

use vstd::prelude::*;
use vstd::string::StringExecFns;
use crate::components::{
    DamageEffect, Entity, HealingEffect, Name, Position, Ranged, Renderable, SoundEffect,
    Statistics, FOV,
};
use crate::rng;
use crate::store::Components;
use crate::swatch::{self, ColorPair};
use crate::text::join;
use crate::tile_factory::{cp437, glyph};
use crate::world::World;

verus! {

/// The range of sight of the player and of the monsters.
pub const SIGHT: i32 = 8;

/// The sound of a potion that is drunk.
pub const DRINKING_WAV: &'static str = "resources/sfx/drinking.wav";

/// The sound of magic missiles.
pub const MAGIC_MISSILES_WAV: &'static str = "resources/sfx/magic_missiles.wav";

/// Whether `renderable` shows the glyph of `symbol` in the colours of
/// `colors`, at the given place in the rendering order.
pub open spec fn drawn_as(renderable: Option<Renderable>, symbol: char, colors: ColorPair, order: int) -> bool {
    &&& renderable is Some
    &&& renderable->0.symbol == cp437(symbol)
    &&& renderable->0.fg == colors.0
    &&& renderable->0.bg == colors.1
    &&& renderable->0.order == order
}

/// Whether `fov` is a fresh field of view: empty, stale, with the usual
/// range of sight.
pub open spec fn fresh_sight(fov: Option<FOV>) -> bool {
    &&& fov is Some
    &&& fov->0.content@ == Seq::<Position>::empty()
    &&& fov->0.range == SIGHT
    &&& fov->0.is_dirty
}

/// Whether `c` are the components of a new player at `position`.
pub open spec fn is_player_kit(c: Components, position: Position) -> bool {
    &&& c.position == Some(position)
    &&& drawn_as(c.renderable, '@', swatch::PLAYER, 0)
    &&& c.player
    &&& fresh_sight(c.fov)
    &&& c.name is Some
    &&& c.name->0.name@ == "Rouge"@
    &&& c.statistics == Some(Statistics { hp_max: 30, hp: 30, power: 5, defense: 3 })
    &&& (Components {
        position: None,
        renderable: None,
        player: false,
        fov: None,
        name: None,
        statistics: None,
        ..c
    }).is_bare()
}

/// Whether `c` are the components of a new monster with the given name,
/// look and statistics at `position`.
pub open spec fn is_monster_kit(
    c: Components,
    position: Position,
    name: Seq<char>,
    symbol: char,
    colors: ColorPair,
    statistics: Statistics,
) -> bool {
    &&& c.position == Some(position)
    &&& drawn_as(c.renderable, symbol, colors, 1)
    &&& c.name is Some
    &&& c.name->0.name@ == name
    &&& c.statistics == Some(statistics)
    &&& fresh_sight(c.fov)
    &&& c.monster
    &&& c.collision
    &&& (Components {
        position: None,
        renderable: None,
        name: None,
        statistics: None,
        fov: None,
        monster: false,
        collision: false,
        ..c
    }).is_bare()
}

/// The statistics of a goblin.
pub open spec fn goblin_statistics() -> Statistics {
    Statistics { hp_max: 10, hp: 10, power: 2, defense: 1 }
}

/// The statistics of a gremlin.
pub open spec fn gremlin_statistics() -> Statistics {
    Statistics { hp_max: 16, hp: 16, power: 4, defense: 2 }
}

/// The text of an optional suffix: empty without one.
pub open spec fn suffix_text(suffix: Option<String>) -> Seq<char> {
    match suffix {
        Some(suffix) => suffix@,
        None => Seq::empty(),
    }
}

/// Whether `c` are the components of a new goblin at `position`.
pub open spec fn is_goblin_kit(c: Components, position: Position, suffix: Seq<char>) -> bool {
    is_monster_kit(c, position, "Goblin"@ + suffix, 'o', swatch::GOBLIN, goblin_statistics())
}

/// Whether `c` are the components of a new gremlin at `position`.
pub open spec fn is_gremlin_kit(c: Components, position: Position, suffix: Seq<char>) -> bool {
    is_monster_kit(c, position, "Gremlin"@ + suffix, 'g', swatch::GREMLIN, gremlin_statistics())
}

/// Whether `c` are the components of a new health potion at `position`.
pub open spec fn is_potion_kit(c: Components, position: Position) -> bool {
    &&& c.position == Some(position)
    &&& c.name is Some
    &&& c.name->0.name@ == "Health Potion"@
    &&& drawn_as(c.renderable, '!', swatch::POTION_HEALTH, 2)
    &&& c.item
    &&& c.consumable
    &&& c.healing_effect == Some(HealingEffect { healing_amount: 8 })
    &&& c.sound_effect is Some
    &&& c.sound_effect->0.resource@ == DRINKING_WAV@
    &&& (Components {
        position: None,
        name: None,
        renderable: None,
        item: false,
        consumable: false,
        healing_effect: None,
        sound_effect: None,
        ..c
    }).is_bare()
}

/// Whether `c` are the components of a new scroll of magic missile at
/// `position`.
pub open spec fn is_scroll_kit(c: Components, position: Position) -> bool {
    &&& c.position == Some(position)
    &&& c.name is Some
    &&& c.name->0.name@ == "Scroll of Magic Missile"@
    &&& drawn_as(c.renderable, '?', swatch::SCROLL_MAGIC_MISSILE, 2)
    &&& c.item
    &&& c.consumable
    &&& c.ranged == Some(Ranged { range: 6 })
    &&& c.damage_effect == Some(DamageEffect { damage_amount: 16 })
    &&& c.sound_effect is Some
    &&& c.sound_effect->0.resource@ == MAGIC_MISSILES_WAV@
    &&& (Components {
        position: None,
        name: None,
        renderable: None,
        item: false,
        consumable: false,
        ranged: None,
        damage_effect: None,
        sound_effect: None,
        ..c
    }).is_bare()
}

/// Whether the world has gained exactly one entity, in a new slot, and
/// nothing else in it has changed but the random number generator.
pub open spec fn one_more(before: &World, after: &World, entity: Entity) -> bool {
    &&& *after == (World { store: after.store, rng: after.rng, ..*before })
    &&& (after.rng is Some) == (before.rng is Some)
    &&& after.store.doomed == before.store.doomed
    &&& entity.id == before.store.slots@.len()
    &&& after.store.slots@.len() == before.store.slots@.len() + 1
    &&& after.store.slots@.take(before.store.slots@.len() as int) == before.store.slots@
    &&& after.store.slots@.last() is Some
}

/// Adds an entity with the given components to the world.
fn build(ecs: &mut World, components: Components) -> (entity: Entity)
    requires
        old(ecs).store.slots@.len() < u32::MAX,
    ensures
        one_more(old(ecs), final(ecs), entity),
        final(ecs).rng == old(ecs).rng,
        final(ecs).store.at(entity.id as int) == components,
{
    let entity = ecs.store.create(components);
    assert(ecs.store.slots@.take(old(ecs).store.slots@.len() as int) =~= old(ecs).store.slots@);
    entity
}

/// A stale and empty field of view with the usual range of sight.
fn new_sight() -> (fov: FOV)
    ensures
        fresh_sight(Some(fov)),
{
    FOV { content: Vec::new(), range: SIGHT, is_dirty: true }
}

/// The render information for a glyph in the colours of `colors`.
fn new_look(symbol: char, colors: ColorPair, order: i32) -> (renderable: Renderable)
    ensures
        drawn_as(Some(renderable), symbol, colors, order as int),
{
    let c = swatch::Pallet::of(colors).colors();
    Renderable { symbol: glyph(symbol), fg: c.0, bg: c.1, order }
}

/// Creates the player at `position`.
pub fn new_player(position: &Position, ecs: &mut World) -> (entity: Entity)
    requires
        old(ecs).store.slots@.len() < u32::MAX,
    ensures
        one_more(old(ecs), final(ecs), entity),
        is_player_kit(final(ecs).store.at(entity.id as int), *position),
{
    let mut c = Components::new();
    c.position = Some(Position { x: position.x, y: position.y });
    c.renderable = Some(new_look('@', swatch::PLAYER, 0));
    c.player = true;
    c.fov = Some(new_sight());
    c.name = Some(Name { name: String::from_str("Rouge") });
    c.statistics = Some(Statistics { hp_max: 30, hp: 30, power: 5, defense: 3 });
    build(ecs, c)
}

/// Creates a monster with the given name, look and statistics at
/// `position`.
fn new_monster(
    ecs: &mut World,
    name: Name,
    renderable: Renderable,
    statistic: Statistics,
    position: Position,
) -> (entity: Entity)
    requires
        old(ecs).store.slots@.len() < u32::MAX,
    ensures
        one_more(old(ecs), final(ecs), entity),
        final(ecs).rng == old(ecs).rng,
        ({
            let c = final(ecs).store.at(entity.id as int);
            &&& c.position == Some(position)
            &&& c.renderable == Some(renderable)
            &&& c.name == Some(name)
            &&& c.statistics == Some(statistic)
            &&& fresh_sight(c.fov)
            &&& c.monster
            &&& c.collision
            &&& (Components {
                position: None,
                renderable: None,
                name: None,
                statistics: None,
                fov: None,
                monster: false,
                collision: false,
                ..c
            }).is_bare()
        }),
{
    let mut c = Components::new();
    c.position = Some(position);
    c.renderable = Some(renderable);
    c.name = Some(name);
    c.statistics = Some(statistic);
    c.fov = Some(new_sight());
    c.monster = true;
    c.collision = true;
    build(ecs, c)
}

/// Creates a goblin at `position`; `suffix` is added to its name.
pub fn new_goblin(ecs: &mut World, position: Position, suffix: Option<String>) -> (entity: Entity)
    requires
        old(ecs).store.slots@.len() < u32::MAX,
    ensures
        one_more(old(ecs), final(ecs), entity),
        final(ecs).rng == old(ecs).rng,
        is_goblin_kit(final(ecs).store.at(entity.id as int), position, suffix_text(suffix)),
{
    let mut name = String::from_str("Goblin");
    match &suffix {
        Some(suffix) => {
            name = join(name, suffix.as_str());
        },
        None => {
            assert(name@ + Seq::<char>::empty() =~= name@);
        },
    }
    let renderable = new_look('o', swatch::GOBLIN, 1);
    let statistic = Statistics { hp_max: 10, hp: 10, power: 2, defense: 1 };
    new_monster(ecs, Name { name }, renderable, statistic, position)
}

/// Creates a gremlin at `position`; `suffix` is added to its name.
pub fn new_gremlin(ecs: &mut World, position: Position, suffix: Option<String>) -> (entity: Entity)
    requires
        old(ecs).store.slots@.len() < u32::MAX,
    ensures
        one_more(old(ecs), final(ecs), entity),
        final(ecs).rng == old(ecs).rng,
        is_gremlin_kit(final(ecs).store.at(entity.id as int), position, suffix_text(suffix)),
{
    let mut name = String::from_str("Gremlin");
    match &suffix {
        Some(suffix) => {
            name = join(name, suffix.as_str());
        },
        None => {
            assert(name@ + Seq::<char>::empty() =~= name@);
        },
    }
    let renderable = new_look('g', swatch::GREMLIN, 1);
    let statistic = Statistics { hp_max: 16, hp: 16, power: 4, defense: 2 };
    new_monster(ecs, Name { name }, renderable, statistic, position)
}

/// Creates a goblin or a gremlin, chosen at random, at `position`.
pub fn random_monster(ecs: &mut World, position: Position) -> (entity: Entity)
    requires
        old(ecs).rng is Some,
        old(ecs).store.slots@.len() < u32::MAX,
    ensures
        one_more(old(ecs), final(ecs), entity),
        is_goblin_kit(final(ecs).store.at(entity.id as int), position, Seq::empty())
            || is_gremlin_kit(final(ecs).store.at(entity.id as int), position, Seq::empty()),
{
    let index: i32 = rng::range(ecs, 0, 2);
    if index == 0 {
        new_goblin(ecs, position, None)
    } else {
        new_gremlin(ecs, position, None)
    }
}

/// Creates a health potion at `position`.
pub fn new_potion_health(ecs: &mut World, position: Position) -> (entity: Entity)
    requires
        old(ecs).store.slots@.len() < u32::MAX,
    ensures
        one_more(old(ecs), final(ecs), entity),
        final(ecs).rng == old(ecs).rng,
        is_potion_kit(final(ecs).store.at(entity.id as int), position),
{
    let mut c = Components::new();
    c.position = Some(position);
    c.name = Some(Name { name: String::from_str("Health Potion") });
    c.renderable = Some(new_look('!', swatch::POTION_HEALTH, 2));
    c.item = true;
    c.consumable = true;
    c.healing_effect = Some(HealingEffect { healing_amount: 8 });
    c.sound_effect = Some(SoundEffect { resource: String::from_str(DRINKING_WAV) });
    build(ecs, c)
}

/// Creates a scroll of magic missile at `position`.
pub fn new_scroll_magic_missile(ecs: &mut World, position: Position) -> (entity: Entity)
    requires
        old(ecs).store.slots@.len() < u32::MAX,
    ensures
        one_more(old(ecs), final(ecs), entity),
        final(ecs).rng == old(ecs).rng,
        is_scroll_kit(final(ecs).store.at(entity.id as int), position),
{
    let mut c = Components::new();
    c.position = Some(position);
    c.name = Some(Name { name: String::from_str("Scroll of Magic Missile") });
    c.renderable = Some(new_look('?', swatch::SCROLL_MAGIC_MISSILE, 2));
    c.item = true;
    c.consumable = true;
    c.ranged = Some(Ranged { range: 6 });
    c.damage_effect = Some(DamageEffect { damage_amount: 16 });
    c.sound_effect = Some(SoundEffect { resource: String::from_str(MAGIC_MISSILES_WAV) });
    build(ecs, c)
}

/// Creates a health potion or a scroll of magic missile, chosen at random,
/// at `position`.
pub fn random_item(ecs: &mut World, position: Position) -> (entity: Entity)
    requires
        old(ecs).rng is Some,
        old(ecs).store.slots@.len() < u32::MAX,
    ensures
        one_more(old(ecs), final(ecs), entity),
        is_potion_kit(final(ecs).store.at(entity.id as int), position) || is_scroll_kit(
            final(ecs).store.at(entity.id as int),
            position,
        ),
{
    let index: i32 = rng::range(ecs, 0, 2);
    if index == 0 {
        new_potion_health(ecs, position)
    } else {
        new_scroll_magic_missile(ecs, position)
    }
}

} // verus!
