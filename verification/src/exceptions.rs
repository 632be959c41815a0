//! The texts of the errors that end the game.

use vstd::prelude::*;
use vstd::string::StringExecFns;
use crate::components::Entity;
use crate::store::Fault;
use crate::text::{decimal_text, join, join_number};

verus! {

/// The text of the error for the damage `amount` that could not be stored for `target`.
pub open spec fn add_damage_amount_error_text(target: Entity, amount: int) -> Seq<char> {
    "Damage amount "@ + decimal_text(amount) + " couldn't be stored in the ecs for entity with id "@ + decimal_text(target.id as int)
}

/// Builds the text of the error for the damage `amount` that could not be stored for `target`.
pub fn get_add_damage_amount_error_message(target: &Entity, amount: i32) -> (s: String)
    ensures
        s@ == add_damage_amount_error_text(*target, amount as int),
{
    let s = String::from_str("Damage amount ");
    let s = join_number(s, amount as i64);
    let s = join(s, " couldn't be stored in the ecs for entity with id ");
    let s = join_number(s, target.id as i64);
    s
}

/// The text of the error for the item that `collector` could not pick up.
pub open spec fn pick_up_item_error_text(collector: Entity, item: Entity) -> Seq<char> {
    "Unable to pick up item with id "@ + decimal_text(item.id as int) + " and add it to inventory of collector with id "@ + decimal_text(collector.id as int) + "!"@
}

/// Builds the text of the error for the item that `collector` could not pick up.
pub fn get_pick_up_item_error_message(collector: &Entity, item: &Entity) -> (s: String)
    ensures
        s@ == pick_up_item_error_text(*collector, *item),
{
    let s = String::from_str("Unable to pick up item with id ");
    let s = join_number(s, item.id as i64);
    let s = join(s, " and add it to inventory of collector with id ");
    let s = join_number(s, collector.id as i64);
    let s = join(s, "!");
    s
}

/// The text of the error for the item that `owner` could not drop.
pub open spec fn drop_item_error_text(owner: Entity, item: Entity) -> Seq<char> {
    "Unable to drop item with id "@ + decimal_text(owner.id as int) + " from inventory of owner with id "@ + decimal_text(item.id as int) + "!"@
}

/// Builds the text of the error for the item that `owner` could not drop.
pub fn get_drop_item_error_message(owner: &Entity, item: &Entity) -> (s: String)
    ensures
        s@ == drop_item_error_text(*owner, *item),
{
    let s = String::from_str("Unable to drop item with id ");
    let s = join_number(s, owner.id as i64);
    let s = join(s, " from inventory of owner with id ");
    let s = join_number(s, item.id as i64);
    let s = join(s, "!");
    s
}

/// The text of the error for the potion that `user` could not ask to use.
pub open spec fn drink_potion_error_text(user: Entity, potion: Entity) -> Seq<char> {
    "Unable to insert use potion request for user with id "@ + decimal_text(user.id as int) + " and potion with id "@ + decimal_text(potion.id as int)
}

/// Builds the text of the error for the potion that `user` could not ask to use.
pub fn get_drink_potion_error_message(user: &Entity, potion: &Entity) -> (s: String)
    ensures
        s@ == drink_potion_error_text(*user, *potion),
{
    let s = String::from_str("Unable to insert use potion request for user with id ");
    let s = join_number(s, user.id as i64);
    let s = join(s, " and potion with id ");
    let s = join_number(s, potion.id as i64);
    s
}

/// The text of the error for the attack of `monster` against the player that could not be added.
pub open spec fn add_melee_damage_error_text(monster: Entity) -> Seq<char> {
    "Adding melee attack from monster with id "@ + decimal_text(monster.id as int) + " against player failed!"@
}

/// Builds the text of the error for the attack of `monster` against the player that could not be added.
pub fn get_add_melee_damage_error_message(monster: &Entity) -> (s: String)
    ensures
        s@ == add_melee_damage_error_text(*monster),
{
    let s = String::from_str("Adding melee attack from monster with id ");
    let s = join_number(s, monster.id as i64);
    let s = join(s, " against player failed!");
    s
}

/// The text that describes a fault: what is wrong, and the id of the entity.
pub open spec fn fault_text(fault: Fault) -> Seq<char> {
    match fault {
        Fault::MissingEntity(e) => "There is no entity with id "@ + decimal_text(e.id as int),
        Fault::MissingName(e) => "There is no name for the entity with id "@ + decimal_text(
            e.id as int,
        ),
        Fault::MissingStatistics(e) => "There are no statistics for the entity with id "@
            + decimal_text(e.id as int),
        Fault::MissingPosition(e) => "There is no position for the entity with id "@
            + decimal_text(e.id as int),
        Fault::MissingTarget(e) => "There is no target for the item of the entity with id "@
            + decimal_text(e.id as int),
        Fault::OffMap(e) => "Off the map: the entity with id "@ + decimal_text(e.id as int),
        Fault::Overflow(e) => "A number is out of range for the entity with id "@ + decimal_text(
            e.id as int,
        ),
    }
}

impl Fault {
    /// Describes the fault: what is wrong, and the id of the entity.
    pub fn message(&self) -> (s: String)
        ensures
            s@ == fault_text(*self),
    {
        match *self {
            Fault::MissingEntity(e) => join_number(
                String::from_str("There is no entity with id "),
                e.id as i64,
            ),
            Fault::MissingName(e) => join_number(
                String::from_str("There is no name for the entity with id "),
                e.id as i64,
            ),
            Fault::MissingStatistics(e) => join_number(
                String::from_str("There are no statistics for the entity with id "),
                e.id as i64,
            ),
            Fault::MissingPosition(e) => join_number(
                String::from_str("There is no position for the entity with id "),
                e.id as i64,
            ),
            Fault::MissingTarget(e) => join_number(
                String::from_str("There is no target for the item of the entity with id "),
                e.id as i64,
            ),
            Fault::OffMap(e) => join_number(
                String::from_str("Off the map: the entity with id "),
                e.id as i64,
            ),
            Fault::Overflow(e) => join_number(
                String::from_str("A number is out of range for the entity with id "),
                e.id as i64,
            ),
        }
    }
}

} // verus!
