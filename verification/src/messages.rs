//! The texts of the log entries and labels that the game writes.

use vstd::prelude::*;
use vstd::string::StringExecFns;
use crate::text::{decimal_text, join, join_number};

verus! {

/// The text of the log entry for a hit in melee.
pub open spec fn hit_text(attacker: Seq<char>, target: Seq<char>, damage: int) -> Seq<char> {
    attacker + " hits "@ + target + " for "@ + decimal_text(damage) + " damage!"@
}

/// Builds the log entry for a hit in melee.
pub fn hit_message(attacker: &str, target: &str, damage: i32) -> (s: String)
    ensures
        s@ == hit_text(attacker@, target@, damage as int),
{
    let s = String::from_str(attacker);
    let s = join(s, " hits ");
    let s = join(s, target);
    let s = join(s, " for ");
    let s = join_number(s, damage as i64);
    let s = join(s, " damage!");
    s
}

/// The text of the log entry for an attack that does no damage.
pub open spec fn no_effect_text(attacker: Seq<char>, target: Seq<char>) -> Seq<char> {
    attacker + " was unable to break "@ + target + "'s defenses"@
}

/// Builds the log entry for an attack that does no damage.
pub fn no_effect_message(attacker: &str, target: &str) -> (s: String)
    ensures
        s@ == no_effect_text(attacker@, target@),
{
    let s = String::from_str(attacker);
    let s = join(s, " was unable to break ");
    let s = join(s, target);
    let s = join(s, "'s defenses");
    s
}

/// The text of the log entry for the death of an entity.
pub open spec fn death_text(name: Seq<char>) -> Seq<char> {
    name + " has died"@
}

/// Builds the log entry for the death of an entity.
pub fn death_message(name: &str) -> (s: String)
    ensures
        s@ == death_text(name@),
{
    let s = String::from_str(name);
    let s = join(s, " has died");
    s
}

/// The text of the log entry for an item that was picked up.
pub open spec fn pickup_text(collector: Seq<char>, item: Seq<char>) -> Seq<char> {
    collector + " picked up "@ + item + "."@
}

/// Builds the log entry for an item that was picked up.
pub fn pickup_message(collector: &str, item: &str) -> (s: String)
    ensures
        s@ == pickup_text(collector@, item@),
{
    let s = String::from_str(collector);
    let s = join(s, " picked up ");
    let s = join(s, item);
    let s = join(s, ".");
    s
}

/// The text of the log entry for a pickup where no item lies.
pub open spec fn nothing_to_pick_up_text(collector: Seq<char>) -> Seq<char> {
    collector + " tried to pick up an item, but there is nothing on the ground."@
}

/// Builds the log entry for a pickup where no item lies.
pub fn nothing_to_pick_up_message(collector: &str) -> (s: String)
    ensures
        s@ == nothing_to_pick_up_text(collector@),
{
    let s = String::from_str(collector);
    let s = join(s, " tried to pick up an item, but there is nothing on the ground.");
    s
}

/// The text of the log entry for an item that was dropped.
pub open spec fn drop_text(owner: Seq<char>, item: Seq<char>) -> Seq<char> {
    owner + " drops "@ + item
}

/// Builds the log entry for an item that was dropped.
pub fn drop_message(owner: &str, item: &str) -> (s: String)
    ensures
        s@ == drop_text(owner@, item@),
{
    let s = String::from_str(owner);
    let s = join(s, " drops ");
    let s = join(s, item);
    s
}

/// The text of the log entry for an item that heals its user.
pub open spec fn healing_text(user: Seq<char>, item: Seq<char>, amount: int) -> Seq<char> {
    user + " uses the "@ + item + ", restoring "@ + decimal_text(amount) + " health."@
}

/// Builds the log entry for an item that heals its user.
pub fn healing_message(user: &str, item: &str, amount: i32) -> (s: String)
    ensures
        s@ == healing_text(user@, item@, amount as int),
{
    let s = String::from_str(user);
    let s = join(s, " uses the ");
    let s = join(s, item);
    let s = join(s, ", restoring ");
    let s = join_number(s, amount as i64);
    let s = join(s, " health.");
    s
}

/// The text of the log entry for an item used on an empty tile.
pub open spec fn miss_text(user: Seq<char>, item: Seq<char>) -> Seq<char> {
    user + " uses "@ + item + ", but hits nothing."@
}

/// Builds the log entry for an item used on an empty tile.
pub fn miss_message(user: &str, item: &str) -> (s: String)
    ensures
        s@ == miss_text(user@, item@),
{
    let s = String::from_str(user);
    let s = join(s, " uses ");
    let s = join(s, item);
    let s = join(s, ", but hits nothing.");
    s
}

/// The text of the log entry for an item that damages a target.
pub open spec fn item_hit_text(user: Seq<char>, item: Seq<char>, target: Seq<char>, amount: int) -> Seq<char> {
    user + " uses "@ + item + ", hitting "@ + target + " for "@ + decimal_text(amount) + " damage."@
}

/// Builds the log entry for an item that damages a target.
pub fn item_hit_message(user: &str, item: &str, target: &str, amount: i32) -> (s: String)
    ensures
        s@ == item_hit_text(user@, item@, target@, amount as int),
{
    let s = String::from_str(user);
    let s = join(s, " uses ");
    let s = join(s, item);
    let s = join(s, ", hitting ");
    let s = join(s, target);
    let s = join(s, " for ");
    let s = join_number(s, amount as i64);
    let s = join(s, " damage.");
    s
}

/// The label of a dialog option: its key in brackets, then its description.
pub open spec fn option_label_text(key: Seq<char>, description: Seq<char>) -> Seq<char> {
    "("@ + key + ") "@ + description
}

/// Builds the label of a dialog option: its key in brackets, then its description.
pub fn option_label_message(key: &str, description: &str) -> (s: String)
    ensures
        s@ == option_label_text(key@, description@),
{
    let s = String::from_str("(");
    let s = join(s, key);
    let s = join(s, ") ");
    let s = join(s, description);
    s
}

} // verus!
