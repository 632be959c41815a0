//! Melee combat and the application of damage.

use vstd::prelude::*;
use crate::components::{DamageCounter, Entity, Statistics};
use crate::data::GameLog;
use crate::messages::{hit_message, hit_text, no_effect_message, no_effect_text};
use crate::store::{
    first_fault, lemma_first_fault_found, lemma_first_fault_none, Components, Fault, Store,
};

verus! {

/// The damage of an attack: the attacker's power less the defender's
/// defense, and never less than nothing.
pub open spec fn melee_damage(power: int, defense: int) -> int {
    if power - defense > 0 {
        power - defense
    } else {
        0
    }
}

/// The sum of the numbers of a sequence.
pub open spec fn total(values: Seq<i32>) -> int
    decreases values.len(),
{
    if values.len() == 0 {
        0
    } else {
        total(values.drop_last()) + values.last()
    }
}

/// Whether the entity in the slot `i` attacks this turn: it has the intent
/// to, a name, and statistics with hit points left.
pub open spec fn attacks(store: &Store, i: int) -> bool {
    &&& store.holds(i)
    &&& store.at(i).melee_attack is Some
    &&& store.at(i).name is Some
    &&& store.at(i).statistics is Some
    &&& store.at(i).statistics->0.hp > 0
}

/// The entity that the attacker in the slot `i` attacks.
pub open spec fn target_of(store: &Store, i: int) -> Entity {
    store.at(i).melee_attack->0.target
}

/// What stops the attack of the entity in the slot `i`, if anything: a
/// target without statistics, a living target without a name, or damage
/// that does not fit into 32 bits.
pub open spec fn melee_fault(store: &Store, i: int) -> Option<Fault> {
    if !attacks(store, i) {
        None
    } else {
        let target = target_of(store, i);
        if !store.alive(target) || store.of(target).statistics is None {
            Some(Fault::MissingStatistics(target))
        } else if store.of(target).statistics->0.hp <= 0 {
            None
        } else if store.of(target).name is None {
            Some(Fault::MissingName(target))
        } else if store.at(i).statistics->0.power - store.of(target).statistics->0.defense
            > i32::MAX {
            Some(Fault::Overflow(Entity { id: i as u32 }))
        } else {
            None
        }
    }
}

/// Whether the attack of the entity in the slot `i` reaches a target with
/// hit points left.
pub open spec fn strikes(store: &Store, i: int) -> bool {
    &&& attacks(store, i)
    &&& store.alive(target_of(store, i))
    &&& store.of(target_of(store, i)).statistics is Some
    &&& store.of(target_of(store, i)).statistics->0.hp > 0
}

/// The damage of the strike of the entity in the slot `i`.
pub open spec fn strike_damage(store: &Store, i: int) -> int {
    melee_damage(
        store.at(i).statistics->0.power as int,
        store.of(target_of(store, i)).statistics->0.defense as int,
    )
}

/// The damage that the attackers in the slots below `n` deal to the entity
/// in the slot `target`, in the order of the attackers.
pub open spec fn melee_hits(store: &Store, n: int, target: int) -> Seq<i32>
    decreases n,
{
    if n <= 0 {
        Seq::empty()
    } else if strikes(store, n - 1) && target_of(store, n - 1).id == target && strike_damage(
        store,
        n - 1,
    ) > 0 {
        melee_hits(store, n - 1, target).push(strike_damage(store, n - 1) as i32)
    } else {
        melee_hits(store, n - 1, target)
    }
}

/// The log entries for the attacks of the entities in the slots below `n`.
pub open spec fn melee_entries(store: &Store, n: int) -> Seq<Seq<char>>
    decreases n,
{
    if n <= 0 {
        Seq::empty()
    } else if strikes(store, n - 1) {
        let attacker = store.at(n - 1).name_text();
        let target = store.of(target_of(store, n - 1)).name_text();
        if strike_damage(store, n - 1) == 0 {
            melee_entries(store, n - 1).push(no_effect_text(attacker, target))
        } else {
            melee_entries(store, n - 1).push(
                hit_text(attacker, target, strike_damage(store, n - 1)),
            )
        }
    } else {
        melee_entries(store, n - 1)
    }
}

/// What stops the attack of each slot's entity, if anything.
pub open spec fn melee_faults(store: &Store) -> Seq<Option<Fault>> {
    Seq::new(store.slots@.len(), |i: int| melee_fault(store, i))
}

/// What melee combat leaves behind after the attackers in the slots below
/// `n` have had their turn: their intents are gone, their strikes are in the
/// damage counters of their targets, and nothing else has changed.
pub open spec fn melee_done(before: &Store, after: &Store, n: int) -> bool {
    &&& after.same_entities(before)
    &&& after.doomed == before.doomed
    &&& forall|i: int|
        before.holds(i) ==> {
            &&& #[trigger] after.at(i) == (Components {
                melee_attack: after.at(i).melee_attack,
                damage_counter: after.at(i).damage_counter,
                ..before.at(i)
            })
            &&& after.at(i).melee_attack == if i < n {
                None
            } else {
                before.at(i).melee_attack
            }
            &&& after.at(i).pending_damage() == before.at(i).pending_damage() + melee_hits(
                before,
                n,
                i,
            )
            &&& (after.at(i).damage_counter is Some) == (before.at(i).damage_counter is Some
                || melee_hits(before, n, i).len() > 0)
        }
}

impl DamageCounter {
    /// Adds `amount` to the pending damage of `target`, giving it a damage
    /// counter if it has none. Fails if the entity does not exist.
    pub fn add_damage_taken(store: &mut Store, target: Entity, amount: i32) -> (r: Result<
        (),
        Fault,
    >)
        ensures
            final(store).doomed == old(store).doomed,
            !old(store).alive(target) ==> r == Err::<(), Fault>(Fault::MissingEntity(target))
                && final(store).slots == old(store).slots,
            old(store).alive(target) ==> {
                &&& r is Ok
                &&& final(store).slots@ == old(store).slots@.update(
                    target.id as int,
                    Some(final(store).of(target)),
                )
                &&& final(store).of(target) == (Components {
                    damage_counter: final(store).of(target).damage_counter,
                    ..old(store).of(target)
                })
                &&& final(store).of(target).damage_counter is Some
                &&& final(store).of(target).pending_damage() == old(store).of(
                    target,
                ).pending_damage().push(amount)
            },
    {
        if !store.is_alive(target) {
            return Err(Fault::MissingEntity(target));
        }
        match &mut store.slots[target.id as usize] {
            Some(components) => {
                match &mut components.damage_counter {
                    Some(counter) => {
                        counter.damage_values.push(amount);
                    },
                    None => {
                        let mut damage_values: Vec<i32> = Vec::new();
                        damage_values.push(amount);
                        components.damage_counter = Some(DamageCounter { damage_values });
                        assert(damage_values@ =~= Seq::<i32>::empty().push(amount));
                    },
                }
            },
            None => {},
        }
        Ok(())
    }
}

/// System that resolves the melee attacks of a turn.
pub struct MeleeCombatSystem {}

/// The strike of the entity in the slot `i`, if it lands one: the target, the
/// damage and the log entry.
fn plan_strike(store: &Store, i: usize) -> (r: Result<Option<(Entity, i32, String)>, Fault>)
    requires
        store.wf(),
        i < store.slots@.len(),
    ensures
        match melee_fault(store, i as int) {
            Some(f) => r == Err::<Option<(Entity, i32, String)>, Fault>(f),
            None => r is Ok && (r->Ok_0 is Some <==> strikes(store, i as int)),
        },
        r is Ok && r->Ok_0 is Some ==> {
            let (target, damage, entry) = r->Ok_0->0;
            &&& target == target_of(store, i as int)
            &&& damage == strike_damage(store, i as int)
            &&& entry@ == if damage == 0 {
                no_effect_text(store.at(i as int).name_text(), store.of(target).name_text())
            } else {
                hit_text(
                    store.at(i as int).name_text(),
                    store.of(target).name_text(),
                    damage as int,
                )
            }
        },
{
    if let Some(c) = &store.slots[i] {
        if c.melee_attack.is_some() && c.name.is_some() && c.statistics.is_some() {
            let stats: Statistics = c.statistics.unwrap();
            if stats.hp > 0 {
                let target: Entity = c.melee_attack.unwrap().target;
                match store.get(target) {
                    None => {
                        return Err(Fault::MissingStatistics(target));
                    },
                    Some(tc) => {
                        match tc.statistics {
                            None => {
                                return Err(Fault::MissingStatistics(target));
                            },
                            Some(ts) => {
                                if ts.hp > 0 {
                                    match &tc.name {
                                        None => {
                                            return Err(Fault::MissingName(target));
                                        },
                                        Some(tn) => {
                                            let wide: i64 = stats.power as i64 - ts.defense as i64;
                                            if wide > i32::MAX as i64 {
                                                return Err(
                                                    Fault::Overflow(Entity { id: i as u32 }),
                                                );
                                            }
                                            let damage: i32 = if wide > 0 {
                                                wide as i32
                                            } else {
                                                0
                                            };
                                            let name = c.name.as_ref().unwrap();
                                            let entry = if damage == 0 {
                                                no_effect_message(
                                                    name.name.as_str(),
                                                    tn.name.as_str(),
                                                )
                                            } else {
                                                hit_message(
                                                    name.name.as_str(),
                                                    tn.name.as_str(),
                                                    damage,
                                                )
                                            };
                                            return Ok(Some((target, damage, entry)));
                                        },
                                    }
                                }
                            },
                        }
                    },
                }
            }
        }
    }
    Ok(None)
}

/// Melee combat reads only what it leaves unchanged, and the intents of the
/// attackers that are still to come.
proof fn lemma_melee_reads(before: &Store, now: &Store, n: int)
    requires
        melee_done(before, now, n),
        0 <= n < before.len(),
    ensures
        melee_fault(now, n) == melee_fault(before, n),
        strikes(now, n) == strikes(before, n),
        strikes(before, n) ==> target_of(now, n) == target_of(before, n) && strike_damage(now, n)
            == strike_damage(before, n) && now.at(n).name_text() == before.at(n).name_text()
            && now.of(target_of(now, n)).name_text() == before.of(
            target_of(before, n),
        ).name_text(),
{
    if before.holds(n) {
        assert(now.at(n).name == before.at(n).name);
        assert(now.at(n).statistics == before.at(n).statistics);
        assert(now.at(n).melee_attack == before.at(n).melee_attack);
        if before.at(n).melee_attack is Some {
            let target = before.at(n).melee_attack->0.target;
            if before.alive(target) {
                assert(before.holds(target.id as int));
                assert(now.at(target.id as int).name == before.at(target.id as int).name);
                assert(now.at(target.id as int).statistics == before.at(
                    target.id as int,
                ).statistics);
            }
        }
    }
}

impl MeleeCombatSystem {
    /// Resolves every melee attack, in the order of the attackers' slots: an
    /// attacker with hit points left strikes a target with hit points left for
    /// its power less the target's defense. A strike without damage is only
    /// logged; any other is logged and added to the pending damage of the
    /// target. All intents to attack are removed.
    pub fn run(store: &mut Store, game_log: &mut GameLog) -> (r: Result<(), Fault>)
        requires
            old(store).wf(),
        ensures
            match first_fault(melee_faults(old(store))) {
                Some(f) => r == Err::<(), Fault>(f),
                None => r is Ok && melee_done(old(store), final(store), old(store).len())
                    && final(game_log)@ == old(game_log)@ + melee_entries(
                    old(store),
                    old(store).len(),
                ),
            },
    {
        let mut i: usize = 0;
        while i < store.slots.len()
            invariant
                store.wf(),
                i <= store.slots@.len(),
                melee_done(old(store), store, i as int),
                game_log@ == old(game_log)@ + melee_entries(old(store), i as int),
                forall|j: int| 0 <= j < i ==> melee_fault(old(store), j) is None,
            decreases store.slots@.len() - i,
        {
            let ghost before = *store;
            proof {
                lemma_melee_reads(old(store), store, i as int);
            }
            match plan_strike(store, i) {
                Err(f) => {
                    proof {
                        lemma_first_fault_found(melee_faults(old(store)), i as int);
                    }
                    return Err(f);
                },
                Ok(None) => {},
                Ok(Some((target, damage, entry))) => {
                    proof {
                        assert(old(game_log)@ + melee_entries(old(store), i as int).push(entry@)
                            =~= (old(game_log)@ + melee_entries(old(store), i as int)).push(
                            entry@,
                        ));
                    }
                    game_log.push_owned(entry);
                    if damage > 0 {
                        let added = DamageCounter::add_damage_taken(store, target, damage);
                        assert(added is Ok);
                    }
                },
            }
            let ghost middle = *store;
            if let Some(c) = &mut store.slots[i] {
                c.melee_attack = None;
            }
            proof {
                assert(store.same_entities(old(store)));
                assert forall|k: int| old(store).holds(k) implies {
                    &&& #[trigger] store.at(k) == (Components {
                        melee_attack: store.at(k).melee_attack,
                        damage_counter: store.at(k).damage_counter,
                        ..old(store).at(k)
                    })
                    &&& store.at(k).melee_attack == if k < i + 1 {
                        None
                    } else {
                        old(store).at(k).melee_attack
                    }
                    &&& store.at(k).pending_damage() == old(store).at(k).pending_damage()
                        + melee_hits(old(store), i + 1, k)
                    &&& (store.at(k).damage_counter is Some) == (old(
                        store,
                    ).at(k).damage_counter is Some || melee_hits(old(store), i + 1, k).len() > 0)
                } by {
                    assert(before.holds(k));
                    assert(before.at(k) == before.at(k));
                    let hits_before = melee_hits(old(store), i as int, k);
                    if strikes(old(store), i as int) && target_of(old(store), i as int).id == k
                        && strike_damage(old(store), i as int) > 0 {
                        assert(melee_hits(old(store), i + 1, k) == hits_before.push(
                            strike_damage(old(store), i as int) as i32,
                        ));
                        assert(old(store).at(k).pending_damage() + hits_before.push(
                            strike_damage(old(store), i as int) as i32,
                        ) =~= (old(store).at(k).pending_damage() + hits_before).push(
                            strike_damage(old(store), i as int) as i32,
                        ));
                    } else {
                        assert(melee_hits(old(store), i + 1, k) == hits_before);
                        assert(middle.at(k) == before.at(k));
                    }
                }
            }
            i += 1;
        }
        proof {
            lemma_first_fault_none(melee_faults(old(store)));
        }
        Ok(())
    }
}

/// The hit points of an entity after its pending damage has been applied.
pub open spec fn hp_after_damage(components: Components) -> int {
    components.statistics->0.hp - total(components.pending_damage())
}

/// Whether pending damage is applied to the entity: it has statistics and
/// a damage counter.
pub open spec fn takes_damage(components: Components) -> bool {
    components.statistics is Some && components.damage_counter is Some
}

/// What stops the application of damage to the entity in the slot `i`, if
/// anything: hit points that do not fit into 32 bits.
pub open spec fn damage_fault(store: &Store, i: int) -> Option<Fault> {
    if store.holds(i) && takes_damage(store.at(i)) && !(i32::MIN <= hp_after_damage(store.at(i))
        <= i32::MAX) {
        Some(Fault::Overflow(Entity { id: i as u32 }))
    } else {
        None
    }
}

/// What stops the application of damage to each slot's entity, if anything.
pub open spec fn damage_faults(store: &Store) -> Seq<Option<Fault>> {
    Seq::new(store.slots@.len(), |i: int| damage_fault(store, i))
}

/// The statistics of an entity after its pending damage has been applied.
pub open spec fn statistics_after_damage(components: Components) -> Option<Statistics> {
    if takes_damage(components) {
        Some(
            Statistics {
                hp: hp_after_damage(components) as i32,
                ..components.statistics->0
            },
        )
    } else {
        components.statistics
    }
}

/// What the application of damage leaves behind in the slots below `n`:
/// the pending damage is taken from the hit points, and no damage counter
/// is left.
pub open spec fn damage_done(before: &Store, after: &Store, n: int) -> bool {
    &&& after.same_entities(before)
    &&& after.doomed == before.doomed
    &&& forall|i: int|
        before.holds(i) ==> #[trigger] after.at(i) == if i < n {
            Components {
                statistics: statistics_after_damage(before.at(i)),
                damage_counter: None,
                ..before.at(i)
            }
        } else {
            before.at(i)
        }
}

/// Adds up pending damage.
fn sum_damage(values: &Vec<i32>) -> (sum: i128)
    ensures
        sum == total(values@),
        -0x8000_0000_0000_0000_0000_0000 <= sum <= 0x8000_0000_0000_0000_0000_0000,
{
    let mut sum: i128 = 0;
    let mut k: usize = 0;
    while k < values.len()
        invariant
            k <= values@.len(),
            sum == total(values@.take(k as int)),
            -0x8000_0000 * k <= sum <= 0x8000_0000 * k,
        decreases values@.len() - k,
    {
        proof {
            assert(values@.take(k as int + 1).drop_last() =~= values@.take(k as int));
        }
        sum = sum + values[k] as i128;
        k += 1;
    }
    assert(values@.take(k as int) =~= values@);
    assert(k <= usize::MAX);
    sum
}

/// System that takes the damage inflicted on an entity during a turn from
/// its hit points.
pub struct DamageSystem {}

impl DamageSystem {
    /// Applies the pending damage of every entity that has statistics, and
    /// removes all damage counters.
    pub fn run(store: &mut Store) -> (r: Result<(), Fault>)
        requires
            old(store).wf(),
        ensures
            match first_fault(damage_faults(old(store))) {
                Some(f) => r == Err::<(), Fault>(f),
                None => r is Ok && damage_done(old(store), final(store), old(store).len()),
            },
    {
        let mut i: usize = 0;
        while i < store.slots.len()
            invariant
                store.wf(),
                i <= store.slots@.len(),
                damage_done(old(store), store, i as int),
                forall|j: int| 0 <= j < i ==> damage_fault(old(store), j) is None,
            decreases store.slots@.len() - i,
        {
            let ghost before = *store;
            assert(old(store).holds(i as int) ==> store.at(i as int) == old(store).at(i as int));
            if let Some(c) = &mut store.slots[i] {
                if let Some(counter) = &c.damage_counter {
                    if let Some(stats) = &mut c.statistics {
                        let sum: i128 = sum_damage(&counter.damage_values);
                        let hp: i128 = stats.hp as i128 - sum;
                        if hp < i32::MIN as i128 || hp > i32::MAX as i128 {
                            proof {
                                lemma_first_fault_found(damage_faults(old(store)), i as int);
                            }
                            return Err(Fault::Overflow(Entity { id: i as u32 }));
                        }
                        stats.hp = hp as i32;
                    }
                }
                c.damage_counter = None;
            }
            proof {
                assert forall|k: int| old(store).holds(k) implies #[trigger] store.at(k) == if k < i
                    + 1 {
                    Components {
                        statistics: statistics_after_damage(old(store).at(k)),
                        damage_counter: None,
                        ..old(store).at(k)
                    }
                } else {
                    old(store).at(k)
                } by {
                    assert(before.holds(k));
                    if k != i {
                        assert(store.at(k) == before.at(k));
                    }
                }
            }
            i += 1;
        }
        proof {
            lemma_first_fault_none(damage_faults(old(store)));
        }
        Ok(())
    }
}

} // verus!
