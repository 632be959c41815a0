//! The game state and the pipeline of systems that runs inside a turn.

use vstd::prelude::*;
use crate::combat::{
    damage_done, damage_faults, melee_done, melee_entries, melee_faults, DamageSystem,
    MeleeCombatSystem,
};
use crate::components::{Entity, UseItem};
use crate::dialog::{action_fault, action_state, action_store, DialogAction, DialogResult};
use crate::functions::VirtualKeyCode;
use crate::player::{input_outcome, player_handle_input, Input};
use crate::store::Components;
use crate::systems::swept;
use crate::ui_controller::{draw_player_ranged_targeting, target_selection, TargetSelectionState};
use crate::data::GameLog;
use crate::item_use::{texts, use_done, use_entries, use_faults, use_sounds, ItemUseSystem};
use crate::items::{
    Item, drop_done, drop_entries, drop_faults, pickup_done, pickup_entries, pickup_faults,
    ItemCollectionSystem, ItemDropSystem,
};
use crate::map::GameMap;
use crate::monsters::{hunt_outcome, MonsterAI, NavigationPath};
use crate::sight::{sight_done, sight_faults, FOVSystem};
use crate::store::{first_fault, names_slot, Fault, Store};
use crate::systems::{mapdex_done, mapdex_faults, MapDexSystem};
use crate::world::{ProcessingState, World};

verus! {

/// The state of the game: the world with all that is in it.
pub struct State {
    /// The entity store and the shared resources.
    pub ecs: World,
}

/// How a run of the systems has ended: the store, the map and the log that
/// it leaves behind, and the sounds to play, or the fault that stopped it.
pub ghost struct Outcome {
    pub store: Store,
    pub map: GameMap,
    pub log: Seq<Seq<char>>,
    pub result: Result<Seq<Seq<char>>, Fault>,
}

/// What the maintenance of the store leaves behind: the entities that were
/// marked for deletion are gone.
pub open spec fn maintained(before: &Store, after: &Store) -> bool {
    &&& after.doomed@.len() == 0
    &&& after.slots@.len() == before.slots@.len()
    &&& forall|i: int|
        0 <= i < before.slots@.len() ==> #[trigger] after.slots@[i] == if names_slot(
            before.doomed@,
            i,
        ) {
            None
        } else {
            before.slots@[i]
        }
}

/// How the requests to drop an item, and the maintenance of the store after
/// them, end.
pub open spec fn ends_with_drops(
    store: &Store,
    map: &GameMap,
    log: Seq<Seq<char>>,
    sounds: Seq<Seq<char>>,
    end: Outcome,
) -> bool {
    match first_fault(drop_faults(store)) {
        Some(f) => end.result == Err::<Seq<Seq<char>>, Fault>(f),
        None => exists|next: Store|
            {
                &&& #[trigger] drop_done(store, &next, store.len())
                &&& maintained(&next, &end.store)
                &&& end.map == *map
                &&& end.log == log + drop_entries(store, store.len())
                &&& end.result == Ok::<Seq<Seq<char>>, Fault>(sounds)
            },
    }
}

/// How the uses of items, and what follows them, end.
pub open spec fn ends_with_uses(store: &Store, map: &GameMap, log: Seq<Seq<char>>, end: Outcome) -> bool {
    match first_fault(use_faults(store, map)) {
        Some(f) => end.result == Err::<Seq<Seq<char>>, Fault>(f),
        None => exists|next: Store|
            {
                &&& #[trigger] use_done(store, map, &next, store.len())
                &&& ends_with_drops(
                    &next,
                    map,
                    log + use_entries(store, map, store.len()),
                    use_sounds(store, store.len()),
                    end,
                )
            },
    }
}

/// How the pickups, and what follows them, end.
pub open spec fn ends_with_pickups(store: &Store, map: &GameMap, log: Seq<Seq<char>>, end: Outcome) -> bool {
    match first_fault(pickup_faults(store)) {
        Some(f) => end.result == Err::<Seq<Seq<char>>, Fault>(f),
        None => exists|next: Store|
            {
                &&& #[trigger] pickup_done(store, &next, store.len())
                &&& ends_with_uses(&next, map, log + pickup_entries(store, store.len()), end)
            },
    }
}

/// How the application of damage, and what follows it, end.
pub open spec fn ends_with_damage(store: &Store, map: &GameMap, log: Seq<Seq<char>>, end: Outcome) -> bool {
    match first_fault(damage_faults(store)) {
        Some(f) => end.result == Err::<Seq<Seq<char>>, Fault>(f),
        None => exists|next: Store|
            {
                &&& #[trigger] damage_done(store, &next, store.len())
                &&& ends_with_pickups(&next, map, log, end)
            },
    }
}

/// How melee combat, and what follows it, end.
pub open spec fn ends_with_melee(store: &Store, map: &GameMap, log: Seq<Seq<char>>, end: Outcome) -> bool {
    match first_fault(melee_faults(store)) {
        Some(f) => end.result == Err::<Seq<Seq<char>>, Fault>(f),
        None => exists|next: Store|
            {
                &&& #[trigger] melee_done(store, &next, store.len())
                &&& ends_with_damage(&next, map, log + melee_entries(store, store.len()), end)
            },
    }
}

/// How the part of a turn that follows the monsters' actions ends: the map
/// is brought in step with the entities; melee attacks are resolved; damage
/// is applied; items are picked up, used and dropped; and the store is
/// maintained. The first fault ends it.
pub open spec fn turn_resolved(store: &Store, map: &GameMap, log: Seq<Seq<char>>, end: Outcome) -> bool {
    match first_fault(mapdex_faults(store, map)) {
        Some(f) => end.result == Err::<Seq<Seq<char>>, Fault>(f),
        None => exists|next: GameMap|
            {
                &&& #[trigger] mapdex_done(store, map, &next, store.len())
                &&& ends_with_melee(store, &next, log, end)
            },
    }
}

/// The texts of the sounds, or the fault, of the result of a run.
pub open spec fn result_texts(r: Result<Vec<String>, Fault>) -> Result<Seq<Seq<char>>, Fault> {
    match r {
        Ok(sounds) => Ok(texts(sounds@)),
        Err(f) => Err(f),
    }
}

/// Resolves the requests to drop an item and maintains the store.
fn finish_with_drops(
    store: &mut Store,
    map: &GameMap,
    game_log: &mut GameLog,
    sounds: Vec<String>,
) -> (r: Result<Vec<String>, Fault>)
    requires
        old(store).wf(),
    ensures
        r is Ok ==> final(store).slots@.len() == old(store).slots@.len(),
        ends_with_drops(
            old(store),
            map,
            old(game_log)@,
            texts(sounds@),
            Outcome {
                store: *final(store),
                map: *map,
                log: final(game_log)@,
                result: result_texts(r),
            },
        ),
{
    match ItemDropSystem::run(store, game_log) {
        Err(f) => Err(f),
        Ok(()) => {
            let ghost next = *store;
            store.maintain();
            assert(drop_done(old(store), &next, old(store).len()));
            Ok(sounds)
        },
    }
}

/// Resolves the uses of items, and what follows them.
fn finish_with_uses(store: &mut Store, map: &GameMap, game_log: &mut GameLog) -> (r: Result<
    Vec<String>,
    Fault,
>)
    requires
        old(store).wf(),
        map.wf(),
    ensures
        r is Ok ==> final(store).slots@.len() == old(store).slots@.len(),
        ends_with_uses(
            old(store),
            map,
            old(game_log)@,
            Outcome {
                store: *final(store),
                map: *map,
                log: final(game_log)@,
                result: result_texts(r),
            },
        ),
{
    match ItemUseSystem::run(store, map, game_log) {
        Err(f) => Err(f),
        Ok(sounds) => {
            let ghost next = *store;
            let r = finish_with_drops(store, map, game_log, sounds);
            assert(use_done(old(store), map, &next, old(store).len()));
            r
        },
    }
}

/// Resolves the pickups, and what follows them.
fn finish_with_pickups(store: &mut Store, map: &GameMap, game_log: &mut GameLog) -> (r: Result<
    Vec<String>,
    Fault,
>)
    requires
        old(store).wf(),
        map.wf(),
    ensures
        r is Ok ==> final(store).slots@.len() == old(store).slots@.len(),
        ends_with_pickups(
            old(store),
            map,
            old(game_log)@,
            Outcome {
                store: *final(store),
                map: *map,
                log: final(game_log)@,
                result: result_texts(r),
            },
        ),
{
    match ItemCollectionSystem::run(store, game_log) {
        Err(f) => Err(f),
        Ok(()) => {
            let ghost next = *store;
            let r = finish_with_uses(store, map, game_log);
            assert(pickup_done(old(store), &next, old(store).len()));
            r
        },
    }
}

/// Applies the damage, and resolves what follows it.
fn finish_with_damage(store: &mut Store, map: &GameMap, game_log: &mut GameLog) -> (r: Result<
    Vec<String>,
    Fault,
>)
    requires
        old(store).wf(),
        map.wf(),
    ensures
        r is Ok ==> final(store).slots@.len() == old(store).slots@.len(),
        ends_with_damage(
            old(store),
            map,
            old(game_log)@,
            Outcome {
                store: *final(store),
                map: *map,
                log: final(game_log)@,
                result: result_texts(r),
            },
        ),
{
    match DamageSystem::run(store) {
        Err(f) => Err(f),
        Ok(()) => {
            let ghost next = *store;
            let r = finish_with_pickups(store, map, game_log);
            assert(damage_done(old(store), &next, old(store).len()));
            r
        },
    }
}

/// Resolves melee combat, and what follows it.
fn finish_with_melee(store: &mut Store, map: &GameMap, game_log: &mut GameLog) -> (r: Result<
    Vec<String>,
    Fault,
>)
    requires
        old(store).wf(),
        map.wf(),
    ensures
        r is Ok ==> final(store).slots@.len() == old(store).slots@.len(),
        ends_with_melee(
            old(store),
            map,
            old(game_log)@,
            Outcome {
                store: *final(store),
                map: *map,
                log: final(game_log)@,
                result: result_texts(r),
            },
        ),
{
    match MeleeCombatSystem::run(store, game_log) {
        Err(f) => Err(f),
        Ok(()) => {
            let ghost next = *store;
            let r = finish_with_damage(store, map, game_log);
            assert(melee_done(old(store), &next, old(store).len()));
            r
        },
    }
}

/// Resolves the part of a turn that follows the monsters' actions. Returns
/// the sounds to play.
pub fn resolve_turn(store: &mut Store, map: &mut GameMap, game_log: &mut GameLog) -> (r: Result<
    Vec<String>,
    Fault,
>)
    requires
        old(store).wf(),
        old(map).wf(),
    ensures
        r is Ok ==> final(store).slots@.len() == old(store).slots@.len() && final(map).wf(),
        turn_resolved(
            old(store),
            old(map),
            old(game_log)@,
            Outcome {
                store: *final(store),
                map: *final(map),
                log: final(game_log)@,
                result: result_texts(r),
            },
        ),
{
    match MapDexSystem::run(store, map) {
        Err(f) => Err(f),
        Ok(()) => {
            let ghost next = *map;
            let r = finish_with_melee(store, map, game_log);
            assert(mapdex_done(old(store), old(map), &next, old(store).len()));
            r
        },
    }
}

/// How a run of all systems ends, whatever was seen and whatever paths were
/// found. The first fault of the fields of view ends it. Otherwise the
/// fields of view are computed and the monsters act, if it is their turn; a
/// fault of theirs ends the run, and otherwise the rest of the turn is
/// resolved, which ends the run with its sounds or its first fault.
pub open spec fn systems_ran<F: Fn(&GameMap, usize, usize) -> NavigationPath>(
    before: &World,
    after: &World,
    result: Result<Seq<Seq<char>>, Fault>,
    search: F,
) -> bool {
    &&& *after == (World {
        store: after.store,
        map: after.map,
        game_log: after.game_log,
        ..*before
    })
    &&& match first_fault(sight_faults(&before.store, &before.map)) {
        Some(f) => result == Err::<Seq<Seq<char>>, Fault>(f),
        None => exists|seen: Store, shown: GameMap, moved: Store, walked: GameMap, hunt: Result<
            (),
            Fault,
        >|
            {
                &&& #[trigger] sight_done(
                    &before.store,
                    &before.map,
                    &seen,
                    &shown,
                    before.store.len(),
                )
                &&& #[trigger] hunt_outcome(
                    &seen,
                    &shown,
                    &moved,
                    &walked,
                    before.player_position,
                    before.player,
                    before.state,
                    hunt,
                    search,
                )
                &&& match hunt {
                    Err(f) => result == Err::<Seq<Seq<char>>, Fault>(f),
                    Ok(_) => turn_resolved(
                        &moved,
                        &walked,
                        before.game_log@,
                        Outcome { store: after.store, map: after.map, log: after.game_log@, result },
                    ),
                }
            },
    }
}

/// The state of a tick: the dialog state while a dialog is registered, the
/// stored state otherwise.
pub open spec fn effective_state(world: &World) -> ProcessingState {
    if world.dialog is Some {
        ProcessingState::Dialog
    } else {
        world.state
    }
}

impl State {
    /// Runs all systems once, in their fixed order: field of view, monsters,
    /// map, melee combat, damage, pickups, uses and drops of items; then
    /// deletes what was marked for deletion. Returns the sounds to play.
    pub fn run_systems<F>(&mut self, search: F) -> (r: Result<Vec<String>, Fault>) where
        F: Fn(&GameMap, usize, usize) -> NavigationPath,

        requires
            old(self).ecs.wf(),
            forall|m: &GameMap, from: usize, to: usize|
                m.wf() && from < m.area() && to < m.area() ==> call_requires(
                    search,
                    (m, from, to),
                ),
        ensures
            systems_ran(&old(self).ecs, &final(self).ecs, result_texts(r), search),
            r is Ok ==> final(self).ecs.wf(),
    {
        match FOVSystem::run(&mut self.ecs.store, &mut self.ecs.map) {
            Err(f) => {
                return Err(f);
            },
            Ok(()) => {},
        }
        let ghost seen = self.ecs.store;
        let ghost shown = self.ecs.map;
        let hunt = MonsterAI::run(
            &mut self.ecs.store,
            &mut self.ecs.map,
            &self.ecs.player_position,
            &self.ecs.player,
            &self.ecs.state,
            search,
        );
        let ghost moved = self.ecs.store;
        let ghost walked = self.ecs.map;
        proof {
            assert(sight_done(
                &old(self).ecs.store,
                &old(self).ecs.map,
                &seen,
                &shown,
                old(self).ecs.store.len(),
            ));
            assert(hunt_outcome(
                &seen,
                &shown,
                &moved,
                &walked,
                old(self).ecs.player_position,
                old(self).ecs.player,
                old(self).ecs.state,
                hunt,
                search,
            ));
        }
        match hunt {
            Err(f) => Err(f),
            Ok(()) => resolve_turn(
                &mut self.ecs.store,
                &mut self.ecs.map,
                &mut self.ecs.game_log,
            ),
        }
    }
}

/// What a tick hands to its caller.
#[derive(Debug)]
pub struct TickReport {
    /// The sounds to play.
    pub sounds: Vec<String>,
    /// Whether a dialog was shown during the tick.
    pub dialog_shown: bool,
}

/// What the selection of a target leaves behind, and the state that
/// follows it: a selected target places the request to use the item with
/// the player and lets the player's turn begin; a selection that was given
/// up lets the game wait for input; a selection that goes on changes
/// nothing.
pub open spec fn aimed(
    before: &World,
    after: &World,
    range: i32,
    entity: Entity,
    input: Input,
    next: ProcessingState,
) -> bool {
    let (selection, target) = target_selection(before, range as int, input);
    match selection {
        TargetSelectionState::Cancel => *after == *before && next
            == ProcessingState::WaitingForInput,
        TargetSelectionState::Selecting => *after == *before && next
            == (ProcessingState::PlayerIsTargeting { range, entity }),
        TargetSelectionState::Selected => {
            &&& next == ProcessingState::PlayerTurn
            &&& *after == (World { store: after.store, ..*before })
            &&& after.store.doomed == before.store.doomed
            &&& after.store.slots@ == before.store.slots@.update(
                before.player.id as int,
                Some(
                    Components {
                        use_item: Some(UseItem { item: entity, target }),
                        ..before.store.of(before.player)
                    },
                ),
            )
        },
    }
}

/// How the phase of a tick ends: with the state that follows it and the
/// sounds to play, or with a fault. While a dialog is registered, the
/// systems run and the stored state stays as it is. Otherwise the stored
/// state decides: the internal state, the player's turn and the monsters'
/// turn run the systems and lead to the wait for input, the monsters' turn
/// and the internal state; the wait for input handles the input; the
/// selection of a target goes on, and never fails.
pub open spec fn phase_done<F: Fn(&GameMap, usize, usize) -> NavigationPath>(
    before: &World,
    after: &World,
    input: Input,
    phase: Result<(ProcessingState, Seq<Seq<char>>), Fault>,
    search: F,
) -> bool {
    match phase {
        Ok((next, sounds)) => {
            let ran = systems_ran(before, after, Ok::<Seq<Seq<char>>, Fault>(sounds), search);
            let silent = sounds == Seq::<Seq<char>>::empty();
            match effective_state(before) {
                ProcessingState::Dialog => ran && next == before.state,
                ProcessingState::Internal => ran && next == ProcessingState::WaitingForInput,
                ProcessingState::WaitingForInput => silent && input_outcome(
                    before,
                    after,
                    input,
                    Ok::<ProcessingState, Fault>(next),
                    search,
                ),
                ProcessingState::PlayerTurn => ran && next == ProcessingState::MonsterTurn,
                ProcessingState::PlayerIsTargeting { range, entity } => silent && aimed(
                    before,
                    after,
                    range,
                    entity,
                    input,
                    next,
                ),
                ProcessingState::MonsterTurn => ran && next == ProcessingState::Internal,
            }
        },
        Err(f) => match effective_state(before) {
            ProcessingState::WaitingForInput => input_outcome(
                before,
                after,
                input,
                Err::<ProcessingState, Fault>(f),
                search,
            ),
            ProcessingState::PlayerIsTargeting { range, entity } => false,
            _ => systems_ran(before, after, Err::<Seq<Seq<char>>, Fault>(f), search),
        },
    }
}

/// What the end of a tick leaves behind. Where a dialog was shown and the
/// key selects one of its actions, the action is carried out, the dialog is
/// removed, and the state that the action names is stored. Otherwise the
/// state that follows the phase is stored.
pub open spec fn settled(
    before: &World,
    after: &World,
    shown: bool,
    next: ProcessingState,
    key: Option<VirtualKeyCode>,
) -> bool {
    if shown && before.dialog is Some && before.dialog->0.chosen(key) is Some {
        let action = before.dialog->0.chosen(key)->0;
        &&& action_fault(action, &before.store) is None
        &&& *after == (World {
            store: after.store,
            quit: after.quit,
            dialog: None,
            state: action_state(action, &before.store),
            ..*before
        })
        &&& after.store.doomed == before.store.doomed
        &&& after.store.slots@ == action_store(action, &before.store)
        &&& after.quit == (before.quit || action == DialogAction::Quit)
    } else {
        *after == (World { state: next, ..*before })
    }
}

/// The fault that ends a tick after its phase, if any: the fault of the
/// action that the key selects on the dialog that is shown.
pub open spec fn dialog_fault(world: &World, shown: bool, key: Option<VirtualKeyCode>) -> Option<
    Fault,
> {
    if shown && world.dialog is Some && world.dialog->0.chosen(key) is Some {
        action_fault(world.dialog->0.chosen(key)->0, &world.store)
    } else {
        None
    }
}

/// How a tick ends after the removal of the defeated: with the fault of the
/// dialog's action, or with the report of the tick and the world settled.
pub open spec fn tick_ended(
    before: &World,
    after: &World,
    shown: bool,
    next: ProcessingState,
    sounds: Seq<Seq<char>>,
    key: Option<VirtualKeyCode>,
    r: Result<TickReport, Fault>,
) -> bool {
    match dialog_fault(before, shown, key) {
        Some(f) => r is Err && r->Err_0 == f,
        None => {
            &&& r is Ok
            &&& r->Ok_0.dialog_shown == shown
            &&& texts(r->Ok_0.sounds@) == sounds
            &&& settled(before, after, shown, next, key)
        },
    }
}

/// How a tick ends: the phase of the tick, the removal of the defeated, and
/// the end of the tick follow one another; a fault of the phase, or of the
/// action of a dialog, ends the tick with that fault.
pub open spec fn tick_done<F: Fn(&GameMap, usize, usize) -> NavigationPath>(
    before: &World,
    after: &World,
    input: Input,
    r: Result<TickReport, Fault>,
    search: F,
) -> bool {
    exists|acted: World, phase: Result<(ProcessingState, Seq<Seq<char>>), Fault>|
        {
            &&& #[trigger] phase_done(before, &acted, input, phase, search)
            &&& match phase {
                Err(f) => r is Err && r->Err_0 == f,
                Ok((next, sounds)) => exists|cleaned: World|
                    {
                        &&& #[trigger] swept(&acted, &cleaned)
                        &&& tick_ended(
                            &cleaned,
                            after,
                            effective_state(before) == ProcessingState::Dialog,
                            next,
                            sounds,
                            input.key,
                            r,
                        )
                    },
            }
        }
}

impl State {
    /// The state of this tick: the dialog state while a dialog is
    /// registered, the stored state otherwise.
    pub fn get_processing_state(&self) -> (state: ProcessingState)
        ensures
            state == effective_state(&self.ecs),
    {
        if self.ecs.dialog.is_some() {
            ProcessingState::Dialog
        } else {
            self.ecs.state
        }
    }

    /// Stores `new_processing_state` as the state of the game.
    pub fn update_processing_state(&mut self, new_processing_state: &ProcessingState)
        ensures
            final(self).ecs == (World { state: *new_processing_state, ..old(self).ecs }),
    {
        self.ecs.state = *new_processing_state;
    }

    /// Carries out one tick of the game: the phase that the state of the
    /// tick asks for, then the removal of the defeated, then the reaction of
    /// the dialog, if one was shown, to the key that was pressed; at the end
    /// the state of the next tick is stored.
    pub fn tick<F>(&mut self, input: &Input, search: F) -> (r: Result<TickReport, Fault>) where
        F: Fn(&GameMap, usize, usize) -> NavigationPath,

        requires
            old(self).ecs.wf(),
            forall|m: &GameMap, from: usize, to: usize|
                m.wf() && from < m.area() && to < m.area() ==> call_requires(
                    search,
                    (m, from, to),
                ),
        ensures
            tick_done(&old(self).ecs, &final(self).ecs, *input, r, search),
            r is Ok ==> final(self).ecs.wf(),
    {
        let effective = self.get_processing_state();
        let stored = self.ecs.state;
        let mut sounds: Vec<String> = Vec::new();
        assert(texts(sounds@) =~= Seq::<Seq<char>>::empty());
        let mut shown = false;
        let mut next: ProcessingState = stored;
        match effective {
            ProcessingState::WaitingForInput => {
                match player_handle_input(self, input, search) {
                    Err(f) => {
                        assert(phase_done(
                            &old(self).ecs,
                            &self.ecs,
                            *input,
                            Err::<(ProcessingState, Seq<Seq<char>>), Fault>(f),
                            search,
                        ));
                        return Err(f);
                    },
                    Ok(state) => {
                        next = state;
                    },
                }
            },
            ProcessingState::PlayerIsTargeting { range, entity } => {
                let result = draw_player_ranged_targeting(range, &self.ecs, input);
                match result.0 {
                    TargetSelectionState::Cancel => {
                        next = ProcessingState::WaitingForInput;
                    },
                    TargetSelectionState::Selecting => {
                        next = ProcessingState::PlayerIsTargeting { range, entity };
                    },
                    TargetSelectionState::Selected => {
                        let player = self.ecs.player;
                        let used = Item::use_item(&mut self.ecs.store, &player, &entity, result.1);
                        assert(used is Ok);
                        next = ProcessingState::PlayerTurn;
                    },
                }
            },
            _ => {
                match self.run_systems(search) {
                    Err(f) => {
                        assert(phase_done(
                            &old(self).ecs,
                            &self.ecs,
                            *input,
                            Err::<(ProcessingState, Seq<Seq<char>>), Fault>(f),
                            search,
                        ));
                        return Err(f);
                    },
                    Ok(heard) => {
                        sounds = heard;
                    },
                }
                match effective {
                    ProcessingState::Dialog => {
                        shown = true;
                    },
                    ProcessingState::Internal => {
                        next = ProcessingState::WaitingForInput;
                    },
                    ProcessingState::PlayerTurn => {
                        next = ProcessingState::MonsterTurn;
                    },
                    _ => {
                        next = ProcessingState::Internal;
                    },
                }
            },
        }
        let ghost acted = self.ecs;
        let ghost phase = Ok::<(ProcessingState, Seq<Seq<char>>), Fault>((next, texts(sounds@)));
        let ghost phase_next = next;
        assert(phase_done(&old(self).ecs, &acted, *input, phase, search));
        DamageSystem::clean_up(&mut self.ecs);
        let ghost cleaned = self.ecs;
        assert(swept(&acted, &cleaned));
        if shown {
            let dialog = self.ecs.dialog.take();
            match dialog {
                None => {},
                Some(dialog) => {
                    match dialog.show(&mut self.ecs.store, &mut self.ecs.quit, input.key) {
                        Err(f) => {
                            assert(dialog_fault(&cleaned, shown, input.key) == Some(f));
                            return Err(f);
                        },
                        Ok(DialogResult::Consumed { next_state }) => {
                            next = next_state;
                        },
                        Ok(DialogResult::Waiting) => {
                            self.ecs.dialog = Some(dialog);
                        },
                    }
                },
            }
        }
        self.update_processing_state(&next);
        let report = TickReport { sounds, dialog_shown: shown };
        proof {
            assert(dialog_fault(&cleaned, shown, input.key) is None);
            assert(settled(&cleaned, &self.ecs, shown, phase_next, input.key));
        }
        Ok(report)
    }
}

} // verus!
