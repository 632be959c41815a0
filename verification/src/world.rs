//! The world: the entity store together with the resources that the systems
//! share.

use vstd::prelude::*;
use crate::components::{Entity, Position};
use crate::data::{GameLog, PlayerPathing};
use crate::dialog::DialogInterface;
use crate::map::GameMap;
use crate::store::Store;

verus! {

/// All processing states the game can be in.
#[derive(Clone, Copy, PartialEq, Eq, Structural, Debug)]
pub enum ProcessingState {
    /// The systems run before control passes to the player.
    Internal,
    /// A dialog is shown and waits for a key.
    Dialog,
    /// The game waits for the input of the player.
    WaitingForInput,
    /// The action of the player is carried out.
    PlayerTurn,
    /// The player selects the target of an item.
    PlayerIsTargeting {
        /// The range of the item.
        range: i32,
        /// The item that is used.
        entity: Entity,
    },
    /// The actions of the monsters are carried out.
    MonsterTurn,
}

/// The entity store and the shared resources of the game.
pub struct World {
    /// All entities with their components.
    pub store: Store,
    /// The map of the level.
    pub map: GameMap,
    /// The message log.
    pub game_log: GameLog,
    /// The entity of the player.
    pub player: Entity,
    /// The last known position of the player.
    pub player_position: Position,
    /// The queued click-to-move path of the player.
    pub pathing: PlayerPathing,
    /// The stored processing state.
    pub state: ProcessingState,
    /// The dialog to show, if one is registered.
    pub dialog: Option<DialogInterface>,
    /// The random number generator, once it is registered.
    pub rng: Option<rltk::RandomNumberGenerator>,
    /// Whether the game has been asked to end.
    pub quit: bool,
}

impl World {
    /// The store and the map are well-formed.
    pub open spec fn wf(&self) -> bool {
        self.store.wf() && self.map.wf()
    }

    /// Creates a world around `map`, without entities, with an empty log, no
    /// dialog and no random number generator.
    pub fn new(map: GameMap) -> (world: Self)
        ensures
            world.map == map,
            world.store.slots@.len() == 0,
            world.store.doomed@.len() == 0,
            world.game_log@ == Seq::<Seq<char>>::empty(),
            world.player == (Entity { id: 0 }),
            world.player_position == (Position { x: 0, y: 0 }),
            world.pathing@ == Seq::<usize>::empty(),
            world.state == ProcessingState::Internal,
            world.dialog is None,
            world.rng is None,
            !world.quit,
    {
        World {
            store: Store::new(),
            map,
            game_log: GameLog::new_empty(),
            player: Entity { id: 0 },
            player_position: Position { x: 0, y: 0 },
            pathing: PlayerPathing::new(),
            state: ProcessingState::Internal,
            dialog: None,
            rng: None,
            quit: false,
        }
    }
}

} // verus!
