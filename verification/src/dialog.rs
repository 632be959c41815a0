//! In-game dialogs: a title, a message and options, each of which names the
//! action to carry out when the player selects it.

use vstd::prelude::*;
use vstd::string::StringExecFns;
use crate::components::Entity;
use crate::config;
use crate::functions::{virtual_key_code_to_string, VirtualKeyCode};
use crate::items::Item;
use crate::messages::{option_label_message, option_label_text};
use crate::store::{Components, Fault, Store};
use crate::world::{ProcessingState, World};

verus! {

/// What the selection of a dialog option does.
#[derive(Clone, Copy, PartialEq, Eq, Structural, Debug)]
pub enum DialogAction {
    /// Closes the dialog.
    Dismiss,
    /// Ends the game.
    Quit,
    /// Lets `owner` drop `item`.
    DropItem { owner: Entity, item: Entity },
    /// Lets `user` use `item`.
    UseItem { user: Entity, item: Entity },
}

/// All results of showing a dialog.
#[derive(Clone, Copy, PartialEq, Eq, Structural, Debug)]
pub enum DialogResult {
    /// The player has made a selection and the dialog can be removed.
    Consumed {
        /// The processing state that the game changes into.
        next_state: ProcessingState,
    },
    /// The dialog waits for the player.
    Waiting,
}

/// An option that the player can select on a dialog.
#[derive(Debug)]
pub struct DialogOption {
    /// Description of the option.
    pub description: String,
    /// The key that selects the option.
    pub key: VirtualKeyCode,
    /// What the selection of the option does.
    pub action: DialogAction,
}

/// A dialog that is shown on top of the game.
#[derive(Debug)]
pub struct DialogInterface {
    /// Title of the dialog.
    pub title: String,
    /// Message body of the dialog.
    pub message: Option<String>,
    /// The options that the player can select.
    pub options: Vec<DialogOption>,
    /// Whether the player can close the dialog without a selection.
    pub cancelable: bool,
}

/// Where a dialog is drawn.
#[derive(Clone, Copy, PartialEq, Eq, Structural, Debug)]
pub struct DialogFrame {
    /// Left column of the frame.
    pub x: i32,
    /// Top row of the frame.
    pub y: i32,
    /// Width of the frame.
    pub width: i32,
    /// Height of the frame.
    pub height: i32,
}

/// The first of the first `n` options that `key` selects, or `n` if it
/// selects none.
pub open spec fn selected_option(options: Seq<DialogOption>, n: int, key: VirtualKeyCode) -> int
    decreases n,
{
    if n <= 0 {
        0
    } else {
        let before = selected_option(options, n - 1, key);
        if before < n - 1 {
            before
        } else if options[n - 1].key == key {
            n - 1
        } else {
            n
        }
    }
}

/// The option found by `selected_option` is the first that `key` selects.
pub proof fn lemma_selected_option(options: Seq<DialogOption>, n: int, key: VirtualKeyCode)
    requires
        0 <= n <= options.len(),
    ensures
        0 <= selected_option(options, n, key) <= n,
        selected_option(options, n, key) < n ==> options[selected_option(options, n, key)].key
            == key,
        forall|j: int| 0 <= j < selected_option(options, n, key) ==> options[j].key != key,
    decreases n,
{
    if n > 0 {
        lemma_selected_option(options, n - 1, key);
    }
}

/// The store after `action` has been carried out.
pub open spec fn action_store(action: DialogAction, store: &Store) -> Seq<Option<Components>> {
    match action {
        DialogAction::DropItem { owner, item } => store.slots@.update(
            owner.id as int,
            Some(
                Components {
                    drop_item: Some(crate::components::DropItem { item }),
                    ..store.of(owner)
                },
            ),
        ),
        DialogAction::UseItem { user, item } => if store.alive(item) && store.of(
            item,
        ).ranged is Some {
            store.slots@
        } else {
            store.slots@.update(
                user.id as int,
                Some(
                    Components {
                        use_item: Some(crate::components::UseItem { item, target: None }),
                        ..store.of(user)
                    },
                ),
            )
        },
        _ => store.slots@,
    }
}

/// The processing state after `action` has been carried out.
pub open spec fn action_state(action: DialogAction, store: &Store) -> ProcessingState {
    match action {
        DialogAction::Dismiss => ProcessingState::Internal,
        DialogAction::Quit => ProcessingState::Internal,
        DialogAction::DropItem { owner, item } => ProcessingState::PlayerTurn,
        DialogAction::UseItem { user, item } => if store.alive(item) && store.of(
            item,
        ).ranged is Some {
            ProcessingState::PlayerIsTargeting { range: store.of(item).ranged->0.range, entity: item }
        } else {
            ProcessingState::PlayerTurn
        },
    }
}

/// What stops `action`, if anything: an owner or a user that does not
/// exist.
pub open spec fn action_fault(action: DialogAction, store: &Store) -> Option<Fault> {
    match action {
        DialogAction::DropItem { owner, item } => if store.alive(owner) {
            None
        } else {
            Some(Fault::MissingEntity(owner))
        },
        DialogAction::UseItem { user, item } => if (store.alive(item) && store.of(
            item,
        ).ranged is Some) || store.alive(user) {
            None
        } else {
            Some(Fault::MissingEntity(user))
        },
        _ => None,
    }
}

impl DialogAction {
    /// Carries the action out and returns the processing state that follows
    /// it. Quitting raises `quit`; dropping an item and using one place the
    /// request with the entity and let the player's turn begin; using an
    /// item with a range begins the selection of its target instead.
    pub fn perform(&self, store: &mut Store, quit: &mut bool) -> (r: Result<
        ProcessingState,
        Fault,
    >)
        ensures
            final(store).doomed == old(store).doomed,
            match action_fault(*self, old(store)) {
                Some(f) => r == Err::<ProcessingState, Fault>(f) && final(store).slots == old(
                    store,
                ).slots && *final(quit) == *old(quit),
                None => {
                    &&& r == Ok::<ProcessingState, Fault>(action_state(*self, old(store)))
                    &&& final(store).slots@ == action_store(*self, old(store))
                    &&& *final(quit) == (*old(quit) || *self == DialogAction::Quit)
                },
            },
    {
        match *self {
            DialogAction::Dismiss => Ok(ProcessingState::Internal),
            DialogAction::Quit => {
                *quit = true;
                Ok(ProcessingState::Internal)
            },
            DialogAction::DropItem { owner, item } => {
                match Item::drop_item(store, &owner, &item) {
                    Err(f) => Err(f),
                    Ok(()) => Ok(ProcessingState::PlayerTurn),
                }
            },
            DialogAction::UseItem { user, item } => {
                let ranged = match store.get(item) {
                    Some(c) => c.ranged,
                    None => None,
                };
                match ranged {
                    Some(ranged) => Ok(
                        ProcessingState::PlayerIsTargeting { range: ranged.range, entity: item },
                    ),
                    None => {
                        match Item::use_item(store, &user, &item, None) {
                            Err(f) => Err(f),
                            Ok(()) => Ok(ProcessingState::PlayerTurn),
                        }
                    },
                }
            },
        }
    }
}

impl DialogOption {
    /// Creates the option that closes a dialog.
    pub fn create_cancel_option() -> (option: DialogOption)
        ensures
            option.description@ == "Dismiss"@,
            option.key == VirtualKeyCode::Escape,
            option.action == DialogAction::Dismiss,
    {
        DialogOption {
            description: String::from_str("Dismiss"),
            key: VirtualKeyCode::Escape,
            action: DialogAction::Dismiss,
        }
    }

    /// The label of the option: its key in brackets, then its description.
    pub fn label(&self) -> (label: String)
        ensures
            label@ == option_label_text(crate::functions::key_name(self.key), self.description@),
    {
        option_label_message(virtual_key_code_to_string(self.key), self.description.as_str())
    }
}

impl DialogInterface {
    /// What the dialog does when `key` is pressed: the action of the first
    /// option that the key selects; closing, for the escape key on a dialog
    /// that can be closed; and nothing otherwise.
    pub open spec fn chosen(&self, key: Option<VirtualKeyCode>) -> Option<DialogAction> {
        match key {
            None => None,
            Some(key) => {
                let found = selected_option(self.options@, self.options@.len() as int, key);
                if found < self.options@.len() {
                    Some(self.options@[found].action)
                } else if self.cancelable && key == VirtualKeyCode::Escape {
                    Some(DialogAction::Dismiss)
                } else {
                    None
                }
            },
        }
    }

    /// Registers a dialog with the world, in place of any dialog registered
    /// before. It is shown from the next tick on.
    pub fn register_dialog(
        ecs: &mut World,
        title: String,
        message: Option<String>,
        options: Vec<DialogOption>,
        cancelable: bool,
    )
        ensures
            *final(ecs) == (World {
                dialog: Some(DialogInterface { title, message, options, cancelable }),
                ..*old(ecs)
            }),
    {
        ecs.dialog = Some(DialogInterface { title, message, options, cancelable });
    }

    /// The action that `key` selects on the dialog, if any.
    pub fn select(&self, key: Option<VirtualKeyCode>) -> (action: Option<DialogAction>)
        ensures
            action == self.chosen(key),
    {
        let pressed = match key {
            Some(pressed) => pressed,
            None => {
                return None;
            },
        };
        let mut i: usize = 0;
        while i < self.options.len()
            invariant
                key == Some(pressed),
                i <= self.options@.len(),
                selected_option(self.options@, i as int, pressed) == i,
            decreases self.options@.len() - i,
        {
            if self.options[i].key == pressed {
                proof {
                    assert(selected_option(self.options@, i as int + 1, pressed) == i);
                    lemma_selected_stays(
                        self.options@,
                        i as int + 1,
                        self.options@.len() as int,
                        pressed,
                    );
                }
                return Some(self.options[i].action);
            }
            i += 1;
        }
        if self.cancelable && pressed == VirtualKeyCode::Escape {
            Some(DialogAction::Dismiss)
        } else {
            None
        }
    }

    /// Reacts to the key that was pressed while the dialog is shown: carries
    /// out the action that the key selects, and tells which processing state
    /// follows; or waits, if the key selects nothing.
    pub fn show(&self, store: &mut Store, quit: &mut bool, key: Option<VirtualKeyCode>) -> (r:
        Result<DialogResult, Fault>)
        ensures
            final(store).doomed == old(store).doomed,
            match self.chosen(key) {
                None => r == Ok::<DialogResult, Fault>(DialogResult::Waiting) && final(store).slots
                    == old(store).slots && *final(quit) == *old(quit),
                Some(action) => match action_fault(action, old(store)) {
                    Some(f) => r == Err::<DialogResult, Fault>(f) && final(store).slots == old(
                        store,
                    ).slots && *final(quit) == *old(quit),
                    None => {
                        &&& r == Ok::<DialogResult, Fault>(
                            DialogResult::Consumed { next_state: action_state(action, old(store)) },
                        )
                        &&& final(store).slots@ == action_store(action, old(store))
                        &&& *final(quit) == (*old(quit) || action == DialogAction::Quit)
                    },
                },
            },
    {
        match self.select(key) {
            None => Ok(DialogResult::Waiting),
            Some(action) => {
                match action.perform(store, quit) {
                    Err(f) => Err(f),
                    Ok(next_state) => Ok(DialogResult::Consumed { next_state }),
                }
            },
        }
    }

    /// The number of characters of the message; 1 without a message.
    pub open spec fn message_length(&self) -> int {
        match self.message {
            Some(message) => message@.len() as int,
            None => 1,
        }
    }

    /// The height of the frame of the dialog: the lines of the message,
    /// broken at the frame's width, two rows for each option, and three more.
    pub open spec fn frame_height(&self) -> int {
        (self.message_length() + config::MAP_WIDTH * 2 / 5 - 1) / (config::MAP_WIDTH * 2 / 5 as int)
            + 2 * self.options@.len() + 3
    }

    /// The frame in which the dialog is drawn: two fifths of the map wide,
    /// high enough for the message, broken into lines of the frame's width,
    /// and two rows for each option, and centered on the map.
    pub fn frame(&self) -> (frame: DialogFrame)
        requires
            self.frame_height() <= i32::MAX,
        ensures
            frame.width == config::MAP_WIDTH * 2 / 5,
            frame.height == self.frame_height(),
            frame.x == config::MAP_WIDTH / 2 - frame.width / 2,
            frame.y == config::MAP_HEIGHT / 2 - frame.height / 2,
    {
        let length: usize = match &self.message {
            Some(message) => message.as_str().unicode_len(),
            None => 1,
        };
        let width: i32 = config::MAP_WIDTH * 2 / 5;
        let lines: u128 = (length as u128 + width as u128 - 1) / width as u128;
        let height: i32 = (lines + 2 * self.options.len() as u128 + 3) as i32;
        DialogFrame {
            x: config::MAP_WIDTH / 2 - width / 2,
            y: config::MAP_HEIGHT / 2 - height / 2,
            width,
            height,
        }
    }
}

/// Once an option is found, looking further does not change the answer.
proof fn lemma_selected_stays(options: Seq<DialogOption>, found: int, n: int, key: VirtualKeyCode)
    requires
        0 < found <= n,
        selected_option(options, found, key) == found - 1,
    ensures
        selected_option(options, n, key) == found - 1,
    decreases n - found,
{
    if found < n {
        lemma_selected_stays(options, found, n - 1, key);
    }
}

} // verus!
