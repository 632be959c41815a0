//! Plain data shared between the systems: the message log and the queued
//! click-to-move path of the player.

use vstd::prelude::*;
use vstd::string::StringExecFns;
use crate::config;
use crate::text::without;

verus! {

/// The message stream of the game.
#[derive(Debug)]
pub struct GameLog {
    /// The messages, oldest first.
    pub messages: Vec<String>,
}

impl View for GameLog {
    type V = Seq<Seq<char>>;

    open spec fn view(&self) -> Seq<Seq<char>> {
        Seq::new(self.messages@.len(), |i: int| self.messages@[i]@)
    }
}

impl GameLog {
    /// The first message of a fresh log: the game's name and version.
    pub open spec fn spec_title() -> Seq<char> {
        config::GAME_NAME@ + " "@ + config::GAME_VERSION@
    }

    /// Creates a log that starts with the game's name and version and an
    /// introductory message.
    pub fn new() -> (log: Self)
        ensures
            log@ == seq![Self::spec_title(), "You entered the dungeon..."@],
    {
        let mut title = String::from_str(config::GAME_NAME);
        title.append(" ");
        title.append(config::GAME_VERSION);
        let mut messages: Vec<String> = Vec::new();
        messages.push(title);
        messages.push(String::from_str("You entered the dungeon..."));
        let log = GameLog { messages };
        assert(log@ =~= seq![Self::spec_title(), "You entered the dungeon..."@]);
        log
    }

    /// Creates a log without messages.
    pub fn new_empty() -> (log: Self)
        ensures
            log@ == Seq::<Seq<char>>::empty(),
    {
        let log = GameLog { messages: Vec::new() };
        assert(log@ =~= Seq::<Seq<char>>::empty());
        log
    }

    /// Appends `message` to the log.
    pub fn messages_push(&mut self, message: &str)
        ensures
            final(self)@ == old(self)@.push(message@),
    {
        self.messages.push(String::from_str(message));
        assert(self@ =~= old(self)@.push(message@));
    }

    /// Appends an owned `message` to the log.
    pub fn push_owned(&mut self, message: String)
        ensures
            final(self)@ == old(self)@.push(message@),
    {
        self.messages.push(message);
        assert(self@ =~= old(self)@.push(message@));
    }

    /// Removes every occurrence of `message` from the log.
    pub fn messages_remove(&mut self, message: &String)
        ensures
            final(self)@ == without(old(self)@, message@),
    {
        let mut kept: Vec<String> = Vec::new();
        let mut i: usize = 0;
        let ghost before = self@;
        while i < self.messages.len()
            invariant
                i <= self.messages.len(),
                self@ == before,
                Seq::new(kept@.len(), |k: int| kept@[k]@) == without(
                    before.take(i as int),
                    message@,
                ),
            decreases self.messages.len() - i,
        {
            proof {
                assert(before.take(i as int + 1).drop_last() =~= before.take(i as int));
                assert(before.take(i as int + 1).last() == self.messages@[i as int]@);
            }
            let ghost shown = Seq::new(kept@.len(), |k: int| kept@[k]@);
            if self.messages[i] != *message {
                kept.push(self.messages[i].clone());
                assert(Seq::new(kept@.len(), |k: int| kept@[k]@) =~= shown.push(
                    self.messages@[i as int]@,
                ));
            }
            i += 1;
        }
        assert(before.take(i as int) =~= before);
        self.messages = kept;
        assert(self@ =~= without(before, message@));
    }

    /// Removes all messages from the log.
    pub fn clear(&mut self)
        ensures
            final(self)@ == Seq::<Seq<char>>::empty(),
    {
        self.messages.clear();
        assert(self@ =~= Seq::<Seq<char>>::empty());
    }

    /// Calls `block` with each message, newest first. Each message is left
    /// as its call of `block` leaves it: for every message there is a
    /// reference that held the message before, holds it after, and meets what
    /// a call of `block` ensures.
    pub fn messages_for_each_rev<F>(&mut self, block: F) where F: FnMut(&mut String)
        requires
            forall|message: &mut String| call_requires(block, (message,)),
        ensures
            final(self).messages@.len() == old(self).messages@.len(),
            exists|handed: Seq<&mut String>|
                #![trigger handed.len()]
                handed.len() == old(self).messages@.len() && forall|k: int|
                    0 <= k < handed.len() ==> *(#[trigger] handed[k]) == old(self).messages@[k]
                        && *final(handed[k]) == final(self).messages@[k]
                        && call_ensures(block, (handed[k],), ()),
    {
        let count = self.messages.len();
        let mut called = block;
        call_on_each_below(&mut self.messages, &mut called, count);
    }
}

/// Calls `block` with each of the first `count` messages, the last of them
/// first.
fn call_on_each_below<F>(messages: &mut Vec<String>, block: &mut F, count: usize) where
    F: FnMut(&mut String),

    requires
        count <= old(messages)@.len(),
        forall|message: &mut String| call_requires(*old(block), (message,)),
    ensures
        final(messages)@.len() == old(messages)@.len(),
        *final(block) == *old(block),
        forall|k: int|
            count <= k < old(messages)@.len() ==> final(messages)@[k] == old(messages)@[k],
        exists|handed: Seq<&mut String>|
            #![trigger handed.len()]
            handed.len() == count && forall|k: int|
                0 <= k < count ==> *(#[trigger] handed[k]) == old(messages)@[k]
                    && *final(handed[k]) == final(messages)@[k]
                    && call_ensures(*old(block), (handed[k],), ()),
    decreases count,
{
    broadcast use vstd::function::group_function_axioms;

    if count > 0 {
        block(&mut messages[count - 1]);
        let ghost middle = messages@;
        let ghost last = choose|message: &mut String|
            *message == old(messages)@[count - 1] && *final(message) == middle[count - 1]
                && #[trigger] call_ensures(*old(block), (message,), ());
        call_on_each_below(messages, block, count - 1);
        proof {
            let rest = choose|handed: Seq<&mut String>|
                #![trigger handed.len()]
                handed.len() == count - 1 && forall|k: int|
                    0 <= k < count - 1 ==> *(#[trigger] handed[k]) == middle[k]
                        && *final(handed[k]) == messages@[k]
                        && call_ensures(*old(block), (handed[k],), ());
            let all = rest.push(last);
            assert(all.len() == count);
            assert forall|k: int| 0 <= k < count implies *(#[trigger] all[k]) == old(messages)@[k]
                && *final(all[k]) == messages@[k]
                && call_ensures(*old(block), (all[k],), ()) by {
                if k < count - 1 {
                    assert(all[k] == rest[k]);
                }
            }
        }
    } else {
        assert(Seq::<&mut String>::empty().len() == 0);
    }
}

/// The queued steps of the player's click-to-move path.
#[derive(Debug)]
pub struct PlayerPathing {
    /// Map indices still to walk; the next step is the last entry.
    steps: Vec<usize>,
}

impl View for PlayerPathing {
    type V = Seq<usize>;

    closed spec fn view(&self) -> Seq<usize> {
        self.steps@
    }
}

impl PlayerPathing {
    /// Creates an empty path.
    pub fn new() -> (pathing: Self)
        ensures
            pathing@ == Seq::<usize>::empty(),
    {
        PlayerPathing { steps: Vec::new() }
    }

    /// Removes the next step from the path and returns it, if there is one.
    pub fn pop(&mut self) -> (step: Option<usize>)
        ensures
            old(self)@.len() == 0 ==> step is None && final(self)@ == old(self)@,
            old(self)@.len() > 0 ==> step == Some(old(self)@.last()) && final(self)@ == old(
                self,
            )@.drop_last(),
    {
        self.steps.pop()
    }

    /// Replaces the path by `steps`, which is left empty.
    pub fn update(&mut self, steps: &mut Vec<usize>)
        ensures
            final(self)@ == old(steps)@,
            final(steps)@ == Seq::<usize>::empty(),
    {
        self.steps.clear();
        self.steps.append(steps);
    }

    /// Queues the steps of a path that was found, without its first tile, if
    /// the path has more than one tile and its end is in sight; the first
    /// step to take is the last entry. Any other path leaves the queue as
    /// it is.
    pub fn queue(&mut self, success: bool, steps: Vec<usize>, in_sight: bool)
        ensures
            final(self)@ == if success && steps@.len() > 1 && in_sight {
                steps@.drop_first().reverse()
            } else {
                old(self)@
            },
    {
        if success && steps.len() > 1 && in_sight {
            let mut reversed: Vec<usize> = Vec::new();
            let mut k: usize = steps.len();
            while k > 1
                invariant
                    1 <= k <= steps@.len(),
                    reversed@.len() == steps@.len() - k,
                    forall|j: int|
                        0 <= j < reversed@.len() ==> reversed@[j] == steps@[steps@.len() - 1 - j],
                decreases k,
            {
                k -= 1;
                reversed.push(steps[k]);
            }
            assert(reversed@ =~= steps@.drop_first().reverse());
            self.update(&mut reversed);
        }
    }

    /// Removes all steps from the path.
    pub fn clear(&mut self)
        ensures
            final(self)@ == Seq::<usize>::empty(),
    {
        self.steps.clear();
    }
}

} // verus!
