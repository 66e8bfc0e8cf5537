//! The events that are handed to the operating system's input services.

use vstd::prelude::*;

use crate::request::MouseButton;

verus! {

/// A key of the keyboard.
#[derive(Clone, Copy, Debug, PartialEq, Eq, Hash)]
pub enum Key {
    Control,
    Shift,
    Alt,
    /// The key that produces this character, whatever the keyboard layout.
    Unicode(char),
    /// The key with this platform-specific code.
    Other(u32),
}

/// What is done to a key or a button.
#[derive(Clone, Copy, Debug, PartialEq, Eq, Hash)]
pub enum Direction {
    Press,
    Release,
    /// A press followed at once by a release.
    Click,
}

/// One call on an input service.
#[derive(Debug, PartialEq, Eq, Hash)]
pub enum InputEvent {
    /// Move a key of the keyboard.
    Key(Key, Direction),
    /// Move a button of the mouse, where the pointer stands.
    Button(MouseButton, Direction),
    /// Type a text, handed over whole and as it was given.
    Text(String),
}

impl Clone for InputEvent {
    fn clone(&self) -> (copy: InputEvent)
        ensures
            copy == *self,
    {
        match self {
            InputEvent::Key(key, direction) => InputEvent::Key(*key, *direction),
            InputEvent::Button(button, direction) => InputEvent::Button(*button, *direction),
            InputEvent::Text(text) => InputEvent::Text(text.clone()),
        }
    }
}

impl Key {
    /// Whether the key is one of Ctrl, Shift and Alt.
    pub open spec fn is_modifier(self) -> bool {
        self is Control || self is Shift || self is Alt
    }
}

/// The test for being `event`.
pub open spec fn is_event(event: InputEvent) -> spec_fn(InputEvent) -> bool {
    |other: InputEvent| other == event
}

/// The test for moving a key in `direction`.
pub open spec fn moves_key(direction: Direction) -> spec_fn(InputEvent) -> bool {
    |event: InputEvent| event matches InputEvent::Key(_, d) && d == direction
}

/// How often `event` occurs in `events`.
pub open spec fn occurrences(events: Seq<InputEvent>, event: InputEvent) -> nat {
    events.filter(is_event(event)).len()
}

/// The keys that are down once `events` have taken effect, none having been
/// down before. A click leaves its key as it found it.
pub open spec fn keys_down(events: Seq<InputEvent>) -> Set<Key>
    decreases events.len(),
{
    if events.len() == 0 {
        Set::<Key>::empty()
    } else {
        let before = keys_down(events.drop_last());
        match events.last() {
            InputEvent::Key(key, Direction::Press) => before.insert(key),
            InputEvent::Key(key, Direction::Release) => before.remove(key),
            _ => before,
        }
    }
}

} // verus!
