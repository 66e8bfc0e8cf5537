//! The requests that a user interface can make.

use vstd::prelude::*;

use crate::event::Key;

verus! {

/// A button of the mouse.
#[derive(Clone, Copy, Debug, PartialEq, Eq, Hash)]
pub enum MouseButton {
    Left,
    Middle,
    Right,
}

/// A key to press while any of Ctrl, Shift and Alt are held.
///
/// The key is chosen in one of two ways. With `use_unicode` set it is the key
/// that produces the character `key_name`; otherwise it is the key with the
/// platform's code `key_code`. `key_name` may be absent as long as
/// `use_unicode` is not set.
#[derive(Clone, Copy, Debug, PartialEq, Eq, Hash)]
pub struct KeyboardCombination {
    pub hold_ctrl: bool,
    pub hold_shift: bool,
    pub hold_alt: bool,
    pub key_code: u32,
    pub key_name: Option<char>,
    pub use_unicode: bool,
}

/// Why a request cannot be carried out.
#[derive(Clone, Copy, Debug, PartialEq, Eq, Hash)]
pub enum RequestError {
    /// The key was to be chosen by its character, and no character was given.
    MissingKeyName,
}

impl KeyboardCombination {
    /// The key that the combination presses, if the request names one.
    pub open spec fn target(self) -> Option<Key> {
        if self.use_unicode {
            match self.key_name {
                Some(name) => Some(Key::Unicode(name)),
                None => None,
            }
        } else {
            Some(Key::Other(self.key_code))
        }
    }

    /// Whether the combination holds `key` down. Only Ctrl, Shift and Alt can be
    /// held.
    pub open spec fn holds(self, key: Key) -> bool {
        match key {
            Key::Control => self.hold_ctrl,
            Key::Shift => self.hold_shift,
            Key::Alt => self.hold_alt,
            _ => false,
        }
    }

    /// The place of a held modifier among the held ones, counted from 0 in the
    /// order Ctrl, Shift, Alt.
    pub open spec fn rank(self, key: Key) -> nat {
        let ctrl: nat = if self.hold_ctrl { 1 } else { 0 };
        let shift: nat = if self.hold_shift { 1 } else { 0 };
        match key {
            Key::Shift => ctrl,
            Key::Alt => ctrl + shift,
            _ => 0,
        }
    }

    /// The number of modifiers that the combination holds.
    pub open spec fn held_count(self) -> nat {
        let ctrl: nat = if self.hold_ctrl { 1 } else { 0 };
        let shift: nat = if self.hold_shift { 1 } else { 0 };
        let alt: nat = if self.hold_alt { 1 } else { 0 };
        ctrl + shift + alt
    }

    /// The key that the combination presses: the one that produces `key_name`
    /// where `use_unicode` is set, the one with the code `key_code` where it is
    /// not. Fails exactly when `use_unicode` is set and `key_name` is absent.
    pub fn selector(&self) -> (key: Result<Key, RequestError>)
        ensures
            match self.target() {
                Some(target) => key == Ok::<Key, RequestError>(target),
                None => key == Err::<Key, RequestError>(RequestError::MissingKeyName),
            },
    {
        if self.use_unicode {
            match self.key_name {
                Some(name) => Ok(Key::Unicode(name)),
                None => Err(RequestError::MissingKeyName),
            }
        } else {
            Ok(Key::Other(self.key_code))
        }
    }
}

} // verus!
