//! Planning and supervision of simulated input.
//!
//! A request from a user interface (click a mouse button, type a text, press a
//! key together with held modifiers) is turned into the exact sequence of
//! events that has to be handed to the operating system's input services, and a
//! [`Dispatch`] supervises handing them over: it says which event comes next,
//! takes note of how the service answered, and stops at the first failure.
//!
//! The library itself injects nothing. It decides what is sent and in which
//! order; sending is left to the program that embeds it.

pub mod dispatch;
pub mod event;
pub mod plan;
pub mod request;

pub use dispatch::{Dispatch, Status};
pub use event::{Direction, InputEvent, Key};
pub use request::{KeyboardCombination, MouseButton, RequestError};
