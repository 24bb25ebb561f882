//! A message-triggered command dispatcher for a chat bot.
//!
//! Incoming text is recognised as a command by a prefix or a suffix marker,
//! split into a trigger name and an argument string, and handed to the
//! handler registered under that name, whose reply text is returned.
use vstd::prelude::*;

pub mod bot;
pub mod laws;
pub mod options;
pub mod text;

verus! {

} // verus!
