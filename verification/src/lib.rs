//! The logic of a chat bot that drives a download manager: messages are read
//! as commands, commands lead to replies or to calls whose outcome is
//! reported, and the notifications that the manager sends on its own are
//! passed on to one chat. Nothing here waits or sends: the caller does what
//! the functions ask for and tells them what came of it.

use vstd::prelude::*;

pub mod command;
pub mod dispatch;
pub mod parser;
pub mod relay;
pub mod text;

verus! {

/// The identifier of one chat, where updates come from and replies go to.
#[derive(Clone, Copy, Debug, PartialEq, Eq, Structural)]
pub struct ChatId(pub i64);

} // verus!
