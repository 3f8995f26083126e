//! Command dispatch and template resolution for a chat-channel bot.

pub mod command;
pub mod commands;
pub mod error;
pub mod number;
pub mod template;
pub mod uptime;

pub use command::{split_user_cmd, Command, Identity};
pub use commands::{Action, Commands, State};
pub use error::KappaError;
pub use uptime::as_readable_time;

use vstd::prelude::*;

verus! {

/// The bot: a session that feeds each chat line of its channels to a
/// [`Commands`] dispatcher and carries out the actions it returns.
pub struct Bot;

} // verus!
