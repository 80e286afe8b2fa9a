//! A leaf command: a named, described, directly invokable unit with a
//! typed argument signature and a bound handler.

use vstd::prelude::*;

use crate::argument::CommandSignature;

verus! {

/// Error raised by a failing command execution.
#[derive(Debug, Clone)]
pub struct CommandError {}

/// The handler bound to a leaf command, as an opaque token. The hosting
/// process owns the table from tokens to executable handlers; routing
/// identifies which token to invoke, and the invocation itself happens
/// outside this crate.
#[derive(Debug, Clone, Copy, PartialEq, Eq, Structural)]
pub struct CommandHandler(pub u64);

/// A directly invokable command. `guilds` is the guild scope: `None`
/// registers the command globally, `Some` restricts it to the listed
/// guilds.
#[derive(Debug, Clone)]
pub struct Command {
    pub name: String,
    pub description: String,
    pub guilds: Option<Vec<u64>>,
    pub arguments: CommandSignature,
    pub action: CommandHandler,
}

} // verus!
