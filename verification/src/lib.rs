//! A slash-command definition and dispatch layer for chat platforms.
//!
//! Commands are declared as a tree of leaves (directly invokable, with a
//! typed argument signature) and groups (containers of subcommands, two
//! levels deep at most). The library turns that tree into the platform's
//! wire descriptor shape for registration, routes incoming interaction
//! events to the handler bound to exactly one leaf, and coerces wire-level
//! option values into native parameter types.
//!
//! All network traffic (registration pushes, lookups, replies) is carried
//! out by the hosting process; this crate computes what to send and how to
//! interpret what was received.

pub mod argument;
pub mod command;
pub mod context;
pub mod framework;
pub mod numbers;
pub mod router;
pub mod utils;
pub mod wire;

pub use command::Command;
pub use context::Context;
pub use framework::CommandGroup;
pub use framework::Framework;
pub use framework::SubCommands;
pub use utils::clamp;
pub use utils::clamp_max;
pub use utils::clamp_min;
