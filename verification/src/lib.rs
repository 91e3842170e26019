//! A registry of console commands and the rules by which a line of text
//! selects one of them.
//!
//! A command is a name with up to two handlers: one that takes no arguments
//! and one that takes a list of string arguments. Handlers are identified by
//! the bits of the entity that holds the system in the host's world; running
//! a handler is the host's business, deciding which one runs is this crate's.

pub mod handler;
pub mod store;
pub mod registry;
pub mod line;
pub mod dispatch;
pub mod laws;

pub use crate::dispatch::{Dispatch, Invocation, Outcome, Report, Severity};
pub use crate::handler::{CliCommandSystems, HandlerId, VariantKind};
pub use crate::line::{parse_line, split_line, CommandLine};
pub use crate::registry::{CliCommands, RenameError};
