//! Declared commands for a command-line front end.
//!
//! A command is declared as a short token sequence: its name, its positional
//! arguments and its groups of flags. The declaration is parsed into a
//! [`CommandSpec`] and compiled into a [`CommandShape`]. The shape parses a raw
//! list of tokens into a [`CommandRecord`], or says why it cannot. A
//! [`Dispatcher`] holds the declared commands in order, adds a `help` command
//! that describes them, and resolves one invocation to one action.
//!
//! Everything here is a pure function of its arguments. Reading the process
//! arguments, printing and running a command are left to the caller.

pub mod decl;
pub mod dispatch;
pub mod laws;
pub mod parse;
pub mod record;
pub mod shape;
pub mod text;

pub use decl::{new_opc_command, CommandSpec, DeclToken, Delimiter, FlagGroup, InvalidDeclaration};
pub use dispatch::{serve_opc, Command, Dispatch, Dispatcher};
pub use parse::{ParseError, ParseOutcome};
pub use record::{CommandRecord, FlagValue, TextValue};
pub use shape::{sopc_derive, CommandShape, FlagField};
