//! An in-process interactive command-line interpreter: a line parser with
//! quoting rules, a typed-argument conversion protocol, a command registry
//! with help rendering, a per-command argument binder, and a session state
//! machine holding the edit buffer, scrollback, and bounded history.

pub mod text;
pub mod value;
pub mod parser;
pub mod help;
pub mod registry;
pub mod dispatch;
pub mod session;
pub mod commands;

pub use crate::dispatch::{
    CommandArgs, CommandHelp, CommandName, PrintTerminalLine, TerminalCommand,
    TerminalCommandEntered,
};
pub use crate::help::{CommandArgInfo, CommandInfo};
pub use crate::parser::{parse, ParseError, ParsedCommand};
pub use crate::registry::TerminalConfiguration;
pub use crate::session::TerminalState;
pub use crate::value::{FromValueError, Value, ValueType};
