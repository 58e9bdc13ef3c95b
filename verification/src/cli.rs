//! A parsed command line, free of any argument-parser types.
use vstd::prelude::*;

verus! {

/// The subcommands of the tool.
pub enum Commands {
    /// List files and directories below the path, or the current directory
    /// when none is given.
    List { path: Option<String> },
    /// Display the current local time.
    Time,
    /// Information about the program and its author.
    About,
}

/// A parsed command line.
pub struct Cli {
    /// The chosen subcommand, if any.
    pub command: Option<Commands>,
    /// Emit JSON instead of a rendered table.
    pub json: bool,
}

} // verus!
