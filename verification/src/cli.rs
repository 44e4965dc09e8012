use vstd::prelude::*;

verus! {

/// What the program was asked to do: render graphs, or, with no subcommand,
/// take one sampling tick.
pub enum Command {
    Graph,
}

/// The parsed command line.
pub struct Cli {
    pub command: Option<Command>,
}

} // verus!
