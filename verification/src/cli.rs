//! What the command line selects.

use crate::commands::remap::RemapArgs;
use vstd::prelude::*;

verus! {

/// A parsed command line.
#[derive(Debug)]
pub struct Cli {
    pub command: Commands,
}

/// The subcommands.
#[derive(Debug)]
pub enum Commands {
    /// Remap UID/GID ranges below a directory.
    Remap(RemapArgs),
}

} // verus!
