use vstd::prelude::*;

verus! {

/// Arguments of the list command.
#[derive(Clone, Copy, PartialEq, Eq, Structural, Debug)]
pub struct ListArgs {
    /// List the persisted installed record instead of the declared set.
    pub installed: bool,
}

/// The lifecycle commands the reconciler runs.
#[derive(Clone, Copy, PartialEq, Eq, Structural, Debug)]
pub enum Commands {
    /// Install every declared package not yet recorded as installed.
    Install,
    /// Show the declared set, or with `installed` the persisted record.
    List(ListArgs),
    /// Uninstall every recorded package no longer declared.
    Purge,
    /// Reinstall every declared package, re-resolving version and channel.
    Update,
}

/// One invocation's parsed command line.
#[derive(Clone, Copy, PartialEq, Eq, Structural, Debug)]
pub struct Cli {
    pub command: Commands,
}

} // verus!
