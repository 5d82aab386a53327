//! The command surface, as plain data. Argument parsing lives in the
//! binary; the engine dispatches on these values.

use vstd::prelude::*;

verus! {

/// One invocation: the command and the verbosity level.
#[derive(Debug)]
pub struct Cli {
    pub command: Command,
    pub verbose: u8,
}

/// The six user operations.
#[derive(Debug)]
pub enum Command {
    /// Display info about the system.
    Info,
    /// Check for updates of installed packages.
    Check(CheckArgs),
    /// List installed and available packages.
    List(ListArgs),
    /// Install a package.
    Install(InstallArgs),
    /// Uninstall a package.
    Uninstall { name: String },
    /// Update a package.
    Update(UpdateArgs),
}

#[derive(Debug)]
pub struct CheckArgs {
    pub all: bool,
}

#[derive(Debug)]
pub struct ListArgs {
    /// List all packages, not only the installed ones.
    pub all: bool,
    /// Output detailed information in a table format.
    pub detailed: bool,
}

#[derive(Debug)]
pub struct InstallArgs {
    /// The package to install; with none, only the ensure-installed pass
    /// runs.
    pub name: Option<String>,
    /// Install this version; the latest is resolved by default.
    pub version: Option<String>,
}

#[derive(Debug)]
pub struct UpdateArgs {
    /// The package to update.
    pub name: String,
    /// Update to this version; the latest is resolved by default.
    pub version: Option<String>,
}

} // verus!
