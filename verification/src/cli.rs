//! The commands of pvm, as the argument parser reads them.

use vstd::prelude::*;
use crate::commands::env::Shell;

verus! {

/// The parsed command line.
pub struct Cli {
    pub command: Option<Commands>,
}

/// The subcommands.
pub enum Commands {
    /// Download and install a Python version.
    Install { version: String },
    /// Switch the active version and install the shims.
    Use { version: String },
    /// List locally installed versions.
    List,
    /// List the versions available for download.
    ListRemote { filter: Option<String> },
    /// Remove an installed version (not the active one).
    Uninstall { version: String },
    /// Set the global default version.
    Default { version: String },
    /// Print the command that puts the shims on the shell's PATH.
    Env { shell: Option<Shell> },
    /// Create a virtual environment pinned to an exact Python version.
    Venv { dir: String, args: Vec<String> },
    /// Remove pvm from the system.
    UninstallSelf,
    /// Manage the display language.
    Language { action: Option<LanguageAction> },
}

/// The actions of `pvm lang`.
pub enum LanguageAction {
    /// Change the display language.
    Change { language: String },
}

} // verus!
