//! The errors of the library. The text shown to the user for each is chosen
//! by the program around the library, in the user's language.

use vstd::prelude::*;

verus! {

/// Why an operation was refused.
#[derive(Debug, PartialEq, Eq)]
pub enum PvmError {
    /// The home directory could not be found.
    HomeNotFound,
    /// The version is not of the form `X.Y.Z`.
    InvalidVersion(String),
    /// A path leaves the directory it must stay in.
    OutsideDirectory,
    /// The version is not installed.
    NotInstalled(String),
    /// The version is already installed.
    AlreadyInstalled(String),
    /// The version to remove is the active one.
    ActiveVersion(String),
    /// No version is active.
    NoActiveVersion,
    /// The Python executable is missing from the version's directory.
    PythonNotFound(String),
    /// The language name is not known.
    UnknownLanguage(String),
    /// The machine architecture has no prebuilt Python.
    UnsupportedArchitecture(String),
    /// No stable release matches the requested `X.Y`.
    NoStableVersion(String),
}

} // verus!
