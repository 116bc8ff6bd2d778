//! The layout of pvm's directory tree under the user's home directory:
//!
//! ```text
//! ~/.pvm/versions/X.Y.Z   installed versions
//! ~/.pvm/aliases/current  link to the active version
//! ~/.pvm/aliases/default  link to the default version
//! ~/.pvm/bin              shims (python, pip, ...)
//! ```

use vstd::prelude::*;
use crate::error::PvmError;
use crate::paths::{join, join_path, within, has_root, pieces, no_parent_piece, lemma_join_within};
use crate::validate::{path_within, is_version, lemma_version_is_relative};

verus! {

pub open spec fn pvm_home_path(home: Seq<char>, windows: bool) -> Seq<char> {
    join_path(home, ".pvm"@, windows)
}

pub open spec fn versions_path(home: Seq<char>, windows: bool) -> Seq<char> {
    join_path(pvm_home_path(home, windows), "versions"@, windows)
}

pub open spec fn aliases_path(home: Seq<char>, windows: bool) -> Seq<char> {
    join_path(pvm_home_path(home, windows), "aliases"@, windows)
}

pub open spec fn current_alias_path(home: Seq<char>, windows: bool) -> Seq<char> {
    join_path(aliases_path(home, windows), "current"@, windows)
}

pub open spec fn default_alias_file(home: Seq<char>, windows: bool) -> Seq<char> {
    join_path(aliases_path(home, windows), "default"@, windows)
}

pub open spec fn version_path(home: Seq<char>, version: Seq<char>, windows: bool) -> Seq<char> {
    join_path(versions_path(home, windows), version, windows)
}

pub open spec fn bin_path(home: Seq<char>, windows: bool) -> Seq<char> {
    join_path(pvm_home_path(home, windows), "bin"@, windows)
}

pub open spec fn language_path(home: Seq<char>, windows: bool) -> Seq<char> {
    join_path(pvm_home_path(home, windows), "language"@, windows)
}

/// The user's home directory, from the `dirs` crate (`dirs::home_dir`), as
/// text (lossy where it is not valid UTF-8). It depends on the environment
/// (`HOME`, the password database), so nothing is stated of it.
#[verifier::external_body]
pub(crate) fn home_dir() -> Option<String> {
    dirs::home_dir().map(|p| p.to_string_lossy().into_owned())
}

/// pvm's root directory for the home directory `home`.
pub fn pvm_home_at(home: &str, windows: bool) -> (r: String)
    ensures
        r@ == pvm_home_path(home@, windows),
{
    join(home, ".pvm", windows)
}

/// pvm's root directory, `~/.pvm`, with the path rules of the platform
/// (`windows`).
pub fn pvm_home(windows: bool) -> (r: Result<String, PvmError>)
    ensures
        match r {
            Ok(p) => exists|h: Seq<char>| p@ == pvm_home_path(h, windows),
            Err(e) => e == PvmError::HomeNotFound,
        },
{
    match home_dir() {
        Some(h) => {
            let p = pvm_home_at(&h, windows);
            Ok(p)
        },
        None => Err(PvmError::HomeNotFound),
    }
}

/// Where versions are installed, `~/.pvm/versions`.
pub fn versions_dir(windows: bool) -> (r: Result<String, PvmError>)
    ensures
        match r {
            Ok(p) => exists|h: Seq<char>| p@ == versions_path(h, windows),
            Err(e) => e == PvmError::HomeNotFound,
        },
{
    let home = pvm_home(windows)?;
    let ghost h = choose|h: Seq<char>| home@ == pvm_home_path(h, windows);
    let p = join(&home, "versions", windows);
    assert(p@ == versions_path(h, windows));
    Ok(p)
}

/// Where the version aliases live, `~/.pvm/aliases`.
pub fn aliases_dir(windows: bool) -> (r: Result<String, PvmError>)
    ensures
        match r {
            Ok(p) => exists|h: Seq<char>| p@ == aliases_path(h, windows),
            Err(e) => e == PvmError::HomeNotFound,
        },
{
    let home = pvm_home(windows)?;
    let ghost h = choose|h: Seq<char>| home@ == pvm_home_path(h, windows);
    let p = join(&home, "aliases", windows);
    assert(p@ == aliases_path(h, windows));
    Ok(p)
}

/// The link to the active version, `~/.pvm/aliases/current`.
pub fn current_alias_dir(windows: bool) -> (r: Result<String, PvmError>)
    ensures
        match r {
            Ok(p) => exists|h: Seq<char>| p@ == current_alias_path(h, windows),
            Err(e) => e == PvmError::HomeNotFound,
        },
{
    let aliases = aliases_dir(windows)?;
    let ghost h = choose|h: Seq<char>| aliases@ == aliases_path(h, windows);
    let p = join(&aliases, "current", windows);
    assert(p@ == current_alias_path(h, windows));
    Ok(p)
}

/// The link to the default version, `~/.pvm/aliases/default`.
pub fn default_alias_path(windows: bool) -> (r: Result<String, PvmError>)
    ensures
        match r {
            Ok(p) => exists|h: Seq<char>| p@ == default_alias_file(h, windows),
            Err(e) => e == PvmError::HomeNotFound,
        },
{
    let aliases = aliases_dir(windows)?;
    let ghost h = choose|h: Seq<char>| aliases@ == aliases_path(h, windows);
    let p = join(&aliases, "default", windows);
    assert(p@ == default_alias_file(h, windows));
    Ok(p)
}

/// The directory of one version under `versions`, refused when it would
/// leave `versions` (it starts at the root elsewhere, or holds `..`).
pub fn version_dir_in(versions: &str, version: &str, windows: bool) -> (r: Result<String, PvmError>)
    ensures
        match r {
            Ok(p) => p@ == join_path(versions@, version@, windows) && within(versions@, p@, windows),
            Err(e) => e == PvmError::OutsideDirectory
                && !within(versions@, join_path(versions@, version@, windows), windows),
        },
        !has_root(version@, windows) && no_parent_piece(pieces(version@, windows)) ==> r is Ok,
{
    let target = join(versions, version, windows);
    proof {
        if !has_root(version@, windows) && no_parent_piece(pieces(version@, windows)) {
            lemma_join_within(versions@, version@, windows);
        }
    }
    match path_within(versions, &target, windows) {
        Ok(()) => Ok(target),
        Err(e) => Err(e),
    }
}

/// Builds the path of a specific version and verifies that it stays within
/// `versions_dir`: no `..` leads out of it.
pub fn version_dir(version: &str, windows: bool) -> (r: Result<String, PvmError>)
    ensures
        match r {
            Ok(p) => exists|h: Seq<char>| p@ == version_path(h, version@, windows)
                && within(versions_path(h, windows), p@, windows),
            Err(PvmError::OutsideDirectory) => exists|h: Seq<char>|
                !within(versions_path(h, windows), version_path(h, version@, windows), windows),
            Err(e) => e == PvmError::HomeNotFound,
        },
        is_version(version@) ==> r != Err::<String, PvmError>(PvmError::OutsideDirectory),
{
    proof {
        if is_version(version@) {
            lemma_version_is_relative(version@, windows);
        }
    }
    let base = versions_dir(windows)?;
    let ghost h = choose|h: Seq<char>| base@ == versions_path(h, windows);
    let r = version_dir_in(&base, version, windows);
    proof {
        if let Ok(p) = &r {
            assert(p@ == version_path(h, version@, windows) && within(versions_path(h, windows), p@, windows));
        }
        if r matches Err(PvmError::OutsideDirectory) {
            assert(!within(versions_path(h, windows), version_path(h, version@, windows), windows));
        }
    }
    r
}

/// The shim directory, `~/.pvm/bin`.
pub fn bin_dir(windows: bool) -> (r: Result<String, PvmError>)
    ensures
        match r {
            Ok(p) => exists|h: Seq<char>| p@ == bin_path(h, windows),
            Err(e) => e == PvmError::HomeNotFound,
        },
{
    let home = pvm_home(windows)?;
    let ghost h = choose|h: Seq<char>| home@ == pvm_home_path(h, windows);
    let p = join(&home, "bin", windows);
    assert(p@ == bin_path(h, windows));
    Ok(p)
}

/// The file that keeps the chosen display language, `~/.pvm/language`.
pub fn language_file(windows: bool) -> (r: Result<String, PvmError>)
    ensures
        match r {
            Ok(p) => exists|h: Seq<char>| p@ == language_path(h, windows),
            Err(e) => e == PvmError::HomeNotFound,
        },
{
    let home = pvm_home(windows)?;
    let ghost h = choose|h: Seq<char>| home@ == pvm_home_path(h, windows);
    let p = join(&home, "language", windows);
    assert(p@ == language_path(h, windows));
    Ok(p)
}

} // verus!
