//! `pvm use`: which paths it acts on, and when it refuses.

use vstd::prelude::*;
use crate::error::PvmError;
use crate::dirs::{home_dir, pvm_home_at, pvm_home_path, version_path, current_alias_path, bin_path};
use crate::paths::join;
use crate::text::{texts_of, texts_contain};
use crate::validate::{is_version, version};

verus! {

/// The paths that `pvm use` works on.
pub struct UsePlan {
    /// The directory of the version to activate.
    pub version_path: String,
    /// The alias `current`, to point at it.
    pub current: String,
    /// The shim directory to refresh.
    pub bin: String,
}

/// The shims that `pvm use` puts in the shim directory.
pub open spec fn shim_names_of(windows: bool) -> Seq<Seq<char>> {
    if windows {
        seq!["python.exe"@, "pythonw.exe"@, "pip.exe"@, "pip3.exe"@]
    } else {
        seq!["python"@, "python3"@, "pip"@, "pip3"@]
    }
}

/// The names of the shims (copies of pvm's own executable).
pub fn shim_names(windows: bool) -> (r: Vec<&'static str>)
    ensures
        r@.map_values(|s: &str| s@) == shim_names_of(windows),
{
    let mut v: Vec<&'static str> = Vec::new();
    if windows {
        v.push("python.exe");
        v.push("pythonw.exe");
        v.push("pip.exe");
        v.push("pip3.exe");
    } else {
        v.push("python");
        v.push("python3");
        v.push("pip");
        v.push("pip3");
    }
    assert(v@.map_values(|s: &str| s@) =~= shim_names_of(windows));
    v
}

/// The home directory as text, when it was found.
pub open spec fn home_view(home: Option<&str>) -> Option<Seq<char>> {
    match home {
        Some(h) => Some(h@),
        None => None,
    }
}

/// The checks shared by `use`, `default`, `uninstall` and `venv` pass: the
/// version is `X.Y.Z`, the home directory was found, and the version is
/// installed (one of the names present in the versions directory,
/// `installed`).
pub open spec fn installed_ok(home: Option<Seq<char>>, v: Seq<char>, installed: Seq<String>) -> bool {
    is_version(v) && home is Some && texts_of(installed).contains(v)
}

/// The error those checks give, in their order: an invalid version, then a
/// missing home directory, then a version that is not installed.
pub open spec fn installed_error(home: Option<Seq<char>>, v: Seq<char>, installed: Seq<String>, e: PvmError) -> bool {
    match e {
        PvmError::InvalidVersion(s) => !is_version(v) && s@ == v,
        PvmError::HomeNotFound => is_version(v) && home is None,
        PvmError::NotInstalled(s) => is_version(v) && home is Some && !texts_of(installed).contains(v) && s@ == v,
        _ => false,
    }
}

/// The checks shared by the commands that act on one installed version,
/// given the home directory that the lookup found (`None` when it found
/// none): refuses a version that is not `X.Y.Z`, then a missing home, then a
/// version that is not installed; else gives pvm's root under that home.
pub fn check_installed_at(home: Option<&str>, v: &str, installed: &Vec<String>, windows: bool) -> (r: Result<String, PvmError>)
    ensures
        (r is Ok) == installed_ok(home_view(home), v@, installed@),
        r matches Err(e) ==> installed_error(home_view(home), v@, installed@, e),
        r matches Ok(p) ==> p@ == pvm_home_path(home_view(home).unwrap(), windows),
{
    version(v)?;
    let h = match home {
        Some(h) => h,
        None => {
            return Err(PvmError::HomeNotFound);
        },
    };
    if !texts_contain(installed, v) {
        return Err(PvmError::NotInstalled(v.to_owned()));
    }
    Ok(pvm_home_at(h, windows))
}

/// The directory of a version under pvm's root.
pub(crate) fn version_under(home: &str, v: &str, windows: bool) -> (r: String)
    ensures
        forall|h: Seq<char>| home@ == pvm_home_path(h, windows) ==> r@ == version_path(h, v@, windows),
{
    let versions = join(home, "versions", windows);
    join(&versions, v, windows)
}

/// What `pvm use` gives for the home directory `home`: the shared checks'
/// outcome, and on success the version's directory, the alias `current`
/// and the shim directory under that home.
pub open spec fn use_fits(
    home: Option<Seq<char>>,
    v: Seq<char>,
    installed: Seq<String>,
    windows: bool,
    r: Result<UsePlan, PvmError>,
) -> bool {
    &&& (r is Ok) == installed_ok(home, v, installed)
    &&& (r matches Err(e) ==> installed_error(home, v, installed, e))
    &&& (r matches Ok(p) ==> {
        let h = home.unwrap();
        &&& p.version_path@ == version_path(h, v, windows)
        &&& p.current@ == current_alias_path(h, windows)
        &&& p.bin@ == bin_path(h, windows)
    })
}

/// `pvm use` for the home directory `home` that the lookup found
/// ([`use_fits`]).
pub fn run_at(home: Option<&str>, v: &str, installed: &Vec<String>, windows: bool) -> (r: Result<UsePlan, PvmError>)
    ensures
        use_fits(home_view(home), v@, installed@, windows, r),
{
    let root = check_installed_at(home, v, installed, windows)?;
    let ghost h = home_view(home).unwrap();
    let version_path = version_under(&root, v, windows);
    let aliases = join(&root, "aliases", windows);
    let current = join(&aliases, "current", windows);
    let bin = join(&root, "bin", windows);
    assert(version_path@ == crate::dirs::version_path(h, v@, windows));
    assert(current@ == current_alias_path(h, windows));
    assert(bin@ == bin_path(h, windows));
    Ok(UsePlan { version_path, current, bin })
}

/// `pvm use`: looks up the home directory, then checks that the version is
/// valid and installed, and gives the paths to link and refresh, all under
/// that home ([`use_fits`] for the home found).
pub fn run(v: &str, installed: &Vec<String>, windows: bool) -> (r: Result<UsePlan, PvmError>)
    ensures
        exists|home: Option<Seq<char>>| use_fits(home, v@, installed@, windows, r),
{
    let home = home_dir();
    match &home {
        Some(h) => {
            let r = run_at(Some(h.as_str()), v, installed, windows);
            assert(use_fits(Some(h@), v@, installed@, windows, r));
            r
        },
        None => {
            let r = run_at(None, v, installed, windows);
            assert(use_fits(None, v@, installed@, windows, r));
            r
        },
    }
}

/// Whether a failure to remove the shim directory before refreshing it is
/// passed over: the directory did not exist, or it was not empty (OS error
/// 145 on Windows, 39 on Linux, 66 on macOS).
pub fn bin_removal_failure_ignored(not_found: bool, os_error: Option<i32>) -> (r: bool)
    ensures
        r == (not_found || os_error == Some(145i32) || os_error == Some(39i32) || os_error == Some(66i32)),
{
    if not_found {
        return true;
    }
    match os_error {
        Some(code) => code == 145 || code == 39 || code == 66,
        None => false,
    }
}

} // verus!
