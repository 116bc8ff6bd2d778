//! `pvm default`: which paths it acts on, and when it refuses.

use vstd::prelude::*;
use crate::error::PvmError;
use crate::dirs::{home_dir, pvm_home_path, version_path, default_alias_file};
use crate::paths::{join, join_path};
use crate::commands::use_ver::{installed_ok, installed_error, check_installed_at, version_under, home_view};

verus! {

/// The paths that `pvm default` works on.
pub struct DefaultPlan {
    /// The directory of the version.
    pub version_path: String,
    /// The alias `default`, to point at it.
    pub alias: String,
    /// The text file `~/.pvm/default` that records the version.
    pub record: String,
}

pub open spec fn default_record_path(h: Seq<char>, windows: bool) -> Seq<char> {
    join_path(pvm_home_path(h, windows), "default"@, windows)
}

/// What `pvm default` gives for the home directory `home`: the shared
/// checks' outcome, and on success the version's directory, the alias
/// `default` and the file that records the version, under that home.
pub open spec fn default_fits(
    home: Option<Seq<char>>,
    v: Seq<char>,
    installed: Seq<String>,
    windows: bool,
    r: Result<DefaultPlan, PvmError>,
) -> bool {
    &&& (r is Ok) == installed_ok(home, v, installed)
    &&& (r matches Err(e) ==> installed_error(home, v, installed, e))
    &&& (r matches Ok(p) ==> {
        let h = home.unwrap();
        &&& p.version_path@ == version_path(h, v, windows)
        &&& p.alias@ == default_alias_file(h, windows)
        &&& p.record@ == default_record_path(h, windows)
    })
}

/// `pvm default` for the home directory `home` that the lookup found
/// ([`default_fits`]).
pub fn run_at(home: Option<&str>, v: &str, installed: &Vec<String>, windows: bool) -> (r: Result<DefaultPlan, PvmError>)
    ensures
        default_fits(home_view(home), v@, installed@, windows, r),
{
    let root = check_installed_at(home, v, installed, windows)?;
    let ghost h = home_view(home).unwrap();
    let version_path = version_under(&root, v, windows);
    let aliases = join(&root, "aliases", windows);
    let alias = join(&aliases, "default", windows);
    let record = join(&root, "default", windows);
    assert(version_path@ == crate::dirs::version_path(h, v@, windows));
    assert(alias@ == default_alias_file(h, windows));
    assert(record@ == default_record_path(h, windows));
    Ok(DefaultPlan { version_path, alias, record })
}

/// `pvm default`: looks up the home directory, then checks that the version
/// is valid and installed, and gives the alias to set and the file that
/// records the version ([`default_fits`] for the home found).
pub fn run(v: &str, installed: &Vec<String>, windows: bool) -> (r: Result<DefaultPlan, PvmError>)
    ensures
        exists|home: Option<Seq<char>>| default_fits(home, v@, installed@, windows, r),
{
    let home = home_dir();
    match &home {
        Some(h) => {
            let r = run_at(Some(h.as_str()), v, installed, windows);
            assert(default_fits(Some(h@), v@, installed@, windows, r));
            r
        },
        None => {
            let r = run_at(None, v, installed, windows);
            assert(default_fits(None, v@, installed@, windows, r));
            r
        },
    }
}

} // verus!
