//! `pvm uninstall`: which directory it removes, and when it refuses.

use vstd::prelude::*;
use crate::error::PvmError;
use crate::dirs::{home_dir, pvm_home_path, version_path};
use crate::paths::{same_path, components};
use crate::text::{texts_of, split_seq, split_chars, chars_of, string_of, push_char, push_str,
    lowercase, to_lowercase, contains_seq, str_contains, trim_seq, trim_chars};
use crate::validate::is_version;
use crate::commands::use_ver::{installed_ok, installed_error, check_installed_at, version_under, home_view};

verus! {

/// The path that the alias `current` points to, as text, when there is one.
pub open spec fn active_view(active: Option<&str>) -> Option<Seq<char>> {
    match active {
        Some(a) => Some(a@),
        None => None,
    }
}

/// The version to remove is the active one: the shared checks pass and
/// the path that the alias `current` points to (`active`) is, component by
/// component, the version's directory under the home found.
pub open spec fn removes_active(
    home: Option<Seq<char>>,
    v: Seq<char>,
    installed: Seq<String>,
    active: Option<Seq<char>>,
    windows: bool,
) -> bool {
    &&& installed_ok(home, v, installed)
    &&& active is Some
    &&& components(active.unwrap(), windows) == components(version_path(home.unwrap(), v, windows), windows)
}

/// What `pvm uninstall` gives for the home directory `home`: the shared
/// checks' outcome, then the refusal of the active version; on success the
/// version's directory under that home.
pub open spec fn uninstall_fits(
    home: Option<Seq<char>>,
    v: Seq<char>,
    installed: Seq<String>,
    active: Option<Seq<char>>,
    windows: bool,
    r: Result<String, PvmError>,
) -> bool {
    let hit = removes_active(home, v, installed, active, windows);
    &&& (r is Ok) == (installed_ok(home, v, installed) && !hit)
    &&& (r matches Err(e) ==> installed_error(home, v, installed, e)
        || (hit && (e matches PvmError::ActiveVersion(s) && s@ == v)))
    &&& (r matches Ok(p) ==> p@ == version_path(home.unwrap(), v, windows))
}

/// `pvm uninstall` for the home directory `home` that the lookup found
/// ([`uninstall_fits`]).
pub fn run_at(home: Option<&str>, v: &str, installed: &Vec<String>, active: Option<&str>, windows: bool)
    -> (r: Result<String, PvmError>)
    ensures
        uninstall_fits(home_view(home), v@, installed@, active_view(active), windows, r),
{
    let root = check_installed_at(home, v, installed, windows)?;
    let ghost h = home_view(home).unwrap();
    let path = version_under(&root, v, windows);
    assert(path@ == version_path(h, v@, windows));
    match active {
        Some(a) => {
            if same_path(a, &path, windows) {
                return Err(PvmError::ActiveVersion(v.to_owned()));
            }
        },
        None => {},
    }
    Ok(path)
}

/// `pvm uninstall`: looks up the home directory, then checks that the
/// version is valid and installed and is not the active one, and gives the
/// directory to remove ([`uninstall_fits`] for the home found).
pub fn run(v: &str, installed: &Vec<String>, active: Option<&str>, windows: bool) -> (r: Result<String, PvmError>)
    ensures
        exists|home: Option<Seq<char>>|
            uninstall_fits(home, v@, installed@, active_view(active), windows, r),
{
    let ghost av = active_view(active);
    let home = home_dir();
    match &home {
        Some(h) => {
            let r = run_at(Some(h.as_str()), v, installed, active, windows);
            assert(uninstall_fits(Some(h@), v@, installed@, av, windows, r));
            r
        },
        None => {
            let r = run_at(None, v, installed, active, windows);
            assert(uninstall_fits(None, v@, installed@, av, windows, r));
            r
        },
    }
}

/// The `major.minor` part of a version: the first two pieces of the text
/// split at `.` (as `splitn(3, '.')` gives them), joined by a dot; none
/// when the text holds no dot.
pub open spec fn major_minor_of(v: Seq<char>) -> Option<Seq<char>> {
    let p = split_seq(v, '.');
    if p.len() < 2 {
        None
    } else {
        Some(p[0] + seq!['.'] + p[1])
    }
}

/// The `major.minor` part of a version ([`major_minor_of`]).
pub fn major_minor(v: &str) -> (r: Option<String>)
    ensures
        match r {
            Some(s) => major_minor_of(v@) == Some(s@),
            None => major_minor_of(v@) is None,
        },
{
    let chars = chars_of(v);
    let parts = split_chars(&chars, '.');
    proof {
        assert(parts@.map_values(|p: Vec<char>| p@).len() == parts@.len());
    }
    if parts.len() < 2 {
        return None;
    }
    let mut s = string_of(&parts[0]);
    push_char(&mut s, '.');
    let second = string_of(&parts[1]);
    push_str(&mut s, second.as_str());
    proof {
        assert(parts@.map_values(|p: Vec<char>| p@)[0] == parts@[0]@);
        assert(parts@.map_values(|p: Vec<char>| p@)[1] == parts@[1]@);
    }
    Some(s)
}

/// The registry key of Python's own record of a `major.minor` line.
pub open spec fn python_core_key_of(mm: Seq<char>) -> Seq<char> {
    "HKCU\\SOFTWARE\\Python\\PythonCore\\"@ + mm
}

/// The registry key under which Python records its line `mm`.
pub fn python_core_key(mm: &str) -> (r: String)
    ensures
        r@ == python_core_key_of(mm@),
{
    let mut s = String::new();
    push_str(&mut s, "HKCU\\SOFTWARE\\Python\\PythonCore\\");
    push_str(&mut s, mm);
    s
}

/// The registry key that holds the install path of Python's line `mm`.
pub fn install_path_key(mm: &str) -> (r: String)
    ensures
        r@ == python_core_key_of(mm@) + "\\InstallPath"@,
{
    let mut s = python_core_key(mm);
    push_str(&mut s, "\\InstallPath");
    s
}

/// A path without the `\\` and `/` at its end, as
/// `trim_end_matches(['\\', '/'])` gives it.
pub open spec fn trim_end_separators(p: Seq<char>) -> Seq<char>
    decreases p.len(),
{
    if p.len() > 0 && (p.last() == '\\' || p.last() == '/') {
        trim_end_separators(p.drop_last())
    } else {
        p
    }
}

/// Whether the output of a registry query names the installation at `path`:
/// the output, in lowercase, holds the lowercase path without its trailing
/// separators.
pub open spec fn names_installation(output: Seq<char>, path: Seq<char>) -> bool {
    contains_seq(lowercase(output), trim_end_separators(lowercase(path)))
}

/// Whether a registry query's output names the installation at `path`
/// ([`names_installation`]).
pub fn registry_names(output: &str, path: &str) -> (r: bool)
    ensures
        r == names_installation(output@, path@),
{
    let out = to_lowercase(output);
    let lower = to_lowercase(path);
    let v = chars_of(lower.as_str());
    let mut n = v.len();
    assert(v@.take(n as int) =~= v@);
    while n > 0 && (v[n - 1] == '\\' || v[n - 1] == '/')
        invariant
            n <= v@.len(),
            trim_end_separators(v@.take(n as int)) == trim_end_separators(v@),
        decreases n,
    {
        assert(v@.take(n as int).drop_last() =~= v@.take(n - 1));
        n = n - 1;
    }
    let mut kept: Vec<char> = Vec::new();
    for i in 0..n
        invariant
            n <= v@.len(),
            kept@ == v@.take(i as int),
    {
        kept.push(v[i]);
        assert(v@.take(i + 1) =~= v@.take(i as int).push(v@[i as int]));
    }
    let trimmed = string_of(&kept);
    str_contains(out.as_str(), trimmed.as_str())
}

/// The product code in one line of the listing of the uninstall registry:
/// the line without surrounding white space, from its last `\\` on (the
/// whole line when it has none); none for a blank line.
pub open spec fn msi_guid_of(line: Seq<char>) -> Option<Seq<char>> {
    let t = trim_seq(line);
    if t.len() == 0 {
        None
    } else {
        Some(split_seq(t, '\\').last())
    }
}

/// The product code named by a line of the uninstall registry's listing
/// ([`msi_guid_of`]).
pub fn msi_guid(line: &str) -> (r: Option<String>)
    ensures
        match r {
            Some(s) => msi_guid_of(line@) == Some(s@),
            None => msi_guid_of(line@) is None,
        },
{
    let chars = chars_of(line);
    let t = trim_chars(&chars);
    if t.len() == 0 {
        return None;
    }
    let parts = split_chars(&t, '\\');
    let last = parts.len() - 1;
    proof {
        assert(parts@.map_values(|p: Vec<char>| p@).len() == parts@.len());
        assert(parts@.map_values(|p: Vec<char>| p@)[last as int] == parts@[last as int]@);
    }
    Some(string_of(&parts[last]))
}

} // verus!
