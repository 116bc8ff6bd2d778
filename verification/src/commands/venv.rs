//! `pvm venv`: which Python creates the virtual environment, and its
//! arguments.

use vstd::prelude::*;
use crate::error::PvmError;
use crate::dirs::{pvm_home_path, version_path};
use crate::paths::{join, join_path};
use crate::text::{texts_of, chars_of, string_of};
use crate::validate::is_version;
use crate::commands::use_ver::{installed_ok, installed_error, home_view};
use crate::dirs::home_dir;

verus! {

/// The Python executable inside a version's directory: `tools\python.exe`
/// in the NuGet layout (Windows), `bin/python3` in the standalone layout.
pub open spec fn python_in(dir: Seq<char>, windows: bool) -> Seq<char> {
    if windows {
        join_path(join_path(dir, "tools"@, windows), "python.exe"@, windows)
    } else {
        join_path(join_path(dir, "bin"@, windows), "python3"@, windows)
    }
}

/// The Python executable inside a version's directory ([`python_in`]).
pub fn python_path(dir: &str, windows: bool) -> (r: String)
    ensures
        r@ == python_in(dir@, windows),
{
    if windows {
        let tools = join(dir, "tools", windows);
        join(&tools, "python.exe", windows)
    } else {
        let bin = join(dir, "bin", windows);
        join(&bin, "python3", windows)
    }
}

/// What the Python of an installed version is, for the home directory
/// `home`: the shared checks' outcome, and on success the executable inside
/// the version's directory under that home.
pub open spec fn python_for_version_fits(
    home: Option<Seq<char>>,
    v: Seq<char>,
    installed: Seq<String>,
    windows: bool,
    r: Result<String, PvmError>,
) -> bool {
    &&& (r is Ok) == installed_ok(home, v, installed)
    &&& (r matches Err(e) ==> installed_error(home, v, installed, e))
    &&& (r matches Ok(p) ==> p@ == python_in(version_path(home.unwrap(), v, windows), windows))
}

/// The Python of an installed version for the home directory `home` that
/// the lookup found ([`python_for_version_fits`]).
pub fn resolve_python_for_version_at(home: Option<&str>, v: &str, installed: &Vec<String>, windows: bool)
    -> (r: Result<String, PvmError>)
    ensures
        python_for_version_fits(home_view(home), v@, installed@, windows, r),
{
    let plan = crate::commands::use_ver::run_at(home, v, installed, windows)?;
    let python = python_path(plan.version_path.as_str(), windows);
    Ok(python)
}

/// The Python of an installed version, for `pvm -X.Y.Z venv ...`: looks up
/// the home directory; the version must be valid and installed
/// ([`python_for_version_fits`] for the home found). Whether the executable
/// exists is checked by the caller, on the returned path.
pub fn resolve_python_for_version(v: &str, installed: &Vec<String>, windows: bool) -> (r: Result<String, PvmError>)
    ensures
        exists|home: Option<Seq<char>>| python_for_version_fits(home, v@, installed@, windows, r),
{
    let home = home_dir();
    match &home {
        Some(h) => {
            let r = resolve_python_for_version_at(Some(h.as_str()), v, installed, windows);
            assert(python_for_version_fits(Some(h@), v@, installed@, windows, r));
            r
        },
        None => {
            let r = resolve_python_for_version_at(None, v, installed, windows);
            assert(python_for_version_fits(None, v@, installed@, windows, r));
            r
        },
    }
}

/// The path that the alias `current` resolves to, as the OS gives it, with
/// Windows' verbatim prefix `\\?\` removed (every leading occurrence).
pub open spec fn without_verbatim(s: Seq<char>) -> Seq<char>
    decreases s.len(),
{
    if s.len() >= 4 && s.take(4) == seq!['\\', '\\', '?', '\\'] {
        without_verbatim(s.skip(4))
    } else {
        s
    }
}

/// Removes the verbatim prefixes ([`without_verbatim`]), as
/// `trim_start_matches(r"\\?\")` does.
pub fn strip_verbatim(s: &str) -> (r: String)
    ensures
        r@ == without_verbatim(s@),
{
    let v = chars_of(s);
    let mut i: usize = 0;
    assert(v@.skip(0) =~= v@);
    while v.len() - i >= 4 && v[i] == '\\' && v[i + 1] == '\\' && v[i + 2] == '?' && v[i + 3] == '\\'
        invariant
            i <= v@.len(),
            without_verbatim(v@) == without_verbatim(v@.skip(i as int)),
        decreases v@.len() - i,
    {
        proof {
            let t = v@.skip(i as int);
            assert(t.take(4) =~= seq!['\\', '\\', '?', '\\']);
            assert(t.skip(4) =~= v@.skip(i + 4));
        }
        i += 4;
    }
    let mut out: Vec<char> = Vec::new();
    let mut k = i;
    while k < v.len()
        invariant
            i <= k <= v@.len(),
            out@ == v@.subrange(i as int, k as int),
        decreases v@.len() - k,
    {
        out.push(v[k]);
        assert(v@.subrange(i as int, k as int).push(v@[k as int]) =~= v@.subrange(i as int, k + 1));
        k += 1;
    }
    proof {
        let t = v@.skip(i as int);
        assert(out@ =~= t);
        if t.len() >= 4 {
            if t.take(4) == seq!['\\', '\\', '?', '\\'] {
                assert(t[0] == v@[i as int]);
                assert(t[1] == v@[i + 1]);
                assert(t[2] == v@[i + 2]);
                assert(t[3] == v@[i + 3]);
                assert(t.take(4)[3] == '\\');
            }
        }
    }
    string_of(&out)
}

/// The Python of the active version, for `pvm venv`: inside the directory
/// that the alias `current` resolves to (`resolved`, its verbatim prefix
/// removed on Windows).
pub fn resolve_pinned_python(resolved: &str, windows: bool) -> (r: String)
    ensures
        r@ == python_in(if windows { without_verbatim(resolved@) } else { resolved@ }, windows),
{
    if windows {
        let dir = strip_verbatim(resolved);
        python_path(dir.as_str(), true)
    } else {
        python_path(resolved, false)
    }
}

/// The arguments of `python -m venv <dir> <extra...>`.
pub open spec fn venv_args_of(dir: Seq<char>, extra: Seq<Seq<char>>) -> Seq<Seq<char>> {
    seq!["-m"@, "venv"@, dir] + extra
}

/// The arguments for `python`: `-m venv <dir>` and the extra options.
pub fn venv_args(dir: &str, extra: &Vec<String>) -> (r: Vec<String>)
    ensures
        texts_of(r@) == venv_args_of(dir@, texts_of(extra@)),
{
    let mut r: Vec<String> = Vec::new();
    r.push("-m".to_owned());
    r.push("venv".to_owned());
    r.push(dir.to_owned());
    for i in 0..extra.len()
        invariant
            texts_of(r@) == venv_args_of(dir@, texts_of(extra@).take(i as int)),
    {
        let ghost before = texts_of(r@);
        let x = extra[i].clone();
        let ghost xv = x@;
        r.push(x);
        proof {
            assert(texts_of(r@) =~= before.push(xv));
            assert(texts_of(extra@).take(i + 1) =~= texts_of(extra@).take(i as int).push(xv));
            assert(texts_of(r@) =~= venv_args_of(dir@, texts_of(extra@).take(i + 1)));
        }
    }
    proof {
        assert(texts_of(extra@).take(extra@.len() as int) =~= texts_of(extra@));
    }
    r
}

} // verus!
