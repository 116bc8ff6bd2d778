//! `pvm install`: which version a request stands for, and where the files
//! of a downloaded archive go.

use vstd::prelude::*;
use crate::error::PvmError;
use crate::paths::{components, components_of, join, join_path, has_root};
use crate::text::{chars_of, string_of, str_eq, texts_of, texts_contain};
use crate::dirs::{home_dir, pvm_home_at, version_path};
use crate::validate::{is_version, version};
use crate::commands::use_ver::{version_under, home_view};
use crate::validate::{dotted_digits, is_dotted_digits};
use crate::versions::{SemVersion, VersionParts, parts, minor_text, minor_string, version_text,
    sorted_desc, version_lt};

verus! {

/// A request for the latest `X.Y` (the pattern `^\d{1,3}\.\d{1,3}$`).
pub open spec fn is_minor_request(v: Seq<char>) -> bool {
    dotted_digits(v, 2, 3)
}

/// The first release, in the given order, whose `MAJOR.MINOR` text is `req`.
pub open spec fn first_stable(avail: Seq<VersionParts>, req: Seq<char>) -> Option<VersionParts>
    decreases avail.len(),
{
    if avail.len() == 0 {
        None
    } else if avail[0].3.len() == 0 && minor_text(avail[0].0, avail[0].1) == req {
        Some(avail[0])
    } else {
        first_stable(avail.drop_first(), req)
    }
}

/// Whether the request is `X.Y` ([`is_minor_request`]).
pub fn minor_request(v: &str) -> (r: bool)
    ensures
        r == is_minor_request(v@),
{
    is_dotted_digits(&chars_of(v), 2, 3)
}

/// The version to install: a request `X.Y` stands for the first release of
/// that `MAJOR.MINOR` among the available versions (the latest, as they
/// come highest first), refused when there is none; any other request
/// stands for itself (it is checked afterwards).
pub fn resolve_version(v: &str, available: &Vec<SemVersion>) -> (r: Result<String, PvmError>)
    ensures
        !is_minor_request(v@) ==> (r matches Ok(s) && s@ == v@),
        is_minor_request(v@) ==> match first_stable(parts(available@), v@) {
            Some(w) => r matches Ok(s) && s@ == version_text(w),
            None => r matches Err(PvmError::NoStableVersion(s)) && s@ == v@,
        },
{
    if !minor_request(v) {
        return Ok(v.to_owned());
    }
    let ghost all = parts(available@);
    assert(all.skip(0) =~= all);
    for i in 0..available.len()
        invariant
            all == parts(available@),
            is_minor_request(v@),
            first_stable(all, v@) == first_stable(all.skip(i as int), v@),
    {
        let w = &available[i];
        proof {
            assert(all.skip(i as int)[0] == w@);
            assert(all.skip(i as int).drop_first() =~= all.skip(i + 1));
        }
        if w.is_release() {
            let m = minor_string(w.major, w.minor);
            if str_eq(m.as_str(), v) {
                return Ok(w.to_string());
            }
        }
    }
    proof {
        assert(all.skip(all.len() as int) =~= Seq::<VersionParts>::empty());
    }
    Err(PvmError::NoStableVersion(v.to_owned()))
}

/// The components joined into a relative path, as collecting them into a
/// `PathBuf` does.
pub open spec fn render(cs: Seq<Seq<char>>, windows: bool) -> Seq<char>
    decreases cs.len(),
{
    if cs.len() == 0 {
        Seq::empty()
    } else {
        join_path(render(cs.drop_last(), windows), cs.last(), windows)
    }
}

/// A path without its first component, rendered again.
pub open spec fn stripped_path(raw: Seq<char>, windows: bool) -> Seq<char> {
    let cs = components(raw, windows);
    if cs.len() == 0 {
        Seq::empty()
    } else {
        render(cs.skip(1), windows)
    }
}

/// A tarball entry's path without its first component (the archive's root
/// directory `python/`) ([`stripped_path`]).
pub fn strip_first_component(raw: &str, windows: bool) -> (r: String)
    ensures
        r@ == stripped_path(raw@, windows),
{
    let cs = components_of(raw, windows);
    let ghost all = cs@.map_values(|v: Vec<char>| v@);
    let mut out = String::new();
    if cs.len() == 0 {
        return out;
    }
    let mut i: usize = 1;
    while i < cs.len()
        invariant
            1 <= i <= cs@.len(),
            all == cs@.map_values(|v: Vec<char>| v@),
            out@ == render(all.subrange(1, i as int), windows),
        decreases cs@.len() - i,
    {
        let piece = string_of(&cs[i]);
        out = join(out.as_str(), piece.as_str(), windows);
        proof {
            assert(all.subrange(1, i + 1).drop_last() =~= all.subrange(1, i as int));
        }
        i += 1;
    }
    assert(all.subrange(1, all.len() as int) =~= all.skip(1));
    out
}

/// What to do with one entry of the tarball.
pub enum EntryAction {
    /// Nothing (the archive's root directory itself).
    Skip,
    /// Create this directory.
    Dir(String),
    /// Write the entry's content to this file (creating its parents).
    File(String),
}

/// Where a tarball entry goes under `dest`, its first component stripped:
/// nothing for the root directory itself, else a directory or a file.
pub fn tarball_entry(dest: &str, raw: &str, is_dir: bool, windows: bool) -> (r: EntryAction)
    ensures
        ({
            let stripped = stripped_path(raw@, windows);
            match r {
                EntryAction::Skip => stripped.len() == 0,
                EntryAction::Dir(p) => stripped.len() > 0 && is_dir && p@ == join_path(dest@, stripped, windows),
                EntryAction::File(p) => stripped.len() > 0 && !is_dir && p@ == join_path(dest@, stripped, windows),
            }
        }),
{
    let stripped = strip_first_component(raw, windows);
    if stripped.as_str().is_empty() {
        return EntryAction::Skip;
    }
    let out = join(dest, stripped.as_str(), windows);
    if is_dir {
        EntryAction::Dir(out)
    } else {
        EntryAction::File(out)
    }
}

/// Where a file of the NuGet package goes under `dest`, and whether it is a
/// directory (its name ends with `/`).
pub fn nuget_entry(dest: &str, name: &str, windows: bool) -> (r: (String, bool))
    ensures
        r.0@ == join_path(dest@, name@, windows),
        r.1 == (name@.len() > 0 && name@.last() == '/'),
{
    let v = chars_of(name);
    let is_dir = v.len() > 0 && v[v.len() - 1] == '/';
    (join(dest, name, windows), is_dir)
}

/// Where `python.exe` may be in an extracted NuGet package, in the order
/// they are tried.
pub fn python_exe_candidates(base: &str, windows: bool) -> (r: Vec<String>)
    ensures
        r@.len() == 2,
        r@[0]@ == join_path(join_path(base@, "tools"@, windows), "python.exe"@, windows),
        r@[1]@ == join_path(base@, "python.exe"@, windows),
{
    let tools = join(base, "tools", windows);
    let a = join(&tools, "python.exe", windows);
    let b = join(base, "python.exe", windows);
    let mut r = Vec::new();
    r.push(a);
    r.push(b);
    assert(r@[0] == a && r@[1] == b);
    r
}

/// When the available versions come highest first, the version a request
/// `X.Y` resolves to is the highest release of `X.Y` among them.
pub proof fn lemma_resolved_is_highest(avail: Seq<VersionParts>, req: Seq<char>, w: VersionParts)
    requires
        sorted_desc(avail),
        avail.contains(w),
        w.3.len() == 0,
        minor_text(w.0, w.1) == req,
    ensures
        first_stable(avail, req) matches Some(v) && !version_lt(v, w),
    decreases avail.len(),
{
    let k = choose|k: int| 0 <= k < avail.len() && avail[k] == w;
    crate::versions::lemma_version_order(w, w, w);
    if avail[0].3.len() == 0 && minor_text(avail[0].0, avail[0].1) == req {
        if k > 0 {
            assert(!version_lt(avail[0], avail[k]));
        }
    } else {
        assert(k > 0);
        let rest = avail.drop_first();
        assert(rest[k - 1] == w);
        assert(sorted_desc(rest)) by {
            assert forall|i: int, j: int| 0 <= i < j < rest.len() implies !version_lt(#[trigger] rest[i], #[trigger] rest[j]) by {
                assert(rest[i] == avail[i + 1]);
                assert(rest[j] == avail[j + 1]);
            }
        }
        lemma_resolved_is_highest(rest, req, w);
    }
}

/// What `pvm install` targets, once the request is resolved, for the home
/// directory `home`: success when the version is `X.Y.Z`, the home was
/// found and the version is not installed yet (not one of the names present
/// in the versions directory, `installed`), with the version's directory
/// under that home; else the first refusal of: an invalid version, a
/// missing home, a version installed already.
pub open spec fn target_fits(
    home: Option<Seq<char>>,
    v: Seq<char>,
    installed: Seq<String>,
    windows: bool,
    r: Result<String, PvmError>,
) -> bool {
    match r {
        Ok(p) => is_version(v) && home is Some && !texts_of(installed).contains(v)
            && p@ == version_path(home.unwrap(), v, windows),
        Err(PvmError::InvalidVersion(s)) => !is_version(v) && s@ == v,
        Err(PvmError::HomeNotFound) => is_version(v) && home is None,
        Err(PvmError::AlreadyInstalled(s)) => is_version(v) && home is Some
            && texts_of(installed).contains(v) && s@ == v,
        Err(_) => false,
    }
}

/// The directory to install into, for the home directory `home` that the
/// lookup found ([`target_fits`]).
pub fn target_dir_at(home: Option<&str>, v: &str, installed: &Vec<String>, windows: bool) -> (r: Result<String, PvmError>)
    ensures
        target_fits(home_view(home), v@, installed@, windows, r),
{
    version(v)?;
    let h = match home {
        Some(h) => h,
        None => {
            return Err(PvmError::HomeNotFound);
        },
    };
    if texts_contain(installed, v) {
        return Err(PvmError::AlreadyInstalled(v.to_owned()));
    }
    let root = pvm_home_at(h, windows);
    let p = version_under(&root, v, windows);
    assert(p@ == version_path(h@, v@, windows));
    Ok(p)
}

/// `pvm install`, once the request is resolved: looks up the home
/// directory and gives the directory to install into ([`target_fits`] for
/// the home found).
pub fn target_dir(v: &str, installed: &Vec<String>, windows: bool) -> (r: Result<String, PvmError>)
    ensures
        exists|home: Option<Seq<char>>| target_fits(home, v@, installed@, windows, r),
{
    let home = home_dir();
    match &home {
        Some(h) => {
            let r = target_dir_at(Some(h.as_str()), v, installed, windows);
            assert(target_fits(Some(h@), v@, installed@, windows, r));
            r
        },
        None => {
            let r = target_dir_at(None, v, installed, windows);
            assert(target_fits(None, v@, installed@, windows, r));
            r
        },
    }
}

} // verus!
