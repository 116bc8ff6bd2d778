//! The shims: pvm's own executable, copied under the names `python`, `pip`
//! and so on, forwards to the Python of the active version.

use vstd::prelude::*;
use crate::paths::{join, join_path};
use crate::text::{texts_of, str_eq, to_lowercase, lowercase, ends_with};
use crate::commands::use_ver::shim_names_of;
use crate::commands::venv::without_verbatim;

verus! {

/// What a shim forwards to.
#[derive(Debug, Clone, Copy, PartialEq, Eq, Structural)]
pub enum ShimKind {
    /// `python` / `python3`: the interpreter.
    Python,
    /// `pythonw` (Windows): the windowed interpreter.
    Pythonw,
    /// `pip` / `pip3`: `python -m pip`.
    Pip,
}

/// The shim that an executable name (its stem, in lowercase) stands for.
pub open spec fn shim_named(stem: Seq<char>, windows: bool) -> Option<ShimKind> {
    if stem == "python"@ || stem == "python3"@ {
        Some(ShimKind::Python)
    } else if windows && stem == "pythonw"@ {
        Some(ShimKind::Pythonw)
    } else if stem == "pip"@ || stem == "pip3"@ {
        Some(ShimKind::Pip)
    } else {
        None
    }
}

/// The shim that pvm was started as, from the stem of its executable's name
/// (compared in lowercase), if any.
pub fn shim_for(stem: &str, windows: bool) -> (r: Option<ShimKind>)
    ensures
        r == shim_named(lowercase(stem@), windows),
{
    let l = to_lowercase(stem);
    let s = l.as_str();
    if str_eq(s, "python") || str_eq(s, "python3") {
        Some(ShimKind::Python)
    } else if windows && str_eq(s, "pythonw") {
        Some(ShimKind::Pythonw)
    } else if str_eq(s, "pip") || str_eq(s, "pip3") {
        Some(ShimKind::Pip)
    } else {
        None
    }
}

/// The executable that `python` / `python3` forward to.
pub open spec fn python_exe_of(windows: bool) -> Seq<char> {
    if windows { "python.exe"@ } else { "python3"@ }
}

/// Forwards `python` / `python3` to the right executable for the platform:
/// the name to look for in the active version.
pub fn forward_python(windows: bool) -> (r: &'static str)
    ensures
        r@ == python_exe_of(windows),
{
    if windows { "python.exe" } else { "python3" }
}

/// The executable a shim runs, inside the directory that the alias
/// `current` resolves to: `tools\<exe_name>` on Windows (verbatim prefix
/// removed), `bin/python3` elsewhere.
pub open spec fn active_python(resolved: Seq<char>, exe_name: Seq<char>, windows: bool) -> Seq<char> {
    if windows {
        join_path(join_path(without_verbatim(resolved), "tools"@, windows), exe_name, windows)
    } else {
        join_path(join_path(resolved, "bin"@, windows), "python3"@, windows)
    }
}

/// The executable a shim runs ([`active_python`]).
pub fn resolve(resolved: &str, exe_name: &str, windows: bool) -> (r: String)
    ensures
        r@ == active_python(resolved@, exe_name@, windows),
{
    if windows {
        let dir = crate::commands::venv::strip_verbatim(resolved);
        let tools = join(dir.as_str(), "tools", windows);
        join(&tools, exe_name, windows)
    } else {
        let bin = join(resolved, "bin", windows);
        join(&bin, "python3", windows)
    }
}

/// The arguments of `pip`: `-m pip` and the arguments the shim was given.
pub fn pip_args(rest: &Vec<String>) -> (r: Vec<String>)
    ensures
        texts_of(r@) == seq!["-m"@, "pip"@] + texts_of(rest@),
{
    let mut r: Vec<String> = Vec::new();
    r.push("-m".to_owned());
    r.push("pip".to_owned());
    for i in 0..rest.len()
        invariant
            texts_of(r@) == seq!["-m"@, "pip"@] + texts_of(rest@).take(i as int),
    {
        let ghost before = texts_of(r@);
        let x = rest[i].clone();
        let ghost xv = x@;
        r.push(x);
        proof {
            assert(texts_of(r@) =~= before.push(xv));
            assert(texts_of(rest@).take(i + 1) =~= texts_of(rest@).take(i as int).push(xv));
            assert(texts_of(r@) =~= seq!["-m"@, "pip"@] + texts_of(rest@).take(i + 1));
        }
    }
    proof {
        assert(texts_of(rest@).take(rest@.len() as int) =~= texts_of(rest@));
    }
    r
}

/// The exit code a shim ends with: the child's, or 1 when it has none
/// (ended by a signal).
pub fn exit_code(code: Option<i32>) -> (r: i32)
    ensures
        r == (match code { Some(c) => c, None => 1 }),
{
    match code {
        Some(c) => c,
        None => 1,
    }
}

/// The commands the shims answer to: `python` and `python3` run the
/// interpreter, `pythonw` the windowed one (Windows only), `pip` and `pip3`
/// run pip; no other name is a shim.
pub proof fn lemma_shim_commands(stem: Seq<char>, windows: bool)
    ensures
        shim_named("python"@, windows) == Some(ShimKind::Python),
        shim_named("python3"@, windows) == Some(ShimKind::Python),
        shim_named("pip"@, windows) == Some(ShimKind::Pip),
        shim_named("pip3"@, windows) == Some(ShimKind::Pip),
        shim_named("pythonw"@, windows) == (if windows { Some(ShimKind::Pythonw) } else { None }),
        stem != "python"@ && stem != "python3"@ && stem != "pythonw"@ && stem != "pip"@ && stem != "pip3"@
            ==> shim_named(stem, windows) is None,
{
    reveal_strlit("python");
    reveal_strlit("python3");
    reveal_strlit("pythonw");
    reveal_strlit("pip");
    reveal_strlit("pip3");
    assert("pythonw"@ != "python"@) by {
        assert("pythonw"@.len() != "python"@.len());
    }
    assert("pythonw"@ != "python3"@) by {
        assert("pythonw"@[6] != "python3"@[6]);
    }
    assert("pip"@ != "python"@) by {
        assert("pip"@.len() != "python"@.len());
    }
    assert("pip"@ != "python3"@) by {
        assert("pip"@.len() != "python3"@.len());
    }
    assert("pip3"@ != "python"@) by {
        assert("pip3"@.len() != "python"@.len());
    }
    assert("pip3"@ != "python3"@) by {
        assert("pip3"@.len() != "python3"@.len());
    }
    assert("pip"@ != "pythonw"@) by {
        assert("pip"@.len() != "pythonw"@.len());
    }
    assert("pip3"@ != "pythonw"@) by {
        assert("pip3"@.len() != "pythonw"@.len());
    }
}

/// The shims that `pvm use` installs and the commands they answer to fit
/// together: every installed shim (named `<command>.exe` on Windows, its
/// stem read in lowercase) answers to its command, and every command has
/// its shim (`python3` has none on Windows, where `python` serves); there
/// are four shims.
pub proof fn lemma_installed_shims_dispatch(stem: Seq<char>, windows: bool)
    ensures
        shim_names_of(windows).len() == 4,
        forall|i: int| 0 <= i < shim_names_of(windows).len() ==> {
            let n = #[trigger] shim_names_of(windows)[i];
            let st = if windows { n.take(n.len() - 4) } else { n };
            &&& (windows ==> ends_with(n, ".exe"@))
            &&& shim_named(lowercase(st), windows) is Some
            &&& (st == "pip"@ || st == "pip3"@) == (shim_named(lowercase(st), windows) == Some(ShimKind::Pip))
        },
        shim_named(stem, windows) is Some && !(windows && stem == "python3"@)
            ==> shim_names_of(windows).contains(if windows { stem + ".exe"@ } else { stem }),
{
    reveal_strlit("python");
    reveal_strlit("python3");
    reveal_strlit("pythonw");
    reveal_strlit("pip");
    reveal_strlit("pip3");
    reveal_strlit(".exe");
    reveal_strlit("python.exe");
    reveal_strlit("pythonw.exe");
    reveal_strlit("pip.exe");
    reveal_strlit("pip3.exe");
    lemma_shim_commands(stem, windows);
    let names = shim_names_of(windows);
    assert(lowercase("python"@) =~= "python"@);
    assert(lowercase("python3"@) =~= "python3"@);
    assert(lowercase("pythonw"@) =~= "pythonw"@);
    assert(lowercase("pip"@) =~= "pip"@);
    assert(lowercase("pip3"@) =~= "pip3"@);
    if windows {
        assert("python.exe"@.take(6) =~= "python"@);
        assert("pythonw.exe"@.take(7) =~= "pythonw"@);
        assert("pip.exe"@.take(3) =~= "pip"@);
        assert("pip3.exe"@.take(4) =~= "pip3"@);
        assert("python.exe"@.skip(6) =~= ".exe"@);
        assert("pythonw.exe"@.skip(7) =~= ".exe"@);
        assert("pip.exe"@.skip(3) =~= ".exe"@);
        assert("pip3.exe"@.skip(4) =~= ".exe"@);
        assert("python"@ + ".exe"@ =~= "python.exe"@);
        assert("pythonw"@ + ".exe"@ =~= "pythonw.exe"@);
        assert("pip"@ + ".exe"@ =~= "pip.exe"@);
        assert("pip3"@ + ".exe"@ =~= "pip3.exe"@);
        assert(names[0] == "python.exe"@);
        assert(names[1] == "pythonw.exe"@);
        assert(names[2] == "pip.exe"@);
        assert(names[3] == "pip3.exe"@);
    } else {
        assert(names[0] == "python"@);
        assert(names[1] == "python3"@);
        assert(names[2] == "pip"@);
        assert(names[3] == "pip3"@);
    }
}

} // verus!
