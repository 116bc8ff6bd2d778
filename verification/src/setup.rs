//! Start-up check that pvm's shims are on the PATH, and what is written to
//! the PowerShell profile when they are not.

use vstd::prelude::*;
use crate::text::{chars_of, split_chars, split_seq, to_lowercase, lowercase, chars_eq, str_contains,
    contains_seq, push_str};

verus! {

/// The line that loads pvm in a PowerShell profile.
pub open spec fn pvm_line() -> Seq<char> {
    "pvm env | Out-String | Invoke-Expression"@
}

/// The line that loads pvm in a PowerShell profile ([`pvm_line`]), as the
/// messages show it.
pub fn profile_line() -> (r: &'static str)
    ensures
        r@ == pvm_line(),
{
    "pvm env | Out-String | Invoke-Expression"
}

/// The shim directory is one of the entries of `PATH` (separated by `;` on
/// Windows and `:` elsewhere), compared in lowercase.
pub open spec fn shims_listed(shims: Seq<char>, path_var: Seq<char>, windows: bool) -> bool {
    let entries = split_seq(lowercase(path_var), if windows { ';' } else { ':' });
    entries.contains(lowercase(shims))
}

/// Whether the shim directory is on the `PATH` ([`shims_listed`]).
pub fn shims_in_path(shims: &str, path_var: &str, windows: bool) -> (r: bool)
    ensures
        r == shims_listed(shims@, path_var@, windows),
{
    let sl = to_lowercase(shims);
    let pl = to_lowercase(path_var);
    let shims_lower = chars_of(sl.as_str());
    let path_lower = chars_of(pl.as_str());
    let sep = if windows { ';' } else { ':' };
    let entries = split_chars(&path_lower, sep);
    assert(shims_lower@ == lowercase(shims@));
    assert(path_lower@ == lowercase(path_var@));
    let ghost es = entries@.map_values(|v: Vec<char>| v@);
    for i in 0..entries.len()
        invariant
            es == entries@.map_values(|v: Vec<char>| v@),
            es == split_seq(lowercase(path_var@), if windows { ';' } else { ':' }),
            shims_lower@ == lowercase(shims@),
            forall|j: int| 0 <= j < i ==> es[j] != shims_lower@,
    {
        if chars_eq(&entries[i], &shims_lower) {
            assert(es[i as int] == shims_lower@);
            return true;
        }
    }
    proof {
        if es.contains(shims_lower@) {
            let j = choose|j: int| 0 <= j < es.len() && es[j] == shims_lower@;
        }
    }
    false
}

/// Called at start-up: whether pvm must set up the PowerShell profile (the
/// shims are not on the PATH, on Windows).
pub fn ensure_configured(shims_on_path: bool, windows: bool) -> (r: bool)
    ensures
        r == (!shims_on_path && windows),
{
    !shims_on_path && windows
}

/// Whether the profile (its content, when it exists and could be read)
/// already loads pvm.
pub fn profile_has_pvm(content: Option<&str>) -> (r: bool)
    ensures
        r == (match content { Some(c) => contains_seq(c@, pvm_line()), None => false }),
{
    match content {
        Some(c) => str_contains(c, "pvm env | Out-String | Invoke-Expression"),
        None => false,
    }
}

/// What is appended to the profile: an empty line, a comment, and the line
/// that loads pvm, each ending with a new line.
pub open spec fn profile_addition_text() -> Seq<char> {
    "\n"@ + "# pvm — Python Version Manager"@ + "\n"@ + pvm_line() + "\n"@
}

/// The text appended to the PowerShell profile ([`profile_addition_text`]).
pub fn profile_addition() -> (r: String)
    ensures
        r@ == profile_addition_text(),
{
    let mut s = String::new();
    push_str(&mut s, "\n");
    push_str(&mut s, "# pvm — Python Version Manager");
    push_str(&mut s, "\n");
    push_str(&mut s, "pvm env | Out-String | Invoke-Expression");
    push_str(&mut s, "\n");
    s
}

/// The profile after set-up: unchanged when it already loads pvm, else with
/// the set-up text appended.
pub open spec fn profile_after(c: Seq<char>) -> Seq<char> {
    if contains_seq(c, pvm_line()) {
        c
    } else {
        c + profile_addition_text()
    }
}

/// What set-up appends to the PowerShell profile, given its content (`None`
/// when there is no profile; an unreadable one counts as empty): nothing when
/// it already loads pvm, else the set-up text ([`profile_addition_text`]).
/// Appending the result to the content gives [`profile_after`].
pub fn profile_update(content: Option<&str>) -> (r: Option<String>)
    ensures
        ({
            let c = match content { Some(c) => c@, None => Seq::<char>::empty() };
            &&& (r is None) == contains_seq(c, pvm_line())
            &&& r matches Some(t) ==> t@ == profile_addition_text()
            &&& profile_after(c) == c + match r { Some(t) => t@, None => Seq::<char>::empty() }
        }),
{
    let present = profile_has_pvm(content);
    proof {
        reveal_strlit("pvm env | Out-String | Invoke-Expression");
        if content is None {
            assert(!contains_seq(Seq::<char>::empty(), pvm_line()));
        }
    }
    if present {
        proof {
            let c = match content { Some(c) => c@, None => Seq::<char>::empty() };
            assert(c + Seq::<char>::empty() =~= c);
        }
        None
    } else {
        Some(profile_addition())
    }
}

/// Setting up the profile twice is setting it up once: after set-up the
/// profile loads pvm, and a second set-up leaves it as it is.
pub proof fn lemma_profile_setup_idempotent(c: Seq<char>)
    ensures
        contains_seq(profile_after(c), pvm_line()),
        profile_after(profile_after(c)) == profile_after(c),
{
    if !contains_seq(c, pvm_line()) {
        let pre = "\n"@ + "# pvm — Python Version Manager"@ + "\n"@;
        let l = pvm_line();
        let t = c + profile_addition_text();
        assert(profile_addition_text() =~= pre + l + "\n"@);
        assert(t =~= (c + pre) + l + "\n"@);
        let i = (c + pre).len() as int;
        assert(t.subrange(i, i + l.len()) =~= l);
        assert(0 <= i <= t.len() - l.len());
    }
}

} // verus!
