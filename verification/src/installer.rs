//! The decisions of the Windows installer `pvm-setup`: how its prompts are
//! answered, where it installs, and the PowerShell commands it runs.

use vstd::prelude::*;
use crate::text::{chars_of, string_of, trim_chars, trim_seq, to_lowercase, lowercase, str_eq, push_str,
    str_contains, contains_seq};

verus! {

/// The answers that accept an installer prompt, whose default is yes: an
/// empty answer, `s`, `y`, `si` or `yes`.
pub open spec fn accepted(t: Seq<char>) -> bool {
    t.len() == 0 || t == "s"@ || t == "y"@ || t == "si"@ || t == "yes"@
}

/// Whether the answer to an installer prompt accepts: trimmed and in
/// lowercase it is one of [`accepted`].
pub fn accepts(input: &str) -> (r: bool)
    ensures
        r == accepted(lowercase(trim_seq(input@))),
{
    let t = string_of(&trim_chars(&chars_of(input)));
    let l = to_lowercase(t.as_str());
    l.unicode_len() == 0 || str_eq(l.as_str(), "s") || str_eq(l.as_str(), "y") || str_eq(l.as_str(), "si")
        || str_eq(l.as_str(), "yes")
}

/// The directory under which the installer puts its own: `LOCALAPPDATA`
/// when it is set; else `AppData\Local` under `USERPROFILE`, or under
/// `C:\Users\User` when that is not set either.
pub open spec fn install_base_of(local_app_data: Option<Seq<char>>, user_profile: Option<Seq<char>>) -> Seq<char> {
    match local_app_data {
        Some(l) => l,
        None => match user_profile {
            Some(h) => h + "\\AppData\\Local"@,
            None => "C:\\Users\\User"@ + "\\AppData\\Local"@,
        },
    }
}

/// The installer's base directory, from the values of `LOCALAPPDATA` and
/// `USERPROFILE` ([`install_base_of`]).
pub fn install_base(local_app_data: Option<&str>, user_profile: Option<&str>) -> (r: String)
    ensures
        r@ == install_base_of(
            match local_app_data { Some(l) => Some(l@), None => None },
            match user_profile { Some(h) => Some(h@), None => None },
        ),
{
    match local_app_data {
        Some(l) => {
            let mut s = String::new();
            push_str(&mut s, l);
            s
        },
        None => {
            let mut s = String::new();
            match user_profile {
                Some(h) => push_str(&mut s, h),
                None => push_str(&mut s, "C:\\Users\\User"),
            }
            push_str(&mut s, "\\AppData\\Local");
            s
        },
    }
}

/// The PowerShell command that answers `yes` when the user's PATH holds
/// `dir` anywhere in it, and `no` otherwise.
pub open spec fn path_query_script_of(dir: Seq<char>) -> Seq<char> {
    "$p = [Environment]::GetEnvironmentVariable('PATH','User'); \\\n                   if ($p -like '*"@ + dir + "*') { 'yes' } else { 'no' }"@
}

/// The command that asks whether the user's PATH holds `dir`
/// ([`path_query_script_of`]).
pub fn path_query_script(dir: &str) -> (r: String)
    ensures
        r@ == path_query_script_of(dir@),
{
    let mut s = String::new();
    push_str(&mut s, "$p = [Environment]::GetEnvironmentVariable('PATH','User'); \\\n                   if ($p -like '*");
    push_str(&mut s, dir);
    push_str(&mut s, "*') { 'yes' } else { 'no' }");
    s
}

/// Whether the reply of the PATH query says yes: trimmed and in lowercase,
/// it holds `yes`.
pub fn reply_is_yes(output: &str) -> (r: bool)
    ensures
        r == contains_seq(lowercase(trim_seq(output@)), "yes"@),
{
    let t = string_of(&trim_chars(&chars_of(output)));
    let l = to_lowercase(t.as_str());
    str_contains(l.as_str(), "yes")
}

/// The PowerShell script that puts `dir` in front of the user's PATH, unless
/// the PATH holds it already.
pub open spec fn add_path_script_of(dir: Seq<char>) -> Seq<char> {
    "\n        $dir = '"@ + dir + "'\n        $old = [Environment]::GetEnvironmentVariable('PATH', 'User')\n        if ($old -notlike \"*$dir*\") {\n            [Environment]::SetEnvironmentVariable('PATH', \"$dir;$old\", 'User')\n        }\n        "@
}

/// The script that adds `dir` to the user's PATH ([`add_path_script_of`]).
pub fn add_path_script(dir: &str) -> (r: String)
    ensures
        r@ == add_path_script_of(dir@),
{
    let mut s = String::new();
    push_str(&mut s, "\n        $dir = '");
    push_str(&mut s, dir);
    push_str(&mut s, "'\n        $old = [Environment]::GetEnvironmentVariable('PATH', 'User')\n        if ($old -notlike \"*$dir*\") {\n            [Environment]::SetEnvironmentVariable('PATH', \"$dir;$old\", 'User')\n        }\n        ");
    s
}

/// Whether the running executable is the installer: the stem of its name,
/// in lowercase, is `pvm-setup`.
pub fn is_setup_name(stem: &str) -> (r: bool)
    ensures
        r == (lowercase(stem@) == "pvm-setup"@),
{
    let l = to_lowercase(stem);
    str_eq(l.as_str(), "pvm-setup")
}

} // verus!
