//! `pvm env`: the command that puts pvm's shim directory on the shell's PATH.

use vstd::prelude::*;
use crate::text::{push_str, replace_chars, replace_char, str_contains, contains_seq, starts_with, ends_with};

verus! {

/// A shell whose PATH syntax pvm knows.
#[derive(Debug, Clone, Copy, PartialEq, Eq, Structural)]
pub enum Shell {
    Bash,
    Zsh,
    Fish,
    PowerShell,
    Cmd,
}

/// What the environment tells about the running shell.
pub struct ShellProbe {
    /// `PSModulePath` is set.
    pub ps_module_path: bool,
    /// The value of `SHELL`, when it is set.
    pub shell: Option<String>,
    /// The program runs on Windows.
    pub windows: bool,
}

/// The shell the environment points to: PowerShell when `PSModulePath` is
/// set; otherwise by `SHELL` (fish, zsh, else bash); otherwise PowerShell on
/// Windows and bash elsewhere.
pub open spec fn detected_shell(ps_module_path: bool, shell: Option<Seq<char>>, windows: bool) -> Shell {
    if ps_module_path {
        Shell::PowerShell
    } else {
        match shell {
            Some(s) => if contains_seq(s, "fish"@) {
                Shell::Fish
            } else if contains_seq(s, "zsh"@) {
                Shell::Zsh
            } else {
                Shell::Bash
            },
            None => if windows {
                Shell::PowerShell
            } else {
                Shell::Bash
            },
        }
    }
}

/// The line that puts `bin` first on the PATH of `shell`.
pub open spec fn env_line(shell: Shell, bin: Seq<char>) -> Seq<char> {
    match shell {
        Shell::PowerShell => "$env:PATH = \""@ + bin + ";\" + $env:PATH"@,
        Shell::Bash | Shell::Zsh => "export PATH=\""@ + replace_char(bin, '\\', '/') + ":$PATH\""@,
        Shell::Fish => "set -gx PATH \""@ + replace_char(bin, '\\', '/') + "\" $PATH"@,
        Shell::Cmd => "@SET \"PATH="@ + bin + ";%PATH%\""@,
    }
}

/// Detects the shell from the environment ([`detected_shell`]).
pub fn detect_shell(probe: &ShellProbe) -> (r: Shell)
    ensures
        r == detected_shell(probe.ps_module_path, match probe.shell { Some(s) => Some(s@), None => None }, probe.windows),
{
    if probe.ps_module_path {
        return Shell::PowerShell;
    }
    match &probe.shell {
        Some(shell) => {
            if str_contains(shell.as_str(), "fish") {
                return Shell::Fish;
            }
            if str_contains(shell.as_str(), "zsh") {
                return Shell::Zsh;
            }
            Shell::Bash
        },
        None => if probe.windows {
            Shell::PowerShell
        } else {
            Shell::Bash
        },
    }
}

/// The line that puts `bin` on the PATH ([`env_line`]).
pub fn env_command(shell: Shell, bin: &str) -> (r: String)
    ensures
        r@ == env_line(shell, bin@),
{
    let mut s = String::new();
    match shell {
        Shell::PowerShell => {
            push_str(&mut s, "$env:PATH = \"");
            push_str(&mut s, bin);
            push_str(&mut s, ";\" + $env:PATH");
        },
        Shell::Bash | Shell::Zsh => {
            let b = replace_chars(bin, '\\', '/');
            push_str(&mut s, "export PATH=\"");
            push_str(&mut s, b.as_str());
            push_str(&mut s, ":$PATH\"");
        },
        Shell::Fish => {
            let b = replace_chars(bin, '\\', '/');
            push_str(&mut s, "set -gx PATH \"");
            push_str(&mut s, b.as_str());
            push_str(&mut s, "\" $PATH");
        },
        Shell::Cmd => {
            push_str(&mut s, "@SET \"PATH=");
            push_str(&mut s, bin);
            push_str(&mut s, ";%PATH%\"");
        },
    }
    s
}

/// `pvm env`: the command to print for the given shell, or for the shell
/// detected from the environment when none is given.
pub fn run(shell: Option<Shell>, probe: &ShellProbe, bin: &str) -> (r: String)
    ensures
        r@ == env_line(
            match shell {
                Some(s) => s,
                None => detected_shell(probe.ps_module_path, match probe.shell { Some(s) => Some(s@), None => None }, probe.windows),
            },
            bin@,
        ),
{
    let chosen = match shell {
        Some(s) => s,
        None => detect_shell(probe),
    };
    env_command(chosen, bin)
}

/// The shim directory goes in front of the existing PATH, for every shell:
/// the line sets PATH to the shim directory (with `/` for `\` on the POSIX
/// shells and fish) followed by the old PATH; bash and zsh get the same line.
pub proof fn lemma_shims_first(bin: Seq<char>)
    ensures
        env_line(Shell::Zsh, bin) == env_line(Shell::Bash, bin),
        starts_with(env_line(Shell::Bash, bin), "export PATH=\""@ + replace_char(bin, '\\', '/') + ":"@),
        ends_with(env_line(Shell::Bash, bin), ":$PATH\""@),
        starts_with(env_line(Shell::Fish, bin), "set -gx PATH \""@ + replace_char(bin, '\\', '/') + "\""@),
        ends_with(env_line(Shell::Fish, bin), "\" $PATH"@),
        starts_with(env_line(Shell::PowerShell, bin), "$env:PATH = \""@ + bin + ";"@),
        ends_with(env_line(Shell::PowerShell, bin), " + $env:PATH"@),
        starts_with(env_line(Shell::Cmd, bin), "@SET \"PATH="@ + bin + ";"@),
        ends_with(env_line(Shell::Cmd, bin), ";%PATH%\""@),
{
    reveal_strlit("export PATH=\"");
    reveal_strlit(":$PATH\"");
    reveal_strlit(":");
    reveal_strlit("set -gx PATH \"");
    reveal_strlit("\" $PATH");
    reveal_strlit("\"");
    reveal_strlit("$env:PATH = \"");
    reveal_strlit(";\" + $env:PATH");
    reveal_strlit(";");
    reveal_strlit(" + $env:PATH");
    reveal_strlit("@SET \"PATH=");
    reveal_strlit(";%PATH%\"");
    let b = replace_char(bin, '\\', '/');
    let bash = env_line(Shell::Bash, bin);
    assert(bash.take(("export PATH=\""@ + b + ":"@).len() as int) =~= "export PATH=\""@ + b + ":"@);
    assert(bash.skip(bash.len() - ":$PATH\""@.len()) =~= ":$PATH\""@);
    let fish = env_line(Shell::Fish, bin);
    assert(fish.take(("set -gx PATH \""@ + b + "\""@).len() as int) =~= "set -gx PATH \""@ + b + "\""@);
    assert(fish.skip(fish.len() - "\" $PATH"@.len()) =~= "\" $PATH"@);
    let ps = env_line(Shell::PowerShell, bin);
    assert(ps.take(("$env:PATH = \""@ + bin + ";"@).len() as int) =~= "$env:PATH = \""@ + bin + ";"@);
    assert(ps.skip(ps.len() - " + $env:PATH"@.len()) =~= " + $env:PATH"@);
    let cmd = env_line(Shell::Cmd, bin);
    assert(cmd.take(("@SET \"PATH="@ + bin + ";"@).len() as int) =~= "@SET \"PATH="@ + bin + ";"@);
    assert(cmd.skip(cmd.len() - ";%PATH%\""@.len()) =~= ";%PATH%\""@);
}

} // verus!
