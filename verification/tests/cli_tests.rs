use pvm::commands::env::{run as env_run, Shell, ShellProbe};
use pvm::dirs::bin_dir;

fn bin() -> String {
    bin_dir(false).expect("home directory")
}

fn probe(ps: bool, shell: Option<&str>, windows: bool) -> ShellProbe {
    ShellProbe { ps_module_path: ps, shell: shell.map(|s| s.to_string()), windows }
}

// --- list ---

#[test]
fn list_exits_success_with_no_versions() {
    let listed = pvm::commands::list::run(vec![], None);
    assert!(listed.is_empty());
}

// --- env ---

#[test]
fn env_bash_outputs_export_path() {
    let out = env_run(Some(Shell::Bash), &probe(false, None, false), &bin());
    assert!(out.contains("export PATH="));
    assert!(out.contains(".pvm/bin"));
}

#[test]
fn env_zsh_outputs_export_path() {
    let out = env_run(Some(Shell::Zsh), &probe(false, None, false), &bin());
    assert!(out.contains("export PATH="));
}

#[test]
fn env_fish_outputs_set_gx() {
    let out = env_run(Some(Shell::Fish), &probe(false, None, false), &bin());
    assert!(out.contains("set -gx PATH"));
}

#[test]
fn env_powershell_outputs_env_path() {
    let out = env_run(Some(Shell::PowerShell), &probe(false, None, false), &bin());
    assert!(out.contains("$env:PATH"));
}

#[test]
fn env_cmd_outputs_set() {
    let out = env_run(Some(Shell::Cmd), &probe(false, None, false), &bin());
    assert!(out.contains("@SET"));
}

// --- version validation ---

#[test]
fn use_invalid_version_fails() {
    assert!(pvm::commands::use_ver::run("invalid", &vec![], false).is_err());
}

#[test]
fn use_letters_in_version_fails() {
    assert!(pvm::commands::use_ver::run("3.12.x", &vec![], false).is_err());
}

#[test]
fn install_invalid_version_fails() {
    let resolved = pvm::commands::install::resolve_version("not-a-version", &vec![]).unwrap();
    assert!(pvm::validate::version(&resolved).is_err());
}

#[test]
fn uninstall_invalid_version_fails() {
    assert!(pvm::commands::uninstall::run("bad", &vec![], None, false).is_err());
}

#[test]
fn default_invalid_version_fails() {
    assert!(pvm::commands::default::run("bad", &vec![], false).is_err());
}

// --- Platform-specific env auto-detection ---

#[test]
fn env_auto_detects_powershell_on_windows() {
    let out = env_run(None, &probe(true, None, true), &bin());
    assert!(out.contains("$env:PATH"));
}

#[test]
fn env_auto_detects_bash_on_linux() {
    let out = env_run(None, &probe(false, Some("/bin/bash"), false), &bin());
    assert!(out.contains("export PATH="));
}

// --- further cases ---

#[test]
fn env_lines_exact() {
    let p = probe(false, None, false);
    assert_eq!(env_run(Some(Shell::Bash), &p, "/h/.pvm/bin"), "export PATH=\"/h/.pvm/bin:$PATH\"");
    assert_eq!(env_run(Some(Shell::Fish), &p, "C:\\u\\.pvm\\bin"), "set -gx PATH \"C:/u/.pvm/bin\" $PATH");
    assert_eq!(env_run(Some(Shell::PowerShell), &p, "C:\\u\\.pvm\\bin"), "$env:PATH = \"C:\\u\\.pvm\\bin;\" + $env:PATH");
    assert_eq!(env_run(Some(Shell::Cmd), &p, "C:\\b"), "@SET \"PATH=C:\\b;%PATH%\"");
}

#[test]
fn env_detection_order() {
    assert_eq!(pvm::commands::env::detect_shell(&probe(true, Some("/usr/bin/fish"), false)), Shell::PowerShell);
    assert_eq!(pvm::commands::env::detect_shell(&probe(false, Some("/usr/bin/fish"), false)), Shell::Fish);
    assert_eq!(pvm::commands::env::detect_shell(&probe(false, Some("/bin/zsh"), true)), Shell::Zsh);
    assert_eq!(pvm::commands::env::detect_shell(&probe(false, Some("/bin/sh"), true)), Shell::Bash);
    assert_eq!(pvm::commands::env::detect_shell(&probe(false, None, true)), Shell::PowerShell);
    assert_eq!(pvm::commands::env::detect_shell(&probe(false, None, false)), Shell::Bash);
}
