use pvm::commands::install::{resolve_version, tarball_entry, nuget_entry, python_exe_candidates, EntryAction};
use pvm::commands::language::{change_message, run_change, run_list};
use pvm::commands::list::{current_version, run as list_run};
use pvm::commands::list_remote::version_groups;
use pvm::commands::uninstall_self::{clean_shell_profile, is_confirmation};
use pvm::commands::use_ver::{run as use_run, shim_names};
use pvm::commands::default::run as default_plan;
use pvm::commands::uninstall::run as uninstall_plan;
use pvm::commands::venv::{resolve_pinned_python, resolve_python_for_version, venv_args, strip_verbatim};
use pvm::dirs::{pvm_home_at, version_dir, version_dir_in, versions_dir};
use pvm::error::PvmError;
use pvm::i18n::{current, init, load, Language, LanguageCell};
use pvm::paths::{join, file_name, same_path};
use pvm::releases::{arch_suffix, installer_url, standalone_url, standalone_versions, versions_from_listing, Asset, Release};
use pvm::setup::{ensure_configured, profile_addition, profile_has_pvm, shims_in_path};
use pvm::shim::{exit_code, forward_python, pip_args, resolve, shim_for, ShimKind};
use pvm::versions::{parse_version, sort_desc, SemVersion};

fn s(v: &[&str]) -> Vec<String> {
    v.iter().map(|s| s.to_string()).collect()
}

fn ver(t: &str) -> SemVersion {
    parse_version(t).expect("valid version")
}

fn texts(v: &[SemVersion]) -> Vec<String> {
    v.iter().map(|x| x.to_string()).collect()
}

// --- paths and dirs ---

#[test]
fn join_like_pathbuf() {
    assert_eq!(join("/a", "b", false), "/a/b");
    assert_eq!(join("/a/", "b", false), "/a/b");
    assert_eq!(join("", "b", false), "b");
    assert_eq!(join("/a", "/etc", false), "/etc");
    for (b, n) in [("/a", "b"), ("a/", "c"), ("", "x"), ("/a", "/b"), (".", "x")] {
        let expected = std::path::Path::new(b).join(n);
        assert_eq!(join(b, n, false), expected.to_str().unwrap());
    }
}

#[test]
fn file_name_like_path() {
    assert_eq!(file_name("/home/u/.pvm/versions/3.12.4", false), Some("3.12.4".to_string()));
    assert_eq!(file_name("/a/b/", false), Some("b".to_string()));
    assert_eq!(file_name("/", false), None);
    assert_eq!(file_name("a/..", false), None);
    assert_eq!(file_name(".", false), None);
    assert!(same_path("/a//b/", "/a/b", false));
    assert!(!same_path("/a/b", "a/b", false));
}

#[test]
fn layout_under_home() {
    assert_eq!(pvm_home_at("/home/u", false), "/home/u/.pvm");
    assert_eq!(version_dir_in("/home/u/.pvm/versions", "3.12.4", false), Ok("/home/u/.pvm/versions/3.12.4".to_string()));
    assert_eq!(version_dir_in("/v", "/etc", false), Err(PvmError::OutsideDirectory));
    let base = versions_dir(false).expect("home directory");
    let d = version_dir("3.12.4", false).expect("home directory");
    assert_eq!(d, format!("{}/3.12.4", base));
}

// --- i18n ---

#[test]
fn language_names() {
    assert_eq!(Language::English.code(), "en");
    assert_eq!(Language::Spanish.code(), "es");
    assert_eq!(Language::English.display_name(), "English");
    assert_eq!(Language::Spanish.display_name(), "Español");
    assert_eq!(Language::from_str("ENGLISH"), Some(Language::English));
    assert_eq!(Language::from_str("Inglés"), Some(Language::English));
    assert_eq!(Language::from_str("ESPAÑOL"), Some(Language::Spanish));
    assert_eq!(Language::from_str("Spanish"), Some(Language::Spanish));
    assert_eq!(Language::from_str("french"), None);
    assert_eq!(Language::all(), vec![Language::English, Language::Spanish]);
}

#[test]
fn language_cell_first_init_wins() {
    let mut cell = LanguageCell::new();
    assert_eq!(current(&cell), Language::English);
    init(&mut cell, Language::Spanish);
    init(&mut cell, Language::English);
    assert_eq!(current(&cell), Language::Spanish);
}

#[test]
fn language_file_round_trip() {
    for l in [Language::English, Language::Spanish] {
        assert_eq!(load(Some(l.code())), l);
    }
    assert_eq!(load(Some("  es\n")), Language::Spanish);
    assert_eq!(load(Some("klingon")), Language::English);
    assert_eq!(load(None), Language::English);
}

#[test]
fn language_commands() {
    assert_eq!(run_change("español"), Ok(Language::Spanish));
    assert_eq!(run_change("xx"), Err(PvmError::UnknownLanguage("xx".to_string())));
    assert_eq!(change_message(Language::English), "Language set to English");
    assert_eq!(change_message(Language::Spanish), "Idioma establecido: Español");
    assert_eq!(run_list(Language::Spanish), vec![(Language::English, false), (Language::Spanish, true)]);
}

// --- versions ---

#[test]
fn semver_parse_and_text() {
    let v = ver("3.12.4");
    assert_eq!((v.major, v.minor, v.patch), (3, 12, 4));
    assert_eq!(v.to_string(), "3.12.4");
    assert!(parse_version("03.1.2").is_none());
    assert!(parse_version("3.1").is_none());
    assert!(parse_version("18446744073709551616.0.0").is_none());
    assert_eq!(ver("1.2.3-rc.1+b5").to_string(), "1.2.3-rc.1+b5");
    assert_eq!(ver("18446744073709551615.0.10").to_string(), "18446744073709551615.0.10");
}

#[test]
fn sort_highest_first() {
    let vs = vec![ver("3.9.1"), ver("3.12.0"), ver("3.12.0-rc1"), ver("3.10.13"), ver("3.9.1")];
    assert_eq!(texts(&sort_desc(vs)), s(&["3.12.0", "3.12.0-rc1", "3.10.13", "3.9.1", "3.9.1"]));
}

// --- releases ---

#[test]
fn installer_url_format() {
    assert_eq!(installer_url("3.12.4"), "https://www.nuget.org/api/v2/package/python/3.12.4/");
}

#[test]
fn listing_scan() {
    let body = r#"<a href="3.9.1/">3.9.1/</a> <a href="3.12.0/">x</a> <a href="2.7/">2.7/</a>
        <a href="3.12.0a1/">a</a> <a href="03.1.1/">z</a> href="3.11.2/" href="3.11.2""#;
    assert_eq!(texts(&versions_from_listing(body)), s(&["3.12.0", "3.11.2", "3.9.1"]));
    assert!(versions_from_listing("").is_empty());
}

fn asset(name: &str, url: Option<&str>) -> Asset {
    Asset { name: name.to_string(), url: url.map(|u| u.to_string()) }
}

#[test]
fn standalone_assets() {
    let suffix = arch_suffix("x86_64").unwrap();
    assert_eq!(suffix, "x86_64-unknown-linux-gnu-install_only.tar.gz");
    assert_eq!(arch_suffix("riscv64"), Err(PvmError::UnsupportedArchitecture("riscv64".to_string())));
    let releases = vec![
        Release { assets: vec![
            asset("cpython-3.12.13+20260504-x86_64-unknown-linux-gnu-install_only.tar.gz", Some("u1")),
            asset("cpython-3.12.13+20260504-aarch64-unknown-linux-gnu-install_only.tar.gz", Some("u2")),
            asset("cpython-3.14.0rc2+20260504-x86_64-unknown-linux-gnu-install_only.tar.gz", Some("u3")),
        ] },
        Release { assets: vec![
            asset("cpython-3.13.1+20250101-x86_64-unknown-linux-gnu-install_only.tar.gz", None),
            asset("cpython-3.13.1+20250102-x86_64-unknown-linux-gnu-install_only.tar.gz", Some("u5")),
            asset("cpython-3.12.13+20250101-x86_64-unknown-linux-gnu-install_only.tar.gz", Some("u6")),
            asset("", None),
        ] },
    ];
    assert_eq!(texts(&standalone_versions(&releases, &suffix)), s(&["3.13.1", "3.12.13"]));
    assert_eq!(standalone_url(&releases, "3.12.13", &suffix), Some("u1".to_string()));
    assert_eq!(standalone_url(&releases, "3.13.1", &suffix), Some("u5".to_string()));
    assert_eq!(standalone_url(&releases, "3.11.0", &suffix), None);
}

// --- list-remote ---

#[test]
fn grouping_for_list_remote() {
    let vs = vec![ver("3.13.1"), ver("3.12.4"), ver("3.13.0"), ver("3.7.9"), ver("2.7.18"), ver("4.0.0-a1"), ver("3.12.3")];
    let installed = s(&["3.12.4"]);
    let l = version_groups(&vs, None, &installed, Some("3.12.4"));
    assert_eq!(l.count, 4);
    let keys: Vec<(u64, u64)> = l.groups.iter().map(|g| (g.major, g.minor)).collect();
    assert_eq!(keys, vec![(3, 13), (3, 12)]);
    let g13: Vec<&str> = l.groups[0].lines.iter().map(|x| x.text.as_str()).collect();
    assert_eq!(g13, vec!["3.13.1", "3.13.0"]);
    assert!(l.groups[0].lines[0].latest && !l.groups[0].lines[1].latest);
    let l12 = &l.groups[1].lines[0];
    assert_eq!(l12.text, "3.12.4");
    assert!(l12.installed && l12.active && l12.latest);
    assert!(!l.groups[1].lines[1].installed);
    let f = version_groups(&vs, Some("3.12"), &installed, None);
    assert_eq!(f.count, 2);
    assert_eq!(f.groups.len(), 1);
    let none = version_groups(&vs, Some("9"), &installed, None);
    assert_eq!(none.count, 0);
    assert!(none.groups.is_empty());
}

// --- install ---

#[test]
fn resolve_minor_requests() {
    let avail = sort_desc(vec![ver("3.12.3"), ver("3.12.10"), ver("3.13.0-rc1"), ver("3.13.0"), ver("3.120.1")]);
    assert_eq!(resolve_version("3.12", &avail), Ok("3.12.10".to_string()));
    assert_eq!(resolve_version("3.13", &avail), Ok("3.13.0".to_string()));
    assert_eq!(resolve_version("3.11", &avail), Err(PvmError::NoStableVersion("3.11".to_string())));
    assert_eq!(resolve_version("3.12.1", &avail), Ok("3.12.1".to_string()));
    assert_eq!(resolve_version("3.012", &avail), Err(PvmError::NoStableVersion("3.012".to_string())));
}

#[test]
fn archive_entries() {
    match tarball_entry("/d", "python/bin/python3", false, false) {
        EntryAction::File(p) => assert_eq!(p, "/d/bin/python3"),
        _ => panic!("expected a file"),
    }
    match tarball_entry("/d", "python/lib/", true, false) {
        EntryAction::Dir(p) => assert_eq!(p, "/d/lib"),
        _ => panic!("expected a directory"),
    }
    assert!(matches!(tarball_entry("/d", "python/", true, false), EntryAction::Skip));
    assert_eq!(nuget_entry("/d", "tools/", false), ("/d/tools/".to_string(), true));
    assert_eq!(nuget_entry("/d", "tools/python.exe", false), ("/d/tools/python.exe".to_string(), false));
    assert_eq!(python_exe_candidates("/d", false), s(&["/d/tools/python.exe", "/d/python.exe"]));
}

// --- use / default / uninstall / venv ---

#[test]
fn use_default_uninstall_plans() {
    let installed = s(&["3.12.4"]);
    let p = use_run("3.12.4", &installed, false).expect("installed");
    assert!(p.version_path.ends_with("/.pvm/versions/3.12.4"));
    assert!(p.current.ends_with("/.pvm/aliases/current"));
    assert!(p.bin.ends_with("/.pvm/bin"));
    assert_eq!(use_run("3.11.0", &installed, false).err(), Some(PvmError::NotInstalled("3.11.0".to_string())));
    let d = default_plan("3.12.4", &installed, false).expect("installed");
    assert!(d.alias.ends_with("/.pvm/aliases/default"));
    assert!(d.record.ends_with("/.pvm/default"));
    let active = p.version_path.clone();
    assert_eq!(uninstall_plan("3.12.4", &installed, Some(&active), false), Err(PvmError::ActiveVersion("3.12.4".to_string())));
    assert_eq!(uninstall_plan("3.12.4", &installed, Some("/elsewhere"), false), Ok(p.version_path.clone()));
    assert_eq!(shim_names(false), vec!["python", "python3", "pip", "pip3"]);
}

#[test]
fn venv_helpers() {
    let installed = s(&["3.12.4"]);
    let py = resolve_python_for_version("3.12.4", &installed, false).expect("installed");
    assert!(py.ends_with("/.pvm/versions/3.12.4/bin/python3"));
    assert_eq!(resolve_pinned_python("/v/3.12.4", false), "/v/3.12.4/bin/python3");
    assert_eq!(strip_verbatim(r"\\?\C:\x"), r"C:\x");
    assert_eq!(strip_verbatim(r"\\?\\\?\C:"), r"C:");
    assert_eq!(venv_args(".venv", &s(&["--clear"])), s(&["-m", "venv", ".venv", "--clear"]));
}

// --- shims and setup ---

#[test]
fn shim_dispatch() {
    assert_eq!(shim_for("Python3", false), Some(ShimKind::Python));
    assert_eq!(shim_for("pythonw", false), None);
    assert_eq!(shim_for("pythonw", true), Some(ShimKind::Pythonw));
    assert_eq!(shim_for("PIP", true), Some(ShimKind::Pip));
    assert_eq!(shim_for("pvm", true), None);
    assert_eq!(forward_python(false), "python3");
    assert_eq!(forward_python(true), "python.exe");
    assert_eq!(resolve("/v/3.12.4", "python3", false), "/v/3.12.4/bin/python3");
    assert_eq!(pip_args(&s(&["install", "x"])), s(&["-m", "pip", "install", "x"]));
    assert_eq!(exit_code(Some(3)), 3);
    assert_eq!(exit_code(None), 1);
}

#[test]
fn setup_checks() {
    assert!(shims_in_path("/Home/.pvm/bin", "/usr/bin:/home/.pvm/BIN", false));
    assert!(!shims_in_path("/home/.pvm/bin", "/usr/bin:/home/.pvm/bin/x", false));
    assert!(shims_in_path("C:\\p\\bin", "C:\\x;c:\\P\\BIN", true));
    assert!(ensure_configured(false, true));
    assert!(!ensure_configured(true, true));
    assert!(!ensure_configured(false, false));
    assert!(profile_has_pvm(Some("x\npvm env | Out-String | Invoke-Expression\n")));
    assert!(!profile_has_pvm(None));
    assert_eq!(profile_addition(), "\n# pvm — Python Version Manager\npvm env | Out-String | Invoke-Expression\n");
}

// --- list ---

#[test]
fn list_sorted_with_active() {
    let l = list_run(s(&["3.9.0", "3.12.4", "3.10.1"]), Some("3.12.4"));
    let names: Vec<&str> = l.iter().map(|x| x.name.as_str()).collect();
    assert_eq!(names, vec!["3.10.1", "3.12.4", "3.9.0"]);
    assert_eq!(l.iter().filter(|x| x.active).count(), 1);
    assert!(l[1].active);
    assert_eq!(current_version(Some("/h/.pvm/versions/3.12.4"), false), Some("3.12.4".to_string()));
    assert_eq!(current_version(None, false), None);
}

// --- uninstall-self ---

#[test]
fn profile_cleaning() {
    let text = "alias ll='ls -l'\neval \"$(pvm env)\"\nrehash\nexport X=1\n\n\n";
    assert_eq!(clean_shell_profile(text), "alias ll='ls -l'\nexport X=1\n");
    let fish = "set a b\nfish_add_path ~/.local/bin\npvm env --shell fish | source";
    assert_eq!(clean_shell_profile(fish), "set a b\nfish_add_path ~/.local/bin");
    assert_eq!(clean_shell_profile("# pvm\n"), "\n");
    assert_eq!(clean_shell_profile("x=1\n# added by PVM\n# pvm helper\nrehash\ny=2\n"), "x=1\n# added by PVM\ny=2\n");
    let crlf = "a\r\npvm() { command pvm \"$@\"; }\r\n  rehash  \r\nb";
    assert_eq!(clean_shell_profile(crlf), "a\nb");
    assert_eq!(clean_shell_profile(""), "");
    assert_eq!(clean_shell_profile("rehash\n"), "rehash\n");
}

#[test]
fn confirmation_answers() {
    for yes in ["y", "Yes", " S ", "si\n", "SÍ"] {
        assert!(is_confirmation(yes), "{:?}", yes);
    }
    for no in ["", "n", "no", "yess", "ye"] {
        assert!(!is_confirmation(no), "{:?}", no);
    }
}
