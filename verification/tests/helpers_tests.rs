use pvm::branding::{help_entries, pad_right};
use pvm::checksum::{find_sha256, sha256_url};
use pvm::commands::install::target_dir;
use pvm::commands::list_remote::waits_before;
use pvm::commands::uninstall::{install_path_key, major_minor, msi_guid, python_core_key, registry_names};
use pvm::commands::uninstall_self::{path_cleanup_script, ps_quote, removal_script};
use pvm::commands::use_ver::bin_removal_failure_ignored;
use pvm::dirs::version_dir;
use pvm::error::PvmError;
use pvm::i18n::Language;
use pvm::installer::{accepts, add_path_script, install_base, path_query_script, reply_is_yes};
use pvm::paths::{file_name, join, same_path};
use pvm::releases::{listing_step, releases_page_url, search_step, SearchStep, LISTING_PAGES, SEARCH_PAGES};

const DIGEST: &str = "0123456789abcdef0123456789abcdef0123456789abcdef0123456789abcdef";

#[test]
fn checksum_url_beside_installer() {
    assert_eq!(
        sha256_url("https://www.python.org/ftp/python/3.12.4/python-3.12.4-amd64.exe"),
        "https://www.python.org/ftp/python/3.12.4/python-3.12.4-amd64.exe.sha256"
    );
}

#[test]
fn checksum_first_digest() {
    let content = format!("{}  python-3.12.4-amd64.exe\n", DIGEST);
    assert_eq!(find_sha256(&content), Some(DIGEST.to_string()));
    // The leftmost run of 64 wins, even inside a longer run.
    let longer = format!("zz{}ff", DIGEST);
    assert_eq!(find_sha256(&longer), Some(DIGEST.to_string()));
    let shifted = format!("0{}", DIGEST);
    assert_eq!(find_sha256(&shifted), Some(shifted[..64].to_string()));
    // Uppercase digits are not part of the class.
    assert_eq!(find_sha256(&DIGEST.to_uppercase()), None);
    assert_eq!(find_sha256(&DIGEST[..63]), None);
    assert_eq!(find_sha256(""), None);
    let split = format!("{} {}", &DIGEST[..32], &DIGEST[32..]);
    assert_eq!(find_sha256(&split), None);
}

#[test]
fn help_screen_entries() {
    let en = help_entries(Language::English);
    assert_eq!(en.len(), 8);
    assert_eq!(en[0], ("install <version>", "Download and install a Python version"));
    assert_eq!(en[7], ("venv <dir>", "Create a virtual environment with the active version"));
    let es = help_entries(Language::Spanish);
    assert_eq!(es.len(), 8);
    assert_eq!(es[1], ("use <version>", "Cambia la versión activa"));
    for ((a, _), (b, _)) in en.iter().zip(es.iter()) {
        assert_eq!(a, b);
    }
}

#[test]
fn help_column_padding() {
    assert_eq!(pad_right("list", 8), "list    ");
    assert_eq!(pad_right("install <version>", 28), format!("{:<28}", "install <version>"));
    assert_eq!(pad_right("toolong", 3), "toolong");
    assert_eq!(pad_right("ñ", 3), format!("{:<3}", "ñ"));
    assert_eq!(pad_right("", 2), "  ");
}

#[test]
fn registry_helpers() {
    assert_eq!(major_minor("3.12.4"), Some("3.12".to_string()));
    assert_eq!(major_minor("3.12"), Some("3.12".to_string()));
    assert_eq!(major_minor("3"), None);
    assert_eq!(major_minor("3..4"), Some("3.".to_string()));
    assert_eq!(python_core_key("3.12"), r"HKCU\SOFTWARE\Python\PythonCore\3.12");
    assert_eq!(install_path_key("3.12"), r"HKCU\SOFTWARE\Python\PythonCore\3.12\InstallPath");
    let out = r"    (Default)    REG_SZ    C:\Users\Ana\.pvm\versions\3.12.4\";
    assert!(registry_names(out, r"C:\Users\ana\.pvm\versions\3.12.4\"));
    assert!(registry_names(out, r"C:\Users\Ana\.pvm\versions\3.12.4//"));
    assert!(!registry_names(out, r"C:\Users\Ana\.pvm\versions\3.11.0"));
    assert_eq!(
        msi_guid(r"  HKEY_CURRENT_USER\SOFTWARE\Microsoft\Windows\CurrentVersion\Uninstall\{ABC-123}  "),
        Some("{ABC-123}".to_string())
    );
    assert_eq!(msi_guid("plain"), Some("plain".to_string()));
    assert_eq!(msi_guid("   "), None);
}

#[test]
fn powershell_quoting_and_scripts() {
    assert_eq!(ps_quote("C:\\Users\\O'Brien"), "C:\\Users\\O''Brien");
    assert_eq!(ps_quote("''"), "''''");
    assert_eq!(
        removal_script("C:\\Users\\O'Brien\\pvm"),
        "Start-Sleep -Seconds 2; Remove-Item -Recurse -Force 'C:\\Users\\O''Brien\\pvm'"
    );
    let dir = "C:\\Users\\O'Brien\\AppData\\Local\\pvm";
    let expected = format!(
        r#"
$key = 'HKCU:\Environment'
$old = (Get-ItemProperty -Path $key -Name PATH -ErrorAction SilentlyContinue).PATH
if ($old) {{
    $parts = $old -split ';' | Where-Object {{ $_ -ne '' -and $_.TrimEnd('\') -ne '{0}'.TrimEnd('\') }}
    $new = $parts -join ';'
    Set-ItemProperty -Path $key -Name PATH -Value $new
}}
"#,
        dir.replace('\'', "''")
    );
    assert_eq!(path_cleanup_script(dir), expected);
}

#[test]
fn installer_prompts() {
    for yes in ["", "\n", "s", "S\r\n", " y ", "si", "YES"] {
        assert!(accepts(yes), "{:?}", yes);
    }
    for no in ["n", "no", "sí", "yess", "x"] {
        assert!(!accepts(no), "{:?}", no);
    }
}

#[test]
fn installer_directories_and_scripts() {
    assert_eq!(install_base(Some("D:\\Local"), Some("C:\\Users\\Ana")), "D:\\Local");
    assert_eq!(install_base(None, Some("C:\\Users\\Ana")), "C:\\Users\\Ana\\AppData\\Local");
    assert_eq!(install_base(None, None), "C:\\Users\\User\\AppData\\Local");
    let dir = "C:\\Users\\Ana\\AppData\\Local\\pvm";
    let query = format!(
        r#"$p = [Environment]::GetEnvironmentVariable('PATH','User'); \
                   if ($p -like '*{dir}*') {{ 'yes' }} else {{ 'no' }}"#
    );
    assert_eq!(path_query_script(dir), query);
    let add = format!(
        r#"
        $dir = '{dir}'
        $old = [Environment]::GetEnvironmentVariable('PATH', 'User')
        if ($old -notlike "*$dir*") {{
            [Environment]::SetEnvironmentVariable('PATH', "$dir;$old", 'User')
        }}
        "#
    );
    assert_eq!(add_path_script(dir), add);
    assert!(reply_is_yes("YES\r\n"));
    assert!(!reply_is_yes("no\r\n"));
    assert!(!reply_is_yes(""));
}

#[test]
fn release_pages() {
    assert_eq!(
        releases_page_url(3),
        "https://api.github.com/repos/astral-sh/python-build-standalone/releases?per_page=5&page=3"
    );
    assert_eq!(
        releases_page_url(10),
        "https://api.github.com/repos/astral-sh/python-build-standalone/releases?per_page=5&page=10"
    );
    assert_eq!(LISTING_PAGES, 3);
    assert_eq!(SEARCH_PAGES, 10);
}

#[test]
fn paging_and_bin_cleanup() {
    assert!(!waits_before(2, true));
    assert!(waits_before(3, true));
    assert!(!waits_before(5, false));
    assert!(bin_removal_failure_ignored(true, None));
    assert!(bin_removal_failure_ignored(false, Some(39)));
    assert!(bin_removal_failure_ignored(false, Some(145)));
    assert!(bin_removal_failure_ignored(false, Some(66)));
    assert!(!bin_removal_failure_ignored(false, Some(13)));
    assert!(!bin_removal_failure_ignored(false, None));
}

#[test]
fn install_target_refusals() {
    assert_eq!(target_dir("3.12", &vec![], false), Err(PvmError::InvalidVersion("3.12".to_string())));
    let installed = vec!["3.12.4".to_string()];
    assert_eq!(target_dir("3.12.4", &installed, false), Err(PvmError::AlreadyInstalled("3.12.4".to_string())));
    let dir = target_dir("3.11.0", &installed, false).expect("not installed");
    assert_eq!(Ok(dir), version_dir("3.11.0", false));
}

#[test]
fn profile_line_text() {
    let line = pvm::setup::profile_line();
    assert_eq!(line, "pvm env | Out-String | Invoke-Expression");
    assert!(pvm::setup::profile_has_pvm(Some(line)));
    assert!(pvm::setup::profile_addition().ends_with(&format!("{}\n", line)));
}

#[test]
fn backslash_separates_components_on_windows() {
    assert!(same_path("C:\\Users\\ana\\.pvm\\versions\\3.12.4", "C:\\Users\\ana/.pvm/versions/3.12.4", true));
    assert!(!same_path("C:\\Users\\ana\\.pvm\\versions\\3.12.4", "C:\\Users\\ana\\.pvm\\versions\\3.11.0", true));
    assert_eq!(join("C:\\Users\\ana\\", ".pvm", true), "C:\\Users\\ana\\.pvm");
    assert_eq!(join("C:\\Users\\ana", ".pvm", true), "C:\\Users\\ana\\.pvm");
    assert_eq!(file_name("C:\\Users\\ana\\.pvm\\versions\\3.12.4", true), Some("3.12.4".to_string()));
    assert_eq!(
        pvm::commands::list::current_version(Some("C:\\Users\\ana\\.pvm\\versions\\3.12.4"), true),
        Some("3.12.4".to_string())
    );
    assert!(pvm::validate::path_within("C:\\Users\\ana\\.pvm\\versions", "C:\\Users\\ana/.pvm/versions/3.12.4", true).is_ok());
    assert!(pvm::validate::path_within("C:\\Users\\ana\\.pvm\\versions", "C:\\Users\\ana\\.pvm\\aliases", true).is_err());
}

#[test]
fn backslash_is_part_of_a_name_on_unix() {
    assert!(pvm::validate::path_within("/a/versions", "/a/versions\\x", false).is_err());
    assert!(!same_path("/a\\b", "/a/b", false));
    assert_eq!(join("/a\\", "b", false), "/a\\/b");
    assert_eq!(file_name("/a/b\\c", false), Some("b\\c".to_string()));
    for (p, c) in [("/a/versions", "/a/versions\\x"), ("/a", "/a\\b/c"), ("/a/b", "/a/b/c")] {
        let std_within = std::path::Path::new(c).starts_with(p);
        assert_eq!(pvm::validate::path_within(p, c, false).is_ok(), std_within, "{} / {}", p, c);
    }
}

#[test]
fn parent_components_are_refused() {
    assert_eq!(version_dir("..", false), Err(PvmError::OutsideDirectory));
    assert_eq!(version_dir("3.12.4/../../etc", false), Err(PvmError::OutsideDirectory));
    assert_eq!(version_dir("/tmp/evil", false), Err(PvmError::OutsideDirectory));
    assert_eq!(version_dir("..\\x", true), Err(PvmError::OutsideDirectory));
    assert!(version_dir("..\\x", false).is_ok());
    assert!(pvm::validate::path_within("/a/v", "/a/v/../b", false).is_err());
    assert!(pvm::validate::path_within("/a/v", "/a/v/x/..", false).is_err());
    assert!(pvm::validate::path_within("/a/../v", "/a/../v/x", false).is_ok());
    assert!(pvm::validate::path_within("/a/v", "/a/v/..x/y", false).is_ok());
}

#[test]
fn uninstall_refuses_active_version_written_with_backslashes() {
    let installed = vec!["3.12.4".to_string()];
    let path = version_dir("3.12.4", true).expect("home directory");
    let active = path.replace('/', "\\");
    assert_eq!(
        pvm::commands::uninstall::run("3.12.4", &installed, Some(&active), true),
        Err(PvmError::ActiveVersion("3.12.4".to_string()))
    );
}

#[test]
fn profile_setup_once() {
    let addition = pvm::setup::profile_addition();
    assert_eq!(pvm::setup::profile_update(None), Some(addition.clone()));
    assert_eq!(pvm::setup::profile_update(Some("Set-Alias ll ls\n")), Some(addition.clone()));
    let after = format!("Set-Alias ll ls\n{}", addition);
    assert_eq!(pvm::setup::profile_update(Some(&after)), None);
}

#[test]
fn listing_steps() {
    assert_eq!(listing_step(1, true, 5), (true, true));
    assert_eq!(listing_step(3, true, 5), (true, false));
    assert_eq!(listing_step(1, true, 0), (false, false));
    assert_eq!(listing_step(2, false, 0), (false, false));
}

#[test]
fn search_steps() {
    assert!(matches!(search_step(1, false, 0, None), SearchStep::Failed));
    assert!(matches!(search_step(1, true, 0, None), SearchStep::NotFound));
    assert!(matches!(search_step(1, true, 5, None), SearchStep::Next));
    assert!(matches!(search_step(10, true, 5, None), SearchStep::NotFound));
    match search_step(4, true, 5, Some("https://x/t.tar.gz".to_string())) {
        SearchStep::Found(u) => assert_eq!(u, "https://x/t.tar.gz"),
        _ => panic!("expected a URL"),
    }
}

#[test]
fn plans_for_a_found_home() {
    let installed = vec!["3.12.4".to_string()];
    let plan = pvm::commands::use_ver::run_at(Some("/home/ana"), "3.12.4", &installed, false).expect("installed");
    assert_eq!(plan.version_path, "/home/ana/.pvm/versions/3.12.4");
    assert_eq!(plan.current, "/home/ana/.pvm/aliases/current");
    assert_eq!(plan.bin, "/home/ana/.pvm/bin");
    assert_eq!(
        pvm::commands::use_ver::run_at(None, "3.12.4", &installed, false).err(),
        Some(PvmError::HomeNotFound)
    );
    assert_eq!(
        pvm::commands::use_ver::run_at(None, "3.12", &installed, false).err(),
        Some(PvmError::InvalidVersion("3.12".to_string()))
    );
    assert_eq!(
        pvm::commands::use_ver::run_at(Some("/home/ana"), "3.11.0", &installed, false).err(),
        Some(PvmError::NotInstalled("3.11.0".to_string()))
    );
    let d = pvm::commands::default::run_at(Some("C:\\Users\\ana"), "3.12.4", &installed, true).expect("installed");
    assert_eq!(d.version_path, "C:\\Users\\ana\\.pvm\\versions\\3.12.4");
    assert_eq!(d.alias, "C:\\Users\\ana\\.pvm\\aliases\\default");
    assert_eq!(d.record, "C:\\Users\\ana\\.pvm\\default");
    assert_eq!(
        pvm::commands::uninstall::run_at(Some("/home/ana"), "3.12.4", &installed, Some("/home/ana/.pvm/versions/3.11.0"), false),
        Ok("/home/ana/.pvm/versions/3.12.4".to_string())
    );
    assert_eq!(
        pvm::commands::uninstall::run_at(Some("/home/ana"), "3.12.4", &installed, Some("/home/ana//.pvm/versions/3.12.4/"), false),
        Err(PvmError::ActiveVersion("3.12.4".to_string()))
    );
    assert_eq!(
        pvm::commands::venv::resolve_python_for_version_at(Some("/home/ana"), "3.12.4", &installed, false),
        Ok("/home/ana/.pvm/versions/3.12.4/bin/python3".to_string())
    );
    assert_eq!(
        pvm::commands::venv::resolve_python_for_version_at(Some("C:\\Users\\ana"), "3.12.4", &installed, true),
        Ok("C:\\Users\\ana\\.pvm\\versions\\3.12.4\\tools\\python.exe".to_string())
    );
    assert_eq!(
        pvm::commands::install::target_dir_at(Some("/home/ana"), "3.11.0", &installed, false),
        Ok("/home/ana/.pvm/versions/3.11.0".to_string())
    );
    assert_eq!(
        pvm::commands::install::target_dir_at(Some("/home/ana"), "3.12.4", &installed, false),
        Err(PvmError::AlreadyInstalled("3.12.4".to_string()))
    );
    assert_eq!(pvm::commands::install::target_dir_at(None, "3.12.4", &installed, false), Err(PvmError::HomeNotFound));
}

#[test]
fn setup_executable_name() {
    assert!(pvm::installer::is_setup_name("pvm-setup"));
    assert!(pvm::installer::is_setup_name("PVM-Setup"));
    assert!(!pvm::installer::is_setup_name("pvm"));
}
