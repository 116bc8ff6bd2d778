use pvm::args::{extract_version_prefix, normalize_lang_args};

fn s(v: &[&str]) -> Vec<String> {
    v.iter().map(|s| s.to_string()).collect()
}

#[test]
fn extract_no_version_flag() {
    let input = s(&["pvm", "list"]);
    let (ver, cleaned) = extract_version_prefix(input.clone());
    assert_eq!(ver, None);
    assert_eq!(cleaned, input);
}

#[test]
fn extract_version_flag_stripped() {
    let input = s(&["pvm", "-3.12.4", "venv", ".venv"]);
    let (ver, cleaned) = extract_version_prefix(input);
    assert_eq!(ver, Some("3.12.4".to_string()));
    assert_eq!(cleaned, s(&["pvm", "venv", ".venv"]));
}

#[test]
fn extract_only_first_version_flag() {
    let input = s(&["pvm", "-3.12.4", "-3.11.0", "venv", ".venv"]);
    let (ver, cleaned) = extract_version_prefix(input);
    assert_eq!(ver, Some("3.12.4".to_string()));
    assert_eq!(cleaned, s(&["pvm", "-3.11.0", "venv", ".venv"]));
}

#[test]
fn extract_ignores_regular_flags() {
    let input = s(&["pvm", "--help"]);
    let (ver, cleaned) = extract_version_prefix(input.clone());
    assert_eq!(ver, None);
    assert_eq!(cleaned, input);
}

#[test]
fn extract_version_at_end() {
    let input = s(&["pvm", "venv", ".venv", "-3.12.4"]);
    let (ver, cleaned) = extract_version_prefix(input);
    assert_eq!(ver, Some("3.12.4".to_string()));
    assert_eq!(cleaned, s(&["pvm", "venv", ".venv"]));
}

#[test]
fn normalize_lang_dash_c() {
    let input = s(&["pvm", "lang", "-c", "english"]);
    let result = normalize_lang_args(input);
    assert_eq!(result, s(&["pvm", "lang", "change", "english"]));
}

#[test]
fn normalize_lang_change_unchanged() {
    let input = s(&["pvm", "lang", "change", "español"]);
    let result = normalize_lang_args(input.clone());
    assert_eq!(result, input);
}

// --- further cases ---

#[test]
fn extract_accepts_long_digit_runs() {
    let (ver, cleaned) = extract_version_prefix(s(&["pvm", "-3.1234.0", "venv"]));
    assert_eq!(ver, Some("3.1234.0".to_string()));
    assert_eq!(cleaned, s(&["pvm", "venv"]));
}

#[test]
fn extract_rejects_partial_versions() {
    let input = s(&["pvm", "-3.12", "-3.12.4a", "--3.12.4", "-.1.2"]);
    let (ver, cleaned) = extract_version_prefix(input.clone());
    assert_eq!(ver, None);
    assert_eq!(cleaned, input);
}

#[test]
fn normalize_dash_c_only_after_lang() {
    let input = s(&["pvm", "-c", "lang", "x", "-c"]);
    assert_eq!(normalize_lang_args(input.clone()), input);
    let twice = s(&["lang", "-c", "-c"]);
    assert_eq!(normalize_lang_args(twice), s(&["lang", "change", "-c"]));
}

#[test]
fn normalize_empty() {
    assert_eq!(normalize_lang_args(vec![]), Vec::<String>::new());
}
