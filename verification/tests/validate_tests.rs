use pvm::error::PvmError;
use pvm::validate::{path_within, version};
use std::path::PathBuf;

fn within(parent: &PathBuf, child: &PathBuf) -> Result<(), PvmError> {
    path_within(parent.to_str().unwrap(), child.to_str().unwrap(), false)
}

// --- version() ---

#[test]
fn version_valid_formats() {
    assert!(version("3.12.4").is_ok());
    assert!(version("3.9.0").is_ok());
    assert!(version("10.100.200").is_ok());
    assert!(version("0.0.0").is_ok());
}

#[test]
fn version_rejects_incomplete() {
    assert!(version("3.12").is_err());
    assert!(version("3").is_err());
    assert!(version("").is_err());
    assert!(version("3.12.").is_err());
    assert!(version(".12.4").is_err());
}

#[test]
fn version_rejects_non_digits() {
    assert!(version("3.12.4a").is_err());
    assert!(version("3.12.alpha").is_err());
    assert!(version("v3.12.4").is_err());
    assert!(version("3.12.4-rc1").is_err());
}

#[test]
fn version_rejects_path_traversal() {
    assert!(version("../etc/passwd").is_err());
    assert!(version("3.12.4/../../etc").is_err());
    assert!(version("3.12.4;rm -rf /").is_err());
}

#[test]
fn version_rejects_extra_segments() {
    assert!(version("3.12.4.5").is_err());
}

// --- path_within ---

#[test]
fn path_within_allows_direct_child() {
    let parent = PathBuf::from("/home/user/.pvm/versions");
    let child = parent.join("3.12.4");
    assert!(within(&parent, &child).is_ok());
}

#[test]
fn path_within_allows_nested_child() {
    let parent = PathBuf::from("/home/user/.pvm/versions");
    let child = parent.join("3.12.4").join("bin");
    assert!(within(&parent, &child).is_ok());
}

#[test]
fn path_within_allows_same_path() {
    let parent = PathBuf::from("/home/user/.pvm/versions");
    assert!(within(&parent, &parent).is_ok());
}

#[test]
fn path_within_rejects_sibling_dir() {
    let parent = PathBuf::from("/home/user/.pvm/versions");
    let sibling = PathBuf::from("/home/user/.pvm/aliases");
    assert!(within(&parent, &sibling).is_err());
}

#[test]
fn path_within_rejects_parent_escape() {
    let parent = PathBuf::from("/home/user/.pvm/versions");
    let escaped = PathBuf::from("/home/user/.pvm");
    assert!(within(&parent, &escaped).is_err());
}

#[test]
fn path_within_rejects_unrelated_path() {
    let parent = PathBuf::from("/home/user/.pvm/versions");
    let unrelated = PathBuf::from("/tmp/evil");
    assert!(within(&parent, &unrelated).is_err());
}

// --- further cases ---

#[test]
fn version_error_names_the_input() {
    assert_eq!(version("3.x.1"), Err(PvmError::InvalidVersion("3.x.1".to_string())));
    assert!(version("1234.1.1").is_err());
    assert!(version("3..1").is_err());
}

#[test]
fn version_digit_class_is_unicode() {
    // The digit class `\d` of the version pattern takes Unicode decimal digits.
    assert!(version("٣.١٢.٤").is_ok());
    assert!(version("３.１.２").is_ok());
}

#[test]
fn path_within_ignores_separators_and_dots() {
    assert!(path_within("/a/b", "/a//b/./c/", false).is_ok());
    assert!(path_within("/a/b/", "/a/b", false).is_ok());
    assert!(path_within("/a/bc", "/a/b", false).is_err());
    assert!(path_within("/a/b", "/a/bc", false).is_err());
    assert!(path_within("a", "/a", false).is_err());
    assert!(path_within("", "anything", false).is_ok());
    assert_eq!(path_within("/x", "/y", false), Err(PvmError::OutsideDirectory));
}

#[test]
fn path_within_matches_std_starts_with_without_parent_components() {
    // A `..` after the parent's components leads out again: refused, where
    // `Path::starts_with` alone would accept it.
    assert!(std::path::Path::new("/home/u/.pvm/versions/../x").starts_with("/home/u/.pvm/versions"));
    assert!(path_within("/home/u/.pvm/versions", "/home/u/.pvm/versions/../x", false).is_err());
    let cases = [
        ("./a", "a/b"),
        ("./a", "./a/b"),
        (".", "./x"),
        ("a/.", "a/b"),
        ("/", "/etc"),
        ("a", "./a"),
    ];
    for (p, c) in cases {
        let expected = std::path::Path::new(c).starts_with(p);
        assert_eq!(path_within(p, c, false).is_ok(), expected, "{} within {}", c, p);
    }
}
