use pvm::precedence::{build_compare, pre_compare};
use pvm::versions::{parse_version, sort_desc, sort_unique_desc, SemVersion};

const TEXTS: &[&str] = &[
    "1.0.0-alpha",
    "1.0.0-alpha.1",
    "1.0.0-alpha.beta",
    "1.0.0-beta",
    "1.0.0-beta.2",
    "1.0.0-beta.11",
    "1.0.0-rc.1",
    "1.0.0",
    "1.0.0+0",
    "1.0.0+00",
    "1.0.0+1",
    "1.0.0+01",
    "1.0.0+2",
    "1.0.0+10",
    "1.0.0+a",
    "1.0.0+a.b",
    "1.0.0-1",
    "1.0.0-2",
    "1.0.0-10",
    "1.0.0-a-b",
    "1.0.0-A",
    "3.12.4",
    "3.12.10",
    "3.9.0",
    "10.0.0",
];

fn ver(t: &str) -> SemVersion {
    parse_version(t).expect("valid version")
}

#[test]
fn less_than_matches_semver_on_every_pair() {
    for a in TEXTS {
        for b in TEXTS {
            let ours = ver(a).less_than(&ver(b));
            let theirs = semver::Version::parse(a).unwrap() < semver::Version::parse(b).unwrap();
            assert_eq!(ours, theirs, "{} < {}", a, b);
        }
    }
}

#[test]
fn part_comparisons_match_semver() {
    for a in TEXTS {
        for b in TEXTS {
            let va = semver::Version::parse(a).unwrap();
            let vb = semver::Version::parse(b).unwrap();
            let pre = match va.pre.cmp(&vb.pre) {
                std::cmp::Ordering::Less => -1,
                std::cmp::Ordering::Equal => 0,
                std::cmp::Ordering::Greater => 1,
            };
            assert_eq!(pre_compare(va.pre.as_str(), vb.pre.as_str()), pre, "{} / {}", a, b);
            let build = match va.build.cmp(&vb.build) {
                std::cmp::Ordering::Less => -1,
                std::cmp::Ordering::Equal => 0,
                std::cmp::Ordering::Greater => 1,
            };
            assert_eq!(build_compare(va.build.as_str(), vb.build.as_str()), build, "{} / {}", a, b);
        }
    }
}

#[test]
fn sorting_matches_semver() {
    let ours: Vec<String> = sort_desc(TEXTS.iter().map(|t| ver(t)).collect()).iter().map(|v| v.to_string()).collect();
    let mut theirs: Vec<semver::Version> = TEXTS.iter().map(|t| semver::Version::parse(t).unwrap()).collect();
    theirs.sort_by(|a, b| b.cmp(a));
    let theirs: Vec<String> = theirs.iter().map(|v| v.to_string()).collect();
    assert_eq!(ours, theirs);
}

#[test]
fn pre_release_precedence_of_the_semver_specification() {
    // 1.0.0-alpha < 1.0.0-alpha.1 < 1.0.0-alpha.beta < 1.0.0-beta < 1.0.0-beta.2
    // < 1.0.0-beta.11 < 1.0.0-rc.1 < 1.0.0
    let chain = ["1.0.0-alpha", "1.0.0-alpha.1", "1.0.0-alpha.beta", "1.0.0-beta", "1.0.0-beta.2",
        "1.0.0-beta.11", "1.0.0-rc.1", "1.0.0"];
    for w in chain.windows(2) {
        assert!(ver(w[0]).less_than(&ver(w[1])), "{} < {}", w[0], w[1]);
        assert!(!ver(w[1]).less_than(&ver(w[0])), "{} > {}", w[1], w[0]);
    }
    assert_eq!(pre_compare("", ""), 0);
    assert_eq!(pre_compare("", "rc.1"), 1);
    assert_eq!(pre_compare("2", "10"), -1);
    assert_eq!(pre_compare("10", "a"), -1);
    assert_eq!(build_compare("0", "00"), -1);
    assert_eq!(build_compare("01", "2"), -1);
}

#[test]
fn unique_sort_drops_repeats() {
    let vs = vec![ver("3.9.1"), ver("3.12.0"), ver("3.9.1"), ver("3.12.0-rc1"), ver("3.12.0")];
    let r: Vec<String> = sort_unique_desc(vs).iter().map(|v| v.to_string()).collect();
    assert_eq!(r, vec!["3.12.0", "3.12.0-rc1", "3.9.1"]);
}
