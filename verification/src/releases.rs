//! Where Python releases come from: the NuGet package URL on Windows, the
//! version listing of python.org, and the assets of python-build-standalone
//! releases on Linux.

use vstd::prelude::*;
use crate::error::PvmError;
use crate::text::{chars_of, push_str, str_eq, string_of, starts_with, ends_with, has_at, ends_with_chars};
use crate::validate::{is_regex_digit, dotted_digits, is_dotted_digits};
use crate::versions::{SemVersion, VersionParts, parse_version, semver_parse, parts, sorted_desc, decimal,
    decimal_chars,
    strictly_desc, sort_desc, sort_unique_desc};
use vstd::multiset::Multiset;

verus! {

/// The official NuGet package of Python, one directory per version.
pub open spec fn installer_url_of(version: Seq<char>) -> Seq<char> {
    "https://www.nuget.org/api/v2/package/python/"@ + version + "/"@
}

/// The URL of the official NuGet package of Python (Windows).
pub fn installer_url(version: &str) -> (r: String)
    ensures
        r@ == installer_url_of(version@),
{
    let mut s = String::new();
    push_str(&mut s, "https://www.nuget.org/api/v2/package/python/");
    push_str(&mut s, version);
    push_str(&mut s, "/");
    s
}

// ---------------------------------------------------------------------------
// The release pages of python-build-standalone

/// How many pages of releases `list-remote` reads on Linux.
pub const LISTING_PAGES: u32 = 3;

/// How many pages of releases `install` searches on Linux.
pub const SEARCH_PAGES: u32 = 10;

/// The GitHub API page `page` of python-build-standalone's releases, five
/// releases a page.
pub open spec fn releases_page_url_of(page: nat) -> Seq<char> {
    "https://api.github.com/repos/astral-sh/python-build-standalone/releases?per_page=5&page="@ + decimal(page)
}

/// The address of a page of releases ([`releases_page_url_of`]).
pub fn releases_page_url(page: u32) -> (r: String)
    ensures
        r@ == releases_page_url_of(page as nat),
{
    let mut s = String::new();
    push_str(&mut s, "https://api.github.com/repos/astral-sh/python-build-standalone/releases?per_page=5&page=");
    let digits = decimal_chars(page as u64);
    let d = string_of(&digits);
    push_str(&mut s, d.as_str());
    s
}

/// After page `page` of the releases has been fetched while listing
/// versions (`status_ok`: GitHub answered with success; `n_releases`: the
/// releases on the page): whether the page's releases are kept (a failed or
/// empty page ends the listing), and whether the next page is fetched (up to
/// [`LISTING_PAGES`]).
pub fn listing_step(page: u32, status_ok: bool, n_releases: usize) -> (r: (bool, bool))
    ensures
        r.0 == (status_ok && n_releases > 0),
        r.1 == (status_ok && n_releases > 0 && page < LISTING_PAGES),
{
    let keep = status_ok && n_releases > 0;
    (keep, keep && page < LISTING_PAGES)
}

/// What the search for a tarball does after a page.
pub enum SearchStep {
    /// GitHub answered with an error: the search fails.
    Failed,
    /// No more releases to search: the tarball is not found.
    NotFound,
    /// The tarball's URL.
    Found(String),
    /// Search the next page.
    Next,
}

/// After page `page` of the releases has been searched (`status_ok`: GitHub
/// answered with success; `n_releases`: the releases on the page; `found`:
/// the tarball's URL among them, if any): fail on an error answer, stop at
/// an empty page, give a URL found, else go on up to [`SEARCH_PAGES`].
pub fn search_step(page: u32, status_ok: bool, n_releases: usize, found: Option<String>) -> (r: SearchStep)
    ensures
        !status_ok ==> r is Failed,
        status_ok && n_releases == 0 ==> r is NotFound,
        status_ok && n_releases > 0 ==> match found {
            Some(u) => r matches SearchStep::Found(v) && v@ == u@,
            None => if page < SEARCH_PAGES { r is Next } else { r is NotFound },
        },
{
    if !status_ok {
        return SearchStep::Failed;
    }
    if n_releases == 0 {
        return SearchStep::NotFound;
    }
    match found {
        Some(u) => SearchStep::Found(u),
        None => if page < SEARCH_PAGES {
            SearchStep::Next
        } else {
            SearchStep::NotFound
        },
    }
}

// ---------------------------------------------------------------------------
// The python.org listing

/// The end of the run of digits and dots that starts at `i`.
pub open spec fn run_end(t: Seq<char>, i: int) -> int
    decreases t.len() - i,
{
    if i >= t.len() || !(is_regex_digit(t[i]) || t[i] == '.') {
        i
    } else {
        run_end(t, i + 1)
    }
}

/// The opening of a listing link.
pub open spec fn href_open() -> Seq<char> {
    "href=\""@
}

/// The pattern `href="(\d+\.\d+\.\d+)/"` matches at `p`: the opening, a
/// version of three dot-separated digit runs, then `/"`.
pub open spec fn link_at(t: Seq<char>, p: int) -> bool {
    let e = run_end(t, p + 6);
    &&& 0 <= p
    &&& starts_with(t.skip(p), href_open())
    &&& e + 2 <= t.len()
    &&& t[e] == '/'
    &&& t[e + 1] == '"'
    &&& dotted_digits(t.subrange(p + 6, e), 3, t.len() as nat)
}

/// The version captured by a match at `p`.
pub open spec fn link_capture(t: Seq<char>, p: int) -> Seq<char> {
    t.subrange(p + 6, run_end(t, p + 6))
}

/// The versions captured by every match of the pattern from position `p`
/// on, in order.
pub open spec fn link_captures(t: Seq<char>, p: int) -> Seq<Seq<char>>
    decreases t.len() - p,
{
    if p < 0 || p >= t.len() {
        Seq::empty()
    } else if link_at(t, p) {
        seq![link_capture(t, p)] + link_captures(t, p + 1)
    } else {
        link_captures(t, p + 1)
    }
}

/// The versions that `semver` reads from the texts, in order, the refused
/// ones left out.
pub open spec fn parsed_versions(texts: Seq<Seq<char>>) -> Seq<VersionParts>
    decreases texts.len(),
{
    if texts.len() == 0 {
        Seq::empty()
    } else {
        parsed_versions(texts.drop_last()) + match semver_parse(texts.last()) {
            Some(v) => seq![v],
            None => Seq::empty(),
        }
    }
}

proof fn lemma_run_end(t: Seq<char>, i: int)
    requires
        0 <= i <= t.len(),
    ensures
        i <= run_end(t, i) <= t.len(),
        forall|k: int| i <= k < run_end(t, i) ==> is_regex_digit(#[trigger] t[k]) || t[k] == '.',
        run_end(t, i) < t.len() ==> !(is_regex_digit(t[run_end(t, i)]) || t[run_end(t, i)] == '.'),
    decreases t.len() - i,
{
    if i < t.len() && (is_regex_digit(t[i]) || t[i] == '.') {
        lemma_run_end(t, i + 1);
    }
}

/// Whether a character is a digit or a dot.
fn digit_or_dot(c: char) -> (r: bool)
    ensures
        r == (is_regex_digit(c) || c == '.'),
{
    c == '.' || crate::validate::regex_digit_of(c)
}

/// The version captured by the listing pattern at `p`, if it matches there.
fn link_match(t: &Vec<char>, p: usize) -> (r: Option<Vec<char>>)
    requires
        p < t@.len(),
    ensures
        match r {
            Some(c) => link_at(t@, p as int) && c@ == link_capture(t@, p as int),
            None => !link_at(t@, p as int),
        },
{
    if !has_at(t, p, "href=\"") {
        return None;
    }
    proof {
        reveal_strlit("href=\"");
        assert("href=\""@.len() == 6);
        assert(t@.skip(p as int).len() >= 6);
        assert(p + 6 <= t@.len());
    }
    assert(t@.len() == t.len());
    let start = p + 6;
    let mut e = start;
    while e < t.len() && digit_or_dot(t[e])
        invariant
            start <= e <= t@.len(),
            run_end(t@, start as int) == run_end(t@, e as int),
        decreases t@.len() - e,
    {
        e += 1;
    }
    assert(run_end(t@, e as int) == e as int);
    if t.len() - e < 2 || t[e] != '/' || t[e + 1] != '"' {
        return None;
    }
    let mut cap: Vec<char> = Vec::new();
    let mut k = start;
    while k < e
        invariant
            start <= k <= e,
            e < t@.len(),
            cap@ == t@.subrange(start as int, k as int),
        decreases e - k,
    {
        cap.push(t[k]);
        assert(t@.subrange(start as int, k as int).push(t@[k as int]) =~= t@.subrange(start as int, k + 1));
        k += 1;
    }
    if is_dotted_digits(&cap, 3, t.len()) {
        Some(cap)
    } else {
        None
    }
}

/// The versions listed on python.org's download page (`body` is the page),
/// highest first: every link `href="X.Y.Z/"`, read by `semver`, the refused
/// ones left out.
pub fn versions_from_listing(body: &str) -> (r: Vec<SemVersion>)
    ensures
        sorted_desc(parts(r@)),
        parts(r@).to_multiset() == parsed_versions(link_captures(body@, 0)).to_multiset(),
{
    let t = chars_of(body);
    let n = t.len();
    let mut found: Vec<SemVersion> = Vec::new();
    let mut p: usize = 0;
    let ghost mut caps: Seq<Seq<char>> = Seq::empty();
    while p < n
        invariant
            n == t@.len(),
            t@ == body@,
            p <= n,
            caps + link_captures(t@, p as int) == link_captures(t@, 0),
            parts(found@) == parsed_versions(caps),
        decreases n - p,
    {
        let m = link_match(&t, p);
        proof {
            assert(link_captures(t@, p as int) == (if link_at(t@, p as int) {
                seq![link_capture(t@, p as int)] + link_captures(t@, p + 1)
            } else {
                link_captures(t@, p + 1)
            }));
        }
        match m {
            Some(cap) => {
                let text = string_of(&cap);
                let parsed = parse_version(text.as_str());
                proof {
                    let old_caps = caps;
                    caps = caps.push(cap@);
                    assert(caps.drop_last() =~= old_caps);
                    assert(old_caps + (seq![cap@] + link_captures(t@, p + 1)) =~= caps + link_captures(t@, p + 1));
                }
                match parsed {
                    Some(v) => {
                        found.push(v);
                    },
                    None => {},
                }
                proof {
                    assert(parts(found@) =~= parsed_versions(caps));
                }
            },
            None => {},
        }
        p += 1;
    }
    proof {
        assert(link_captures(t@, n as int) == Seq::<Seq<char>>::empty());
        assert(caps + Seq::<Seq<char>>::empty() =~= caps);
    }
    sort_desc(found)
}


// ---------------------------------------------------------------------------
// python-build-standalone (Linux)

/// The end of the name of the `install_only` tarball for an architecture.
pub open spec fn arch_suffix_of(arch: Seq<char>) -> Seq<char> {
    arch + "-unknown-linux-gnu-install_only.tar.gz"@
}

/// The end of the tarball names for the running architecture: `x86_64` and
/// `aarch64` are supported, any other is refused.
pub fn arch_suffix(arch: &str) -> (r: Result<String, PvmError>)
    ensures
        match r {
            Ok(s) => (arch@ == "x86_64"@ || arch@ == "aarch64"@) && s@ == arch_suffix_of(arch@),
            Err(e) => !(arch@ == "x86_64"@ || arch@ == "aarch64"@)
                && (e matches PvmError::UnsupportedArchitecture(a) && a@ == arch@),
        },
{
    if str_eq(arch, "x86_64") || str_eq(arch, "aarch64") {
        let mut s = String::new();
        push_str(&mut s, arch);
        push_str(&mut s, "-unknown-linux-gnu-install_only.tar.gz");
        Ok(s)
    } else {
        Err(PvmError::UnsupportedArchitecture(arch.to_owned()))
    }
}

/// One downloadable file of a release: its name (empty when the release
/// data has none) and its download URL, when given.
pub struct Asset {
    pub name: String,
    pub url: Option<String>,
}

/// A release of python-build-standalone, with its files.
pub struct Release {
    pub assets: Vec<Asset>,
}

/// The name and URL of an asset.
pub type AssetView = (Seq<char>, Option<Seq<char>>);

impl View for Asset {
    type V = AssetView;

    open spec fn view(&self) -> AssetView {
        (self.name@, match self.url { Some(u) => Some(u@), None => None })
    }
}

/// The assets of the releases, release after release.
pub open spec fn release_assets(rs: Seq<Release>) -> Seq<AssetView>
    decreases rs.len(),
{
    if rs.len() == 0 {
        Seq::empty()
    } else {
        release_assets(rs.drop_last()) + rs.last().assets@.map_values(|a: Asset| a@)
    }
}

/// The position of the first `c` in `s` at or after `i`.
pub open spec fn index_from(s: Seq<char>, c: char, i: int) -> Option<int>
    decreases s.len() - i,
{
    if i < 0 || i >= s.len() {
        None
    } else if s[i] == c {
        Some(i)
    } else {
        index_from(s, c, i + 1)
    }
}

/// The version text in a tarball name `cpython-<version>+<build>...<suffix>`.
pub open spec fn asset_version_text(name: Seq<char>, suffix: Seq<char>) -> Option<Seq<char>> {
    if starts_with(name, "cpython-"@) && ends_with(name, suffix) {
        let rest = name.skip(8);
        match index_from(rest, '+', 0) {
            Some(k) => Some(rest.take(k)),
            None => None,
        }
    } else {
        None
    }
}

/// The version texts of the assets whose names fit, in order.
pub open spec fn asset_version_texts(assets: Seq<AssetView>, suffix: Seq<char>) -> Seq<Seq<char>>
    decreases assets.len(),
{
    if assets.len() == 0 {
        Seq::empty()
    } else {
        asset_version_texts(assets.drop_last(), suffix) + match asset_version_text(assets.last().0, suffix) {
            Some(t) => seq![t],
            None => Seq::empty(),
        }
    }
}

/// The URL of the first asset, in order, whose name starts with `prefix` and
/// ends with `suffix` and which has a URL.
pub open spec fn first_asset_url(assets: Seq<AssetView>, prefix: Seq<char>, suffix: Seq<char>) -> Option<Seq<char>>
    decreases assets.len(),
{
    if assets.len() == 0 {
        None
    } else if starts_with(assets[0].0, prefix) && ends_with(assets[0].0, suffix) && assets[0].1 is Some {
        assets[0].1
    } else {
        first_asset_url(assets.drop_first(), prefix, suffix)
    }
}

/// The version text of a tarball name ([`asset_version_text`]).
fn asset_version_chars(name: &str, suffix: &str) -> (r: Option<Vec<char>>)
    ensures
        match r {
            Some(v) => asset_version_text(name@, suffix@) == Some(v@),
            None => asset_version_text(name@, suffix@) is None,
        },
{
    let t = chars_of(name);
    let sv = chars_of(suffix);
    proof {
        reveal_strlit("cpython-");
        assert(t@.skip(0) =~= t@);
    }
    if !has_at(&t, 0, "cpython-") || !ends_with_chars(&t, &sv) {
        return None;
    }
    proof {
        assert("cpython-"@.len() == 8);
    }
    let ghost rest = t@.skip(8);
    let mut i: usize = 8;
    while i < t.len() && t[i] != '+'
        invariant
            8 <= i <= t@.len(),
            rest == t@.skip(8),
            index_from(rest, '+', 0) == index_from(rest, '+', i - 8),
        decreases t@.len() - i,
    {
        assert(rest[i - 8] == t@[i as int]);
        i += 1;
    }
    if i == t.len() {
        return None;
    }
    assert(rest[i - 8] == t@[i as int]);
    let mut v: Vec<char> = Vec::new();
    let mut k: usize = 8;
    while k < i
        invariant
            8 <= k <= i,
            i < t@.len(),
            v@ == t@.subrange(8, k as int),
        decreases i - k,
    {
        v.push(t[k]);
        assert(t@.subrange(8, k as int).push(t@[k as int]) =~= t@.subrange(8, k + 1));
        k += 1;
    }
    assert(v@ =~= rest.take(i - 8));
    Some(v)
}

/// The Python versions that python-build-standalone offers for the
/// architecture whose tarball names end with `suffix`, in the given
/// releases: each distinct version once, highest first. A tarball is named
/// `cpython-<version>+<build>-<suffix>`; versions that `semver` refuses are
/// left out.
pub fn standalone_versions(releases: &Vec<Release>, suffix: &str) -> (r: Vec<SemVersion>)
    ensures
        strictly_desc(parts(r@)),
        parts(r@).to_set() == parsed_versions(asset_version_texts(release_assets(releases@), suffix@)).to_set(),
{
    let mut found: Vec<SemVersion> = Vec::new();
    let ghost mut seen: Seq<AssetView> = Seq::empty();
    for i in 0..releases.len()
        invariant
            seen == release_assets(releases@.take(i as int)),
            parts(found@) == parsed_versions(asset_version_texts(seen, suffix@)),
    {
        let assets = &releases[i].assets;
        let ghost base = seen;
        for j in 0..assets.len()
            invariant
                i < releases@.len(),
                assets == &releases@[i as int].assets,
                seen == base + assets@.take(j as int).map_values(|a: Asset| a@),
                parts(found@) == parsed_versions(asset_version_texts(seen, suffix@)),
        {
            let a = &assets[j];
            let text = asset_version_chars(a.name.as_str(), suffix);
            let ghost prev = seen;
            proof {
                let old_seen = seen;
                seen = seen.push(a@);
                assert(seen.drop_last() =~= old_seen);
                assert(base + assets@.take(j + 1).map_values(|a: Asset| a@)
                    =~= (base + assets@.take(j as int).map_values(|a: Asset| a@)).push(a@));
            }
            match text {
                Some(tv) => {
                    let ts = string_of(&tv);
                    match parse_version(ts.as_str()) {
                        Some(v) => {
                            found.push(v);
                        },
                        None => {},
                    }
                    proof {
                        assert(seen.drop_last() =~= prev);
                        assert(asset_version_texts(seen, suffix@) == asset_version_texts(prev, suffix@).push(tv@));
                        assert(asset_version_texts(seen, suffix@).drop_last() =~= asset_version_texts(prev, suffix@));
                        assert(parts(found@) =~= parsed_versions(asset_version_texts(seen, suffix@)));
                    }
                },
                None => {
                    proof {
                        assert(asset_version_texts(seen, suffix@) =~= asset_version_texts(seen.drop_last(), suffix@));
                    }
                },
            }
        }
        proof {
            assert(releases@.take(i + 1).drop_last() =~= releases@.take(i as int));
            assert(assets@.take(assets@.len() as int) =~= assets@);
        }
    }
    proof {
        assert(releases@.take(releases@.len() as int) =~= releases@);
    }
    sort_unique_desc(found)
}

/// The tarball name start for a version: `cpython-<version>+`.
pub open spec fn asset_prefix(version: Seq<char>) -> Seq<char> {
    "cpython-"@ + version + "+"@
}

proof fn lemma_release_assets_append(a: Seq<Release>, b: Seq<Release>)
    ensures
        release_assets(a + b) == release_assets(a) + release_assets(b),
    decreases b.len(),
{
    if b.len() == 0 {
        assert(a + b =~= a);
        assert(release_assets(a) + release_assets(b) =~= release_assets(a));
    } else {
        assert((a + b).drop_last() =~= a + b.drop_last());
        lemma_release_assets_append(a, b.drop_last());
        assert(release_assets(a + b) =~= release_assets(a) + release_assets(b));
    }
}

/// What the first matching asset is, stated on the assets themselves: when
/// there is one, it has the prefix and the suffix and a URL, and no asset
/// before it does; when there is none, no asset has all three.
proof fn lemma_first_asset_url(assets: Seq<AssetView>, prefix: Seq<char>, suffix: Seq<char>)
    ensures
        match first_asset_url(assets, prefix, suffix) {
            Some(u) => exists|i: int| 0 <= i < assets.len()
                && starts_with(#[trigger] assets[i].0, prefix) && ends_with(assets[i].0, suffix)
                && assets[i].1 == Some(u)
                && forall|j: int| 0 <= j < i ==> !(starts_with(#[trigger] assets[j].0, prefix)
                    && ends_with(assets[j].0, suffix) && assets[j].1 is Some),
            None => forall|i: int| 0 <= i < assets.len() ==> !(starts_with(#[trigger] assets[i].0, prefix)
                && ends_with(assets[i].0, suffix) && assets[i].1 is Some),
        },
    decreases assets.len(),
{
    if assets.len() > 0 {
        let rest = assets.drop_first();
        lemma_first_asset_url(rest, prefix, suffix);
        if starts_with(assets[0].0, prefix) && ends_with(assets[0].0, suffix) && assets[0].1 is Some {
            assert(starts_with(assets[0].0, prefix));
        } else {
            match first_asset_url(rest, prefix, suffix) {
                Some(u) => {
                    let i = choose|i: int| 0 <= i < rest.len()
                        && starts_with(#[trigger] rest[i].0, prefix) && ends_with(rest[i].0, suffix)
                        && rest[i].1 == Some(u)
                        && forall|j: int| 0 <= j < i ==> !(starts_with(#[trigger] rest[j].0, prefix)
                            && ends_with(rest[j].0, suffix) && rest[j].1 is Some);
                    assert(assets[i + 1] == rest[i]);
                    assert forall|j: int| 0 <= j < i + 1 implies !(starts_with(#[trigger] assets[j].0, prefix)
                        && ends_with(assets[j].0, suffix) && assets[j].1 is Some) by {
                        if j > 0 {
                            assert(assets[j] == rest[j - 1]);
                        }
                    }
                },
                None => {
                    assert forall|i: int| 0 <= i < assets.len() implies !(starts_with(#[trigger] assets[i].0, prefix)
                        && ends_with(assets[i].0, suffix) && assets[i].1 is Some) by {
                        if i > 0 {
                            assert(assets[i] == rest[i - 1]);
                        }
                    }
                },
            }
        }
    }
}

/// The tarball `install` downloads is the requested version's: the URL
/// found is that of an asset, release after release the first one, whose
/// name is `cpython-`, exactly the requested version, `+`, and ends with the
/// architecture's suffix (so the version text between `cpython-` and the
/// `+` is the requested one; `3.12.10` is never taken for `3.12.1`); no URL
/// is found only when no asset with a URL has such a name.
pub proof fn lemma_standalone_url_names_version(releases: Seq<Release>, version: Seq<char>, suffix: Seq<char>)
    ensures
        ({
            let assets = release_assets(releases);
            let pre = "cpython-"@ + version + "+"@;
            match first_asset_url(assets, asset_prefix(version), suffix) {
                Some(u) => exists|i: int| 0 <= i < assets.len()
                    && starts_with(#[trigger] assets[i].0, pre) && ends_with(assets[i].0, suffix)
                    && assets[i].0.subrange(8, 8 + (version.len() as int)) == version
                    && assets[i].0[8 + (version.len() as int)] == '+'
                    && assets[i].1 == Some(u)
                    && forall|j: int| 0 <= j < i ==> !(starts_with(#[trigger] assets[j].0, pre)
                        && ends_with(assets[j].0, suffix) && assets[j].1 is Some),
                None => forall|i: int| 0 <= i < assets.len() ==> !(starts_with(#[trigger] assets[i].0, pre)
                    && ends_with(assets[i].0, suffix) && assets[i].1 is Some),
            }
        }),
{
    reveal_strlit("cpython-");
    reveal_strlit("+");
    let assets = release_assets(releases);
    let pre = "cpython-"@ + version + "+"@;
    assert(asset_prefix(version) == pre);
    lemma_first_asset_url(assets, pre, suffix);
    match first_asset_url(assets, pre, suffix) {
        Some(u) => {
            let i = choose|i: int| 0 <= i < assets.len()
                && starts_with(#[trigger] assets[i].0, pre) && ends_with(assets[i].0, suffix)
                && assets[i].1 == Some(u)
                && forall|j: int| 0 <= j < i ==> !(starts_with(#[trigger] assets[j].0, pre)
                    && ends_with(assets[j].0, suffix) && assets[j].1 is Some);
            let n = assets[i].0;
            assert(n.take(pre.len() as int) == pre);
            assert(pre.len() == 9 + version.len());
            assert(n.subrange(8, 8 + (version.len() as int)) =~= version) by {
                assert forall|k: int| 0 <= k < version.len() implies n.subrange(8, 8 + (version.len() as int))[k] == version[k] by {
                    assert(n[8 + k] == n.take(pre.len() as int)[8 + k]);
                    assert(pre[8 + k] == version[k]);
                }
            }
            assert(n[8 + (version.len() as int)] == n.take(pre.len() as int)[8 + (version.len() as int)]);
            assert(pre[8 + (version.len() as int)] == '+');
        },
        None => {},
    }
}

/// The download URL of the `install_only` tarball of `version` in the given
/// releases: the first asset, release after release, whose name is
/// `cpython-<version>+...<suffix>` and which has a URL.
pub fn standalone_url(releases: &Vec<Release>, version: &str, suffix: &str) -> (r: Option<String>)
    ensures
        match r {
            Some(u) => first_asset_url(release_assets(releases@), asset_prefix(version@), suffix@) == Some(u@),
            None => first_asset_url(release_assets(releases@), asset_prefix(version@), suffix@) is None,
        },
        r matches Some(u) ==> exists|i: int| 0 <= i < release_assets(releases@).len()
            && starts_with(#[trigger] release_assets(releases@)[i].0, "cpython-"@ + version@ + "+"@)
            && ends_with(release_assets(releases@)[i].0, suffix@)
            && release_assets(releases@)[i].1 == Some(u@),
        r is None ==> forall|i: int| 0 <= i < release_assets(releases@).len()
            ==> !(starts_with(#[trigger] release_assets(releases@)[i].0, "cpython-"@ + version@ + "+"@)
            && ends_with(release_assets(releases@)[i].0, suffix@) && release_assets(releases@)[i].1 is Some),
{
    proof {
        lemma_standalone_url_names_version(releases@, version@, suffix@);
    }
    let mut prefix = String::new();
    push_str(&mut prefix, "cpython-");
    push_str(&mut prefix, version);
    push_str(&mut prefix, "+");
    let pv = chars_of(prefix.as_str());
    let sv = chars_of(suffix);
    let ghost all = release_assets(releases@);
    let ghost mut seen: Seq<AssetView> = Seq::empty();
    proof {
        assert(all.skip(0) =~= all);
    }
    for i in 0..releases.len()
        invariant
            seen == release_assets(releases@.take(i as int)),
            all == release_assets(releases@),
            pv@ == asset_prefix(version@),
            prefix@ == pv@,
            sv@ == suffix@,
            seen.len() <= all.len(),
            all.take(seen.len() as int) == seen,
            first_asset_url(all, pv@, sv@) == first_asset_url(all.skip(seen.len() as int), pv@, sv@),
    {
        let assets = &releases[i].assets;
        let ghost base = seen;
        proof {
            lemma_release_assets_append(releases@.take(i + 1), releases@.skip(i + 1));
            assert(releases@.take(i + 1) + releases@.skip(i + 1) =~= releases@);
            assert(releases@.take(i + 1).drop_last() =~= releases@.take(i as int));
        }
        for j in 0..assets.len()
            invariant
                i < releases@.len(),
                assets == &releases@[i as int].assets,
                seen == base + assets@.take(j as int).map_values(|a: Asset| a@),
                base == release_assets(releases@.take(i as int)),
                release_assets(releases@.take(i + 1)) == base + assets@.map_values(|a: Asset| a@),
                all.take(release_assets(releases@.take(i + 1)).len() as int) == release_assets(releases@.take(i + 1)),
                release_assets(releases@.take(i + 1)).len() <= all.len(),
                all == release_assets(releases@),
                pv@ == asset_prefix(version@),
                prefix@ == pv@,
                sv@ == suffix@,
                seen.len() <= all.len(),
                all.take(seen.len() as int) == seen,
                first_asset_url(all, pv@, sv@) == first_asset_url(all.skip(seen.len() as int), pv@, sv@),
        {
            let a = &assets[j];
            let ghost k: int = seen.len() as int;
            proof {
                assert(seen.len() < release_assets(releases@.take(i + 1)).len());
                assert(all[k] == release_assets(releases@.take(i + 1))[k]);
                assert(release_assets(releases@.take(i + 1))[k] == a@);
                assert(all.skip(k)[0] == a@);
                assert(all.skip(k).drop_first() =~= all.skip(k + 1));
            }
            let nv = chars_of(a.name.as_str());
            let fits = has_at(&nv, 0, prefix.as_str()) && ends_with_chars(&nv, &sv);
            proof {
                assert(nv@.skip(0) =~= nv@);
                assert(nv@ == a@.0);
                assert(fits == (starts_with(a@.0, pv@) && ends_with(a@.0, sv@)));
            }
            let ghost rest = all.skip(k);
            assert(rest.len() > 0);
            assert(rest[0] == a@);
            if fits {
                match &a.url {
                    Some(u) => {
                        let r = u.clone();
                        proof {
                            assert(rest[0].1 == Some(u@));
                            assert(first_asset_url(rest, pv@, sv@) == Some(u@));
                        }
                        return Some(r);
                    },
                    None => {},
                }
            }
            proof {
                assert(first_asset_url(rest, pv@, sv@) == first_asset_url(rest.drop_first(), pv@, sv@));
                let old_seen = seen;
                seen = seen.push(a@);
                assert(base + assets@.take(j + 1).map_values(|a: Asset| a@)
                    =~= (base + assets@.take(j as int).map_values(|a: Asset| a@)).push(a@));
                assert(all.take(seen.len() as int) =~= seen);
            }
        }
        proof {
            assert(assets@.take(assets@.len() as int) =~= assets@);
        }
    }
    proof {
        assert(releases@.take(releases@.len() as int) =~= releases@);
        assert(all.skip(all.len() as int) =~= Seq::<AssetView>::empty());
    }
    None
}

} // verus!
