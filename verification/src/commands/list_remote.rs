//! `pvm list-remote`: the available versions, grouped by `MAJOR.MINOR`.

use vstd::prelude::*;
use crate::text::{starts_with, str_starts_with, str_eq, texts_of, texts_contain};
use crate::versions::{SemVersion, VersionParts, version_text, parts, decimal};

verus! {

/// The oldest minor version of Python 3 that is listed.
pub open spec fn min_minor() -> u64 {
    8
}

/// A version is listed: a release, Python 3.8 or later, and, when a filter
/// is given, its text starts with the filter.
pub open spec fn shown(v: VersionParts, filter: Option<Seq<char>>) -> bool {
    &&& v.3.len() == 0
    &&& (v.0 > 3 || (v.0 == 3 && v.1 >= min_minor()))
    &&& match filter {
        Some(f) => starts_with(version_text(v), f),
        None => true,
    }
}

/// The listed versions, in the given order.
pub open spec fn shown_versions(vs: Seq<VersionParts>, filter: Option<Seq<char>>) -> Seq<VersionParts>
    decreases vs.len(),
{
    if vs.len() == 0 {
        Seq::empty()
    } else if shown(vs.last(), filter) {
        shown_versions(vs.drop_last(), filter).push(vs.last())
    } else {
        shown_versions(vs.drop_last(), filter)
    }
}

/// The versions of one `MAJOR.MINOR`, in the given order.
pub open spec fn with_key(vs: Seq<VersionParts>, key: (u64, u64)) -> Seq<VersionParts>
    decreases vs.len(),
{
    if vs.len() == 0 {
        Seq::empty()
    } else if (vs.last().0, vs.last().1) == key {
        with_key(vs.drop_last(), key).push(vs.last())
    } else {
        with_key(vs.drop_last(), key)
    }
}

/// Order of `MAJOR.MINOR` pairs.
pub open spec fn key_lt(a: (u64, u64), b: (u64, u64)) -> bool {
    a.0 < b.0 || (a.0 == b.0 && a.1 < b.1)
}

/// One version in the listing, with its marks.
pub struct VersionLine {
    /// The version's text.
    pub text: String,
    /// It is installed.
    pub installed: bool,
    /// It is the active version.
    pub active: bool,
    /// It is the first of its group (the latest, for a list sorted highest first).
    pub latest: bool,
}

/// The versions of one `MAJOR.MINOR`.
pub struct VersionGroup {
    pub major: u64,
    pub minor: u64,
    pub lines: Vec<VersionLine>,
}

/// What `list-remote` shows.
pub struct VersionListing {
    /// How many versions are listed.
    pub count: usize,
    /// The groups, highest `MAJOR.MINOR` first.
    pub groups: Vec<VersionGroup>,
}

/// A line shows `v` with its marks: installed when its text is among the
/// installed versions, active when it is the active one, latest when it is
/// first in its group.
pub open spec fn line_fits(
    line: VersionLine,
    v: VersionParts,
    first: bool,
    installed: Seq<Seq<char>>,
    active: Option<Seq<char>>,
) -> bool {
    &&& line.text@ == version_text(v)
    &&& line.installed == installed.contains(version_text(v))
    &&& line.active == (active == Some(version_text(v)))
    &&& line.latest == first
}

/// The listing of `vs` (see the contract of [`version_groups`]).
pub open spec fn listing_fits(
    l: VersionListing,
    vs: Seq<VersionParts>,
    filter: Option<Seq<char>>,
    installed: Seq<Seq<char>>,
    active: Option<Seq<char>>,
) -> bool {
    let shown = shown_versions(vs, filter);
    let g = l.groups@;
    &&& l.count == shown.len()
    // the groups are keyed highest first, one per `MAJOR.MINOR` present
    &&& forall|i: int, j: int| 0 <= i < j < g.len() ==>
        key_lt((#[trigger] g[j].major, g[j].minor), (#[trigger] g[i].major, g[i].minor))
    &&& forall|k: int| 0 <= k < shown.len() ==> has_group(g, key_of(#[trigger] shown[k]))
    // each group holds the versions of its key, in the given order
    &&& forall|i: int| 0 <= i < g.len() ==>
        group_fits(#[trigger] g[i], with_key(shown, (g[i].major, g[i].minor)), installed, active)
}

/// Some group has the key.
pub open spec fn has_group(g: Seq<VersionGroup>, key: (u64, u64)) -> bool {
    exists|i: int| 0 <= i < g.len() && (#[trigger] g[i].major, g[i].minor) == key
}

/// A group holds `members` (none missing), each with its marks.
pub open spec fn group_fits(
    g: VersionGroup,
    members: Seq<VersionParts>,
    installed: Seq<Seq<char>>,
    active: Option<Seq<char>>,
) -> bool {
    &&& members.len() > 0
    &&& g.lines@.len() == members.len()
    &&& forall|j: int| 0 <= j < members.len() ==>
        line_fits(#[trigger] g.lines@[j], members[j], j == 0, installed, active)
}

// The proofs below relate the filters to the scans that compute them.

proof fn lemma_with_key_member(vs: Seq<VersionParts>, key: (u64, u64), k: int)
    requires
        0 <= k < vs.len(),
        (vs[k].0, vs[k].1) == key,
    ensures
        with_key(vs, key).len() > 0,
    decreases vs.len(),
{
    if k < vs.len() - 1 {
        lemma_with_key_member(vs.drop_last(), key, k);
    }
}

/// Whether the version is listed ([`shown`]).
fn is_shown(v: &SemVersion, filter: Option<&str>) -> (r: bool)
    ensures
        r == shown(v@, match filter { Some(f) => Some(f@), None => None }),
{
    if !v.is_release() {
        return false;
    }
    if !(v.major > 3 || (v.major == 3 && v.minor >= 8)) {
        return false;
    }
    match filter {
        Some(f) => {
            let t = v.to_string();
            str_starts_with(t.as_str(), f)
        },
        None => true,
    }
}

/// Groups the versions for `list-remote`: the releases of Python 3.8 and
/// later whose text starts with `filter` (when one is given), grouped by
/// `MAJOR.MINOR` with the highest group first, each group in the given
/// order, each version marked as installed, active, and (the first of its
/// group) latest.
pub fn version_groups(
    versions: &Vec<SemVersion>,
    filter: Option<&str>,
    installed: &Vec<String>,
    active: Option<&str>,
) -> (r: VersionListing)
    ensures
        listing_fits(
            r,
            parts(versions@),
            match filter { Some(f) => Some(f@), None => None },
            texts_of(installed@),
            match active { Some(a) => Some(a@), None => None },
        ),
{
    let ghost fv = match filter { Some(f) => Some(f@), None => None };
    let ghost av = match active { Some(a) => Some(a@), None => None };
    let ghost all = parts(versions@);
    // The listed versions, by index.
    let mut shown_idx: Vec<usize> = Vec::new();
    let ghost mut sh: Seq<VersionParts> = Seq::empty();
    for i in 0..versions.len()
        invariant
            fv == (match filter { Some(f) => Some(f@), None => None }),
            av == (match active { Some(a) => Some(a@), None => None }),
            all == parts(versions@),
            sh == shown_versions(all.take(i as int), fv),
            sh.len() == shown_idx@.len(),
            forall|k: int| 0 <= k < shown_idx@.len() ==> #[trigger] shown_idx@[k] < versions@.len()
                && versions@[shown_idx@[k] as int]@ == sh[k],
    {
        proof {
            assert(all.take(i + 1).drop_last() =~= all.take(i as int));
            assert(all.take(i + 1).last() == versions@[i as int]@);
        }
        if is_shown(&versions[i], filter) {
            shown_idx.push(i);
            proof {
                sh = sh.push(versions@[i as int]@);
            }
        }
    }
    proof {
        assert(all.take(versions@.len() as int) =~= all);
    }
    let count = shown_idx.len();
    let mut groups: Vec<VersionGroup> = Vec::new();
    let mut prev: Option<(u64, u64)> = None;
    loop
        invariant
            fv == (match filter { Some(f) => Some(f@), None => None }),
            av == (match active { Some(a) => Some(a@), None => None }),
            all == parts(versions@),
            sh == shown_versions(all, fv),
            sh.len() == shown_idx@.len(),
            count == shown_idx@.len(),
            forall|k: int| 0 <= k < shown_idx@.len() ==> #[trigger] shown_idx@[k] < versions@.len()
                && versions@[shown_idx@[k] as int]@ == sh[k],
            prev is None <==> groups@.len() == 0,
            prev matches Some(p) ==> p == (groups@.last().major, groups@.last().minor),
            forall|i: int, j: int| 0 <= i < j < groups@.len() ==>
                key_lt((#[trigger] groups@[j].major, groups@[j].minor), (#[trigger] groups@[i].major, groups@[i].minor)),
            forall|k: int| 0 <= k < sh.len() && !below(key_of(#[trigger] sh[k]), prev) ==>
                has_group(groups@, key_of(sh[k])),
            forall|i: int| 0 <= i < groups@.len() ==>
                group_fits(#[trigger] groups@[i], with_key(sh, (groups@[i].major, groups@[i].minor)), texts_of(installed@), av),
        ensures
            fv == (match filter { Some(f) => Some(f@), None => None }),
            av == (match active { Some(a) => Some(a@), None => None }),
            all == parts(versions@),
            sh == shown_versions(all, fv),
            count == sh.len(),
            forall|i: int, j: int| 0 <= i < j < groups@.len() ==>
                key_lt((#[trigger] groups@[j].major, groups@[j].minor), (#[trigger] groups@[i].major, groups@[i].minor)),
            forall|k: int| 0 <= k < sh.len() ==> has_group(groups@, key_of(#[trigger] sh[k])),
            forall|i: int| 0 <= i < groups@.len() ==>
                group_fits(#[trigger] groups@[i], with_key(sh, (groups@[i].major, groups@[i].minor)), texts_of(installed@), av),
        decreases key_measure(prev),
    {
        // The highest key below `prev`.
        let mut best: Option<(u64, u64)> = None;
        let ghost mut best_at: int = 0;
        for k in 0..count
            invariant
                av == (match active { Some(a) => Some(a@), None => None }),
                sh.len() == shown_idx@.len(),
                count == shown_idx@.len(),
                forall|k: int| 0 <= k < shown_idx@.len() ==> #[trigger] shown_idx@[k] < versions@.len()
                    && versions@[shown_idx@[k] as int]@ == sh[k],
                best matches Some(b) ==> 0 <= best_at < k && key_of(sh[best_at]) == b && below(b, prev),
                forall|j: int| 0 <= j < k && below(key_of(#[trigger] sh[j]), prev) ==>
                    (best matches Some(b) && !key_lt(b, key_of(sh[j]))),
        {
            let v = &versions[shown_idx[k]];
            let c = (v.major, v.minor);
            proof {
                assert(key_of(sh[k as int]) == c);
            }
            let is_below = match prev {
                None => true,
                Some(p) => c.0 < p.0 || (c.0 == p.0 && c.1 < p.1),
            };
            if is_below {
                let better = match best {
                    None => true,
                    Some(b) => b.0 < c.0 || (b.0 == c.0 && b.1 < c.1),
                };
                if better {
                    best = Some(c);
                    proof {
                        best_at = k as int;
                    }
                }
            }
        }
        let key = match best {
            None => {
                proof {
                    assert forall|k: int| 0 <= k < sh.len() implies has_group(groups@, key_of(#[trigger] sh[k])) by {
                        assert(!below(key_of(sh[k]), prev));
                    }
                }
                break;
            },
            Some(b) => b,
        };
        // The versions of `key`, in order.
        let mut lines: Vec<VersionLine> = Vec::new();
        let ghost mut seen: Seq<VersionParts> = Seq::empty();
        for k in 0..count
            invariant
                av == (match active { Some(a) => Some(a@), None => None }),
                sh.len() == shown_idx@.len(),
                count == shown_idx@.len(),
                forall|k: int| 0 <= k < shown_idx@.len() ==> #[trigger] shown_idx@[k] < versions@.len()
                    && versions@[shown_idx@[k] as int]@ == sh[k],
                seen == with_key(sh.take(k as int), key),
                lines@.len() == seen.len(),
                forall|j: int| 0 <= j < seen.len() ==>
                    line_fits(#[trigger] lines@[j], seen[j], j == 0, texts_of(installed@), av),
        {
            let v = &versions[shown_idx[k]];
            proof {
                assert(sh.take(k + 1).drop_last() =~= sh.take(k as int));
                assert(sh.take(k + 1).last() == v@);
            }
            if v.major == key.0 && v.minor == key.1 {
                let text = v.to_string();
                let is_installed = texts_contain(installed, text.as_str());
                let is_active = match active {
                    Some(a) => str_eq(a, text.as_str()),
                    None => false,
                };
                let first = lines.len() == 0;
                lines.push(VersionLine { text, installed: is_installed, active: is_active, latest: first });
                proof {
                    seen = seen.push(v@);
                }
            }
        }
        proof {
            assert(sh.take(count as int) =~= sh);
            lemma_with_key_member(sh, key, best_at);
            lemma_key_measure(key, prev);
        }
        let ghost old_groups = groups@;
        groups.push(VersionGroup { major: key.0, minor: key.1, lines });
        let ghost old_prev = prev;
        prev = Some(key);
        proof {
            assert forall|i: int, j: int| 0 <= i < j < groups@.len() implies
                key_lt((#[trigger] groups@[j].major, groups@[j].minor), (#[trigger] groups@[i].major, groups@[i].minor)) by {
                if j == groups@.len() - 1 {
                    if i < j - 1 {
                        assert(key_lt(
                            (old_groups.last().major, old_groups.last().minor),
                            (old_groups[i].major, old_groups[i].minor)));
                    }
                } else {
                    assert(groups@[i] == old_groups[i]);
                    assert(groups@[j] == old_groups[j]);
                }
            }
            assert forall|k: int| 0 <= k < sh.len() && !below(key_of(#[trigger] sh[k]), prev) implies
                has_group(groups@, key_of(sh[k])) by {
                if !below(key_of(sh[k]), old_prev) {
                    let i = choose|i: int| 0 <= i < old_groups.len() && (#[trigger] old_groups[i].major, old_groups[i].minor) == key_of(sh[k]);
                    assert(groups@[i] == old_groups[i]);
                } else {
                    assert(key_of(sh[k]) == key);
                    let last = groups@.len() - 1;
                    assert((groups@[last].major, groups@[last].minor) == key);
                }
            }
            assert forall|i: int| 0 <= i < groups@.len() implies
                group_fits(#[trigger] groups@[i], with_key(sh, (groups@[i].major, groups@[i].minor)), texts_of(installed@), av) by {
                if i < old_groups.len() {
                    assert(groups@[i] == old_groups[i]);
                }
            }
        }
    }
    let r = VersionListing { count, groups };
    proof {
        let g = r.groups@;
        assert(listing_fits(r, all, fv, texts_of(installed@), av));
    }
    r
}

/// The `MAJOR.MINOR` of a version.
pub open spec fn key_of(v: VersionParts) -> (u64, u64) {
    (v.0, v.1)
}

/// The key lies below `prev` (every key does when there is none).
pub open spec fn below(c: (u64, u64), prev: Option<(u64, u64)>) -> bool {
    match prev {
        None => true,
        Some(p) => key_lt(c, p),
    }
}

pub open spec fn key_measure(prev: Option<(u64, u64)>) -> int {
    match prev {
        None => 0x1_0000_0000_0000_0000_0000_0000_0000_0000int,
        Some(p) => p.0 * 0x1_0000_0000_0000_0000int + p.1,
    }
}

proof fn lemma_key_measure(c: (u64, u64), prev: Option<(u64, u64)>)
    requires
        below(c, prev),
    ensures
        0 <= key_measure(Some(c)) < key_measure(prev),
{
    let m = 0x1_0000_0000_0000_0000int;
    assert(0 <= c.0 * m) by (nonlinear_arith)
        requires
            0 <= c.0,
            m > 0,
    ;
    match prev {
        None => {
            assert(c.0 * m + c.1 < 0x1_0000_0000_0000_0000_0000_0000_0000_0000int) by (nonlinear_arith)
                requires
                    c.0 < m,
                    c.1 < m,
                    m == 0x1_0000_0000_0000_0000int,
            ;
        },
        Some(p) => {
            if c.0 < p.0 {
                assert(c.0 * m + c.1 < p.0 * m + p.1) by (nonlinear_arith)
                    requires
                        c.0 < p.0,
                        c.1 < m,
                        0 <= p.1,
                        m > 0,
                ;
            }
        },
    }
}

/// Whether the listing stops before the group at `index` to wait for a key:
/// on a terminal with no filter, before every group from the fourth on.
pub fn waits_before(index: usize, interactive: bool) -> (r: bool)
    ensures
        r == (interactive && index >= 3),
{
    interactive && index >= 3
}

/// A release's whole text `MAJOR.MINOR.PATCH`.
proof fn lemma_release_text(v: VersionParts)
    requires
        v.3.len() == 0,
        v.4.len() == 0,
    ensures
        version_text(v) == decimal(v.0 as nat) + seq!['.'] + decimal(v.1 as nat) + seq!['.'] + decimal(v.2 as nat),
{
    assert(version_text(v) =~= decimal(v.0 as nat) + seq!['.'] + decimal(v.1 as nat) + seq!['.']
        + decimal(v.2 as nat));
}

/// The filter of `list-remote` is a prefix of the whole version: a release
/// of Python 3.8 or later is listed exactly when its text
/// `MAJOR.MINOR.PATCH` starts with the filter (so `--filter 3.12.4` lists
/// 3.12.4, and `--filter 3.12` lists every 3.12.x).
pub proof fn lemma_filter_on_whole_version(v: VersionParts, f: Seq<char>)
    requires
        v.3.len() == 0,
        v.4.len() == 0,
        v.0 > 3 || (v.0 == 3 && v.1 >= 8),
    ensures
        shown(v, Some(f)) == starts_with(
            decimal(v.0 as nat) + seq!['.'] + decimal(v.1 as nat) + seq!['.'] + decimal(v.2 as nat),
            f,
        ),
{
    lemma_release_text(v);
}

/// A shown version is among the listed ones.
proof fn lemma_shown_listed(vs: Seq<VersionParts>, filter: Option<Seq<char>>, v: VersionParts)
    requires
        vs.contains(v),
        shown(v, filter),
    ensures
        shown_versions(vs, filter).contains(v),
    decreases vs.len(),
{
    if vs.last() == v {
        assert(shown_versions(vs, filter).last() == v);
    } else {
        let k = choose|k: int| 0 <= k < vs.len() && vs[k] == v;
        assert(vs.drop_last()[k] == v);
        lemma_shown_listed(vs.drop_last(), filter, v);
        let w = choose|j: int| 0 <= j < shown_versions(vs.drop_last(), filter).len()
            && shown_versions(vs.drop_last(), filter)[j] == v;
        if shown(vs.last(), filter) {
            assert(shown_versions(vs, filter)[w] == v);
        }
    }
}

/// With a filter that is a release's whole text, that release is listed:
/// the listing counts at least one version and has the group of its
/// `MAJOR.MINOR`.
pub proof fn lemma_whole_version_filter_lists_it(
    l: VersionListing,
    vs: Seq<VersionParts>,
    v: VersionParts,
    installed: Seq<Seq<char>>,
    active: Option<Seq<char>>,
)
    requires
        vs.contains(v),
        v.3.len() == 0,
        v.4.len() == 0,
        v.0 > 3 || (v.0 == 3 && v.1 >= 8),
        listing_fits(l, vs, Some(decimal(v.0 as nat) + seq!['.'] + decimal(v.1 as nat) + seq!['.'] + decimal(v.2 as nat)), installed, active),
    ensures
        l.count >= 1,
        has_group(l.groups@, (v.0, v.1)),
{
    let f = decimal(v.0 as nat) + seq!['.'] + decimal(v.1 as nat) + seq!['.'] + decimal(v.2 as nat);
    lemma_filter_on_whole_version(v, f);
    assert(f.take(f.len() as int) =~= f);
    assert(shown(v, Some(f)));
    lemma_shown_listed(vs, Some(f), v);
    let sh = shown_versions(vs, Some(f));
    let k = choose|k: int| 0 <= k < sh.len() && sh[k] == v;
    assert(has_group(l.groups@, key_of(sh[k])));
}

} // verus!
