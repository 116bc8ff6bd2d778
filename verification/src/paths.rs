//! A model of file-system paths as text, following the component rules of
//! `std::path` on the platform at hand (`windows`): a separator (`/`, and
//! also `\` on Windows) separates components, repeated separators and `.`
//! inside a path are ignored, a leading separator is the root and a leading
//! `.` is the current directory. Windows drive and verbatim prefixes are read
//! as ordinary names.

use vstd::prelude::*;
use crate::text::{chars_of, chars_eq, string_of};

verus! {

/// A character that separates components on the platform.
pub open spec fn is_sep(c: char, windows: bool) -> bool {
    c == '/' || (windows && c == '\\')
}

/// The separator that joining puts between two paths.
pub open spec fn sep_char(windows: bool) -> char {
    if windows {
        '\\'
    } else {
        '/'
    }
}

/// The parent-directory component `..`.
pub open spec fn parent_dir() -> Seq<char> {
    seq!['.', '.']
}

/// The state of a left-to-right scan: the finished components, and the
/// characters of the component being read.
pub type ScanState = (Seq<Seq<char>>, Seq<char>);

/// Adds a finished piece to the list, unless it is empty or `.`.
pub open spec fn close_piece(done: Seq<Seq<char>>, piece: Seq<char>) -> Seq<Seq<char>> {
    if piece.len() == 0 || piece == seq!['.'] {
        done
    } else {
        done.push(piece)
    }
}

/// One step of the scan.
pub open spec fn scan_step(st: ScanState, c: char, windows: bool) -> ScanState {
    if is_sep(c, windows) {
        (close_piece(st.0, st.1), Seq::empty())
    } else {
        (st.0, st.1.push(c))
    }
}

/// The scan of `s`, started in state `st`.
pub open spec fn scan_from(st: ScanState, s: Seq<char>, windows: bool) -> ScanState
    decreases s.len(),
{
    if s.len() == 0 {
        st
    } else {
        scan_step(scan_from(st, s.drop_last(), windows), s.last(), windows)
    }
}

/// The pieces between separators, without empty ones and without `.`.
pub open spec fn pieces(s: Seq<char>, windows: bool) -> Seq<Seq<char>> {
    let st = scan_from((Seq::empty(), Seq::empty()), s, windows);
    close_piece(st.0, st.1)
}

/// The path starts at the root.
pub open spec fn has_root(s: Seq<char>, windows: bool) -> bool {
    s.len() > 0 && is_sep(s[0], windows)
}

/// The path starts with the current directory `.`.
pub open spec fn has_cur_dir(s: Seq<char>, windows: bool) -> bool {
    s.len() > 0 && s[0] == '.' && (s.len() == 1 || is_sep(s[1], windows))
}

/// The components of a path: `/` for the root, `.` for a leading current
/// directory, then each named piece (`..` included, as it stands).
pub open spec fn components(s: Seq<char>, windows: bool) -> Seq<Seq<char>> {
    if has_root(s, windows) {
        seq![seq!['/']] + pieces(s, windows)
    } else if has_cur_dir(s, windows) {
        seq![seq!['.']] + pieces(s, windows)
    } else {
        pieces(s, windows)
    }
}

/// The path `base` with `name` appended: `name` itself when it starts at
/// the root, else the two joined by one separator (none is added after an
/// empty base or a base that already ends with one).
pub open spec fn join_path(base: Seq<char>, name: Seq<char>, windows: bool) -> Seq<char> {
    if has_root(name, windows) {
        name
    } else if base.len() == 0 || is_sep(base.last(), windows) {
        base + name
    } else {
        base + seq![sep_char(windows)] + name
    }
}

/// No piece of the path is `..`.
pub open spec fn no_parent_piece(ps: Seq<Seq<char>>) -> bool {
    forall|k: int| 0 <= k < ps.len() ==> #[trigger] ps[k] != parent_dir()
}

/// `child` lies within `parent`: the components of `parent` begin those of
/// `child`, and none of the components after them is `..` (which would lead
/// back out).
pub open spec fn within(parent: Seq<char>, child: Seq<char>, windows: bool) -> bool {
    let p = components(parent, windows);
    let c = components(child, windows);
    &&& p.is_prefix_of(c)
    &&& no_parent_piece(c.skip(p.len() as int))
}

/// The last component of a path, when it is a name (not the root, `.` or `..`).
pub open spec fn file_name_of(s: Seq<char>, windows: bool) -> Option<Seq<char>> {
    let c = components(s, windows);
    if c.len() == 0 || c.last() == seq!['/'] || c.last() == seq!['.'] || c.last() == parent_dir() {
        None
    } else {
        Some(c.last())
    }
}

// ---------------------------------------------------------------------------
// Lemmas on the scan

pub proof fn lemma_scan_append(st: ScanState, a: Seq<char>, b: Seq<char>, windows: bool)
    ensures
        scan_from(st, a + b, windows) == scan_from(scan_from(st, a, windows), b, windows),
    decreases b.len(),
{
    if b.len() == 0 {
        assert(a + b =~= a);
    } else {
        assert((a + b).drop_last() =~= a + b.drop_last());
        assert((a + b).last() == b.last());
        lemma_scan_append(st, a, b.drop_last(), windows);
    }
}

/// A scan started after some finished pieces keeps them in front.
pub proof fn lemma_scan_shift(d: Seq<Seq<char>>, s: Seq<char>, windows: bool)
    ensures
        ({
            let e: ScanState = (Seq::empty(), Seq::empty());
            let st = scan_from(e, s, windows);
            scan_from((d, Seq::empty()), s, windows) == (d + st.0, st.1)
        }),
    decreases s.len(),
{
    let e: ScanState = (Seq::empty(), Seq::empty());
    if s.len() == 0 {
        assert(d + Seq::<Seq<char>>::empty() =~= d);
    } else {
        lemma_scan_shift(d, s.drop_last(), windows);
        let st = scan_from(e, s.drop_last(), windows);
        assert(close_piece(d + st.0, st.1) =~= d + close_piece(st.0, st.1));
    }
}

/// The pieces of `x`, a separator, then `y` are those of `x` followed by
/// those of `y`.
pub proof fn lemma_pieces_concat(x: Seq<char>, c: char, y: Seq<char>, windows: bool)
    requires
        is_sep(c, windows),
    ensures
        pieces(x + seq![c] + y, windows) == pieces(x, windows) + pieces(y, windows),
{
    let e: ScanState = (Seq::empty(), Seq::empty());
    lemma_scan_append(e, x + seq![c], y, windows);
    let xc = x + seq![c];
    assert(xc.drop_last() =~= x);
    assert(xc.last() == c);
    let st1 = scan_from(e, xc, windows);
    assert(st1 == (pieces(x, windows), Seq::<char>::empty()));
    lemma_scan_shift(pieces(x, windows), y, windows);
    let sy = scan_from(e, y, windows);
    assert(close_piece(pieces(x, windows) + sy.0, sy.1) =~= pieces(x, windows) + close_piece(sy.0, sy.1));
}

/// Text without separators is one piece (none when it is empty or `.`).
pub proof fn lemma_pieces_no_sep(s: Seq<char>, windows: bool)
    requires
        forall|i: int| 0 <= i < s.len() ==> !is_sep(#[trigger] s[i], windows),
    ensures
        scan_from((Seq::empty(), Seq::empty()), s, windows) == (Seq::<Seq<char>>::empty(), s),
        pieces(s, windows) == close_piece(Seq::empty(), s),
    decreases s.len(),
{
    if s.len() == 0 {
    } else {
        lemma_pieces_no_sep(s.drop_last(), windows);
        assert(s.drop_last().push(s.last()) =~= s);
    }
}

/// The components of a path that does not start at the root and whose
/// pieces hold no `..` hold none either.
proof fn lemma_components_no_parent(name: Seq<char>, windows: bool)
    requires
        !has_root(name, windows),
        no_parent_piece(pieces(name, windows)),
    ensures
        no_parent_piece(components(name, windows)),
{
    let pn = pieces(name, windows);
    let cn = components(name, windows);
    assert forall|k: int| 0 <= k < cn.len() implies #[trigger] cn[k] != parent_dir() by {
        if has_cur_dir(name, windows) {
            if k > 0 {
                assert(cn[k] == pn[k - 1]);
            } else {
                assert(cn[0] == seq!['.']);
                assert(seq!['.'].len() != parent_dir().len());
            }
        } else {
            assert(cn[k] == pn[k]);
        }
    }
}

/// Joining a name that does not start at the root to a non-empty `base`
/// puts the name's pieces after those of `base`.
proof fn lemma_join_pieces(base: Seq<char>, name: Seq<char>, windows: bool)
    requires
        !has_root(name, windows),
        base.len() > 0,
    ensures
        pieces(join_path(base, name, windows), windows) == pieces(base, windows) + pieces(name, windows),
{
    let j = join_path(base, name, windows);
    if is_sep(base.last(), windows) {
        let c = base.last();
        let b0 = base.drop_last();
        assert(base =~= b0 + seq![c] + Seq::<char>::empty());
        assert(j =~= b0 + seq![c] + name);
        lemma_pieces_concat(b0, c, Seq::empty(), windows);
        lemma_pieces_concat(b0, c, name, windows);
        let e: ScanState = (Seq::empty(), Seq::empty());
        assert(pieces(Seq::<char>::empty(), windows) =~= Seq::<Seq<char>>::empty());
        assert(pieces(base, windows) =~= pieces(b0, windows));
    } else {
        assert(j == base + seq![sep_char(windows)] + name);
        lemma_pieces_concat(base, sep_char(windows), name, windows);
    }
}

/// Joining to a non-empty `base` keeps its leading root or current directory.
proof fn lemma_join_head(base: Seq<char>, name: Seq<char>, windows: bool)
    requires
        !has_root(name, windows),
        base.len() > 0,
    ensures
        has_root(join_path(base, name, windows), windows) == has_root(base, windows),
        has_cur_dir(join_path(base, name, windows), windows) == has_cur_dir(base, windows),
{
    let j = join_path(base, name, windows);
    assert(j.len() >= base.len());
    assert(j[0] == base[0]);
    if base.len() == 1 {
        if base[0] == '.' {
            assert(is_sep(j[1], windows));
        }
    } else {
        assert(j[1] == base[1]);
    }
}

/// A name that does not start at the root and holds no `..`, joined to
/// `base`, lies within `base`.
pub proof fn lemma_join_within(base: Seq<char>, name: Seq<char>, windows: bool)
    requires
        !has_root(name, windows),
        no_parent_piece(pieces(name, windows)),
    ensures
        within(base, join_path(base, name, windows), windows),
{
    let j = join_path(base, name, windows);
    let cb = components(base, windows);
    let cj = components(j, windows);
    if base.len() == 0 {
        assert(pieces(base, windows) =~= Seq::<Seq<char>>::empty());
        assert(cb =~= Seq::<Seq<char>>::empty());
        assert(j == name);
        assert(cj.skip(0) =~= cj);
        lemma_components_no_parent(name, windows);
    } else {
        lemma_join_pieces(base, name, windows);
        lemma_join_head(base, name, windows);
        let pb = pieces(base, windows);
        let pn = pieces(name, windows);
        let h: Seq<Seq<char>> = if has_root(base, windows) {
            seq![seq!['/']]
        } else if has_cur_dir(base, windows) {
            seq![seq!['.']]
        } else {
            Seq::empty()
        };
        assert(cb =~= h + pb);
        assert(cj =~= h + pb + pn);
        assert(cj.skip(cb.len() as int) =~= pn);
    }
}

/// Every path lies within itself.
pub proof fn lemma_within_reflexive(p: Seq<char>, windows: bool)
    ensures
        within(p, p, windows),
{
    let c = components(p, windows);
    assert(c.skip(c.len() as int) =~= Seq::<Seq<char>>::empty());
}

/// Two paths that each lie within the other have the same components; so a
/// directory's parent, which has fewer components, never lies within it.
pub proof fn lemma_within_antisymmetric(a: Seq<char>, b: Seq<char>, windows: bool)
    requires
        within(a, b, windows),
        within(b, a, windows),
    ensures
        components(a, windows) == components(b, windows),
{
    assert(components(a, windows) =~= components(b, windows));
}

// ---------------------------------------------------------------------------
// Executable functions

fn separator(c: char, windows: bool) -> (r: bool)
    ensures
        r == is_sep(c, windows),
{
    c == '/' || (windows && c == '\\')
}

/// The components of `path` (see [`components`]).
pub fn components_of(path: &str, windows: bool) -> (r: Vec<Vec<char>>)
    ensures
        r@.map_values(|v: Vec<char>| v@) == components(path@, windows),
{
    let s = chars_of(path);
    let n = s.len();
    let mut done: Vec<Vec<char>> = Vec::new();
    let mut cur: Vec<char> = Vec::new();
    let ghost e: ScanState = (Seq::empty(), Seq::empty());
    let mut i: usize = 0;
    while i < n
        invariant
            n == s@.len(),
            s@ == path@,
            i <= n,
            (done@.map_values(|v: Vec<char>| v@), cur@) == scan_from(e, s@.take(i as int), windows),
        decreases n - i,
    {
        let c = s[i];
        proof {
            assert(s@.take(i + 1).drop_last() =~= s@.take(i as int));
            assert(s@.take(i + 1).last() == c);
        }
        if separator(c, windows) {
            let dot = cur.len() == 1 && cur[0] == '.';
            if cur.len() != 0 && !dot {
                let piece = cur;
                done.push(piece);
                proof {
                    assert(piece@ != seq!['.']);
                }
            } else {
                proof {
                    if cur@.len() == 1 {
                        assert(cur@ =~= seq!['.']);
                    }
                }
            }
            cur = Vec::new();
        } else {
            cur.push(c);
        }
        proof {
            assert(done@.map_values(|v: Vec<char>| v@) =~= scan_from(e, s@.take(i + 1), windows).0);
        }
        i += 1;
    }
    proof {
        assert(s@.take(n as int) =~= s@);
    }
    let dot = cur.len() == 1 && cur[0] == '.';
    if cur.len() != 0 && !dot {
        done.push(cur);
    } else {
        proof {
            if cur@.len() == 1 {
                assert(cur@ =~= seq!['.']);
            }
        }
    }
    let ghost ps = done@.map_values(|v: Vec<char>| v@);
    assert(ps =~= pieces(path@, windows));
    let root = n > 0 && separator(s[0], windows);
    let curdir = n > 0 && s[0] == '.' && (n == 1 || separator(s[1], windows));
    if root || curdir {
        let mut head: Vec<char> = Vec::new();
        if root {
            head.push('/');
        } else {
            head.push('.');
        }
        let mut r: Vec<Vec<char>> = Vec::new();
        r.push(head);
        r.append(&mut done);
        proof {
            assert(r@.map_values(|v: Vec<char>| v@) =~= components(path@, windows));
        }
        r
    } else {
        done
    }
}

/// Appends `name` to `base` ([`join_path`]), as `PathBuf::join` does.
pub fn join(base: &str, name: &str, windows: bool) -> (r: String)
    ensures
        r@ == join_path(base@, name@, windows),
{
    let b = chars_of(base);
    let n = chars_of(name);
    let mut out: Vec<char> = Vec::new();
    if n.len() > 0 && separator(n[0], windows) {
        return string_of(&n);
    }
    for i in 0..b.len()
        invariant
            out@ == b@.take(i as int),
    {
        out.push(b[i]);
        assert(b@.take(i as int).push(b@[i as int]) =~= b@.take(i + 1));
    }
    assert(b@.take(b@.len() as int) =~= b@);
    if b.len() > 0 && !separator(b[b.len() - 1], windows) {
        out.push(if windows { '\\' } else { '/' });
    }
    let ghost mid = out@;
    for i in 0..n.len()
        invariant
            out@ == mid + n@.take(i as int),
    {
        out.push(n[i]);
        assert(n@.take(i as int).push(n@[i as int]) =~= n@.take(i + 1));
    }
    assert(n@.take(n@.len() as int) =~= n@);
    let r = string_of(&out);
    assert(r@ =~= join_path(base@, name@, windows));
    r
}

/// Whether the component list `a` begins the component list `b`.
fn components_prefix(a: &Vec<Vec<char>>, b: &Vec<Vec<char>>) -> (r: bool)
    ensures
        r == a@.map_values(|v: Vec<char>| v@).is_prefix_of(b@.map_values(|v: Vec<char>| v@)),
{
    let ghost ma = a@.map_values(|v: Vec<char>| v@);
    let ghost mb = b@.map_values(|v: Vec<char>| v@);
    if a.len() > b.len() {
        return false;
    }
    for i in 0..a.len()
        invariant
            a@.len() <= b@.len(),
            ma == a@.map_values(|v: Vec<char>| v@),
            mb == b@.map_values(|v: Vec<char>| v@),
            forall|j: int| 0 <= j < i ==> ma[j] == mb[j],
    {
        if !chars_eq(&a[i], &b[i]) {
            assert(ma[i as int] != mb[i as int]);
            return false;
        }
    }
    true
}

/// Whether a component is `..`.
fn is_parent_dir(v: &Vec<char>) -> (r: bool)
    ensures
        r == (v@ == parent_dir()),
{
    let r = v.len() == 2 && v[0] == '.' && v[1] == '.';
    proof {
        if v@.len() == 2 {
            assert(r == (v@ =~= parent_dir()));
        }
    }
    r
}

/// Whether `child` lies within `parent` ([`within`]): as `Path::starts_with`
/// decides it, with any `..` after the parent's components refused.
pub fn is_within(parent: &str, child: &str, windows: bool) -> (r: bool)
    ensures
        r == within(parent@, child@, windows),
{
    let a = components_of(parent, windows);
    let b = components_of(child, windows);
    if !components_prefix(&a, &b) {
        return false;
    }
    let ghost mb = b@.map_values(|v: Vec<char>| v@);
    let ghost rest = mb.skip(a@.len() as int);
    assert(a@.map_values(|v: Vec<char>| v@).len() == a@.len());
    assert(mb.len() == b@.len());
    assert(a@.len() <= b@.len());
    let mut k = a.len();
    while k < b.len()
        invariant
            a@.len() <= k <= b@.len(),
            mb == b@.map_values(|v: Vec<char>| v@),
            mb == components(child@, windows),
            components(parent@, windows).len() == a@.len(),
            rest == mb.skip(a@.len() as int),
            forall|i: int| 0 <= i < k - a@.len() ==> #[trigger] rest[i] != parent_dir(),
        decreases b@.len() - k,
    {
        assert(rest[k - a@.len()] == b@[k as int]@);
        if is_parent_dir(&b[k]) {
            assert(!no_parent_piece(rest));
            return false;
        }
        k += 1;
    }
    assert(no_parent_piece(rest));
    true
}

/// Whether two paths have the same components, as `==` on `PathBuf` decides it.
pub fn same_path(a: &str, b: &str, windows: bool) -> (r: bool)
    ensures
        r == (components(a@, windows) == components(b@, windows)),
{
    let ca = components_of(a, windows);
    let cb = components_of(b, windows);
    let p = components_prefix(&ca, &cb);
    let q = components_prefix(&cb, &ca);
    proof {
        let ma = ca@.map_values(|v: Vec<char>| v@);
        let mb = cb@.map_values(|v: Vec<char>| v@);
        if p && q {
            assert(ma =~= mb);
        }
    }
    p && q
}

/// The last component of `path` when it is a name ([`file_name_of`]), as
/// `Path::file_name` gives it.
pub fn file_name(path: &str, windows: bool) -> (r: Option<String>)
    ensures
        r matches Some(n) ==> file_name_of(path@, windows) == Some(n@),
        r is None ==> file_name_of(path@, windows) is None,
{
    let c = components_of(path, windows);
    let ghost mc = c@.map_values(|v: Vec<char>| v@);
    if c.len() == 0 {
        return None;
    }
    let last = &c[c.len() - 1];
    let root = last.len() == 1 && last[0] == '/';
    let cur = last.len() == 1 && last[0] == '.';
    let up = is_parent_dir(last);
    proof {
        assert(mc.last() == last@);
        if last@.len() == 1 {
            assert(root == (last@ =~= seq!['/']));
            assert(cur == (last@ =~= seq!['.']));
        }
    }
    if root || cur || up {
        None
    } else {
        Some(string_of(last))
    }
}

} // verus!
