//! Release versions `MAJOR.MINOR.PATCH[-PRE][+BUILD]`, as the `semver` crate
//! reads them, with their text form and their order.

use vstd::prelude::*;
use crate::text::{push_char, push_str, split_seq, all_ascii};
use vstd::multiset::Multiset;
use crate::precedence::{pre_order, build_order, lemma_pre_order, lemma_build_order, pre_compare, build_compare};

verus! {

/// A version read by `semver::Version::parse`, held as plain values.
pub struct SemVersion {
    pub major: u64,
    pub minor: u64,
    pub patch: u64,
    /// The pre-release part (after `-`), empty for a release.
    pub pre: String,
    /// The build metadata (after `+`), usually empty.
    pub build: String,
}

/// The plain content of a version.
pub type VersionParts = (u64, u64, u64, Seq<char>, Seq<char>);

impl View for SemVersion {
    type V = VersionParts;

    open spec fn view(&self) -> VersionParts {
        (self.major, self.minor, self.patch, self.pre@, self.build@)
    }
}

/// The character of a decimal digit `d < 10`.
pub open spec fn digit_char(d: nat) -> char {
    ((('0' as u32) as nat) + d) as char
}

/// The decimal text of `n`, without leading zeros.
pub open spec fn decimal(n: nat) -> Seq<char>
    decreases n,
{
    if n < 10 {
        seq![digit_char(n)]
    } else {
        decimal(n / 10).push(digit_char(n % 10))
    }
}

/// The value of a run of ASCII digits.
pub open spec fn digits_value(s: Seq<char>) -> nat
    decreases s.len(),
{
    if s.len() == 0 {
        0
    } else {
        digits_value(s.drop_last()) * 10 + ((s.last() as u32) - ('0' as u32)) as nat
    }
}

/// A non-empty run of ASCII digits.
pub open spec fn ascii_digits(s: Seq<char>) -> bool {
    s.len() > 0 && forall|i: int| 0 <= i < s.len() ==> '0' <= #[trigger] s[i] && s[i] <= '9'
}

/// A run of digits that `semver` accepts as a number: no leading zero, and
/// a value that fits in a `u64`.
pub open spec fn canonical_number(s: Seq<char>) -> bool {
    ascii_digits(s) && (s.len() == 1 || s[0] != '0') && digits_value(s) <= u64::MAX
}

/// Three runs of ASCII digits separated by dots.
pub open spec fn ascii_triple(s: Seq<char>) -> bool {
    let g = split_seq(s, '.');
    g.len() == 3 && ascii_digits(g[0]) && ascii_digits(g[1]) && ascii_digits(g[2])
}

/// The parts of an optional version.
pub open spec fn parts_of(r: Option<SemVersion>) -> Option<VersionParts> {
    match r {
        Some(v) => Some(v@),
        None => None,
    }
}

/// The version that text of the form `N.N.N` stands for: its three numbers,
/// when none has a leading zero or overflows a `u64`.
pub open spec fn triple_parse(s: Seq<char>) -> Option<VersionParts> {
    let g = split_seq(s, '.');
    if canonical_number(g[0]) && canonical_number(g[1]) && canonical_number(g[2]) {
        Some((
            digits_value(g[0]) as u64,
            digits_value(g[1]) as u64,
            digits_value(g[2]) as u64,
            Seq::<char>::empty(),
            Seq::<char>::empty(),
        ))
    } else {
        None
    }
}

/// What `semver::Version::parse` gives for a text: the parts of the version,
/// or `None` when it refuses the text.
pub uninterp spec fn semver_parse(s: Seq<char>) -> Option<VersionParts>;

/// `semver::Version::parse`, with the result's fields converted to plain
/// values. The contract names the result (`semver_parse`) and states two
/// facts that the crate's parser shows: text of the form `N.N.N` (ASCII
/// digits) gives that version, with no pre-release or build part, exactly
/// when no number has a leading zero or overflows a `u64`; and text with a
/// character outside ASCII is refused. What it gives for other text is left
/// to the name.
#[verifier::external_body]
pub fn parse_version(s: &str) -> (r: Option<SemVersion>)
    ensures
        parts_of(r) == semver_parse(s@),
        ascii_triple(s@) ==> parts_of(r) == triple_parse(s@),
        !all_ascii(s@) ==> parts_of(r) is None,
{
    match semver::Version::parse(s) {
        Ok(v) => Some(SemVersion {
            major: v.major,
            minor: v.minor,
            patch: v.patch,
            pre: v.pre.as_str().to_string(),
            build: v.build.as_str().to_string(),
        }),
        Err(_) => None,
    }
}

/// The character of a digit.
fn digit_to_char(d: u64) -> (c: char)
    requires
        d < 10,
    ensures
        c == digit_char(d as nat),
{
    match d {
        0 => '0',
        1 => '1',
        2 => '2',
        3 => '3',
        4 => '4',
        5 => '5',
        6 => '6',
        7 => '7',
        8 => '8',
        _ => '9',
    }
}

/// The decimal digits of `n` ([`decimal`]).
pub fn decimal_chars(n: u64) -> (r: Vec<char>)
    ensures
        r@ == decimal(n as nat),
    decreases n,
{
    let c = digit_to_char(n % 10);
    if n < 10 {
        let mut v = Vec::new();
        v.push(c);
        v
    } else {
        let mut v = decimal_chars(n / 10);
        v.push(c);
        v
    }
}

/// The text of a version: `MAJOR.MINOR.PATCH`, then `-PRE` and `+BUILD`
/// when those parts are present (as `semver` displays it).
pub open spec fn version_text(v: VersionParts) -> Seq<char> {
    decimal(v.0 as nat) + seq!['.'] + decimal(v.1 as nat) + seq!['.'] + decimal(v.2 as nat)
        + (if v.3.len() == 0 { Seq::empty() } else { seq!['-'] + v.3 })
        + (if v.4.len() == 0 { Seq::empty() } else { seq!['+'] + v.4 })
}

/// `MAJOR.MINOR` of a version.
pub open spec fn minor_text(major: u64, minor: u64) -> Seq<char> {
    decimal(major as nat) + seq!['.'] + decimal(minor as nat)
}

fn push_chars(s: &mut String, v: &Vec<char>)
    ensures
        final(s)@ == old(s)@ + v@,
{
    let ghost start = s@;
    for i in 0..v.len()
        invariant
            s@ == start + v@.take(i as int),
    {
        push_char(s, v[i]);
        assert(v@.take(i as int).push(v@[i as int]) =~= v@.take(i + 1));
    }
    assert(v@.take(v@.len() as int) =~= v@);
}

/// `MAJOR.MINOR` as text ([`minor_text`]).
pub fn minor_string(major: u64, minor: u64) -> (r: String)
    ensures
        r@ == minor_text(major, minor),
{
    let mut s = String::new();
    push_chars(&mut s, &decimal_chars(major));
    push_char(&mut s, '.');
    push_chars(&mut s, &decimal_chars(minor));
    assert(s@ =~= minor_text(major, minor));
    s
}

impl SemVersion {
    /// The text of the version ([`version_text`]).
    pub fn to_string(&self) -> (r: String)
        ensures
            r@ == version_text(self@),
    {
        let mut s = String::new();
        push_chars(&mut s, &decimal_chars(self.major));
        push_char(&mut s, '.');
        push_chars(&mut s, &decimal_chars(self.minor));
        push_char(&mut s, '.');
        push_chars(&mut s, &decimal_chars(self.patch));
        let ghost base = s@;
        let pre_empty = self.pre.as_str().is_empty();
        if !pre_empty {
            push_char(&mut s, '-');
            push_str(&mut s, self.pre.as_str());
        }
        let ghost mid = s@;
        let build_empty = self.build.as_str().is_empty();
        if !build_empty {
            push_char(&mut s, '+');
            push_str(&mut s, self.build.as_str());
        }
        proof {
            let v = self@;
            let p: Seq<char> = if v.3.len() == 0 { Seq::empty() } else { seq!['-'] + v.3 };
            let b: Seq<char> = if v.4.len() == 0 { Seq::empty() } else { seq!['+'] + v.4 };
            assert(mid =~= base + p);
            assert(s@ =~= base + p + b);
            assert(version_text(v) =~= base + p + b);
        }
        s
    }

    /// A release carries no pre-release part.
    pub fn is_release(&self) -> (r: bool)
        ensures
            r == (self@.3.len() == 0),
    {
        self.pre.as_str().is_empty()
    }
}


// ---------------------------------------------------------------------------
// Order

/// Text order: character by character by code point, a proper prefix first
/// (the order of `str`, since UTF-8 keeps code point order).
pub open spec fn text_lt(a: Seq<char>, b: Seq<char>) -> bool
    decreases a.len(),
{
    if a.len() == 0 {
        b.len() > 0
    } else if b.len() == 0 {
        false
    } else if a[0] != b[0] {
        a[0] < b[0]
    } else {
        text_lt(a.drop_first(), b.drop_first())
    }
}

/// Version order, as `semver` orders versions: by major, minor and patch;
/// then by pre-release part (a release above its pre-releases,
/// [`pre_order`]); then by build metadata ([`build_order`]).
pub open spec fn version_lt(a: VersionParts, b: VersionParts) -> bool {
    a.0 < b.0 || (a.0 == b.0 && (a.1 < b.1 || (a.1 == b.1 && (a.2 < b.2 || (a.2 == b.2 && (
        pre_order(a.3, b.3) < 0 || (a.3 == b.3 && build_order(a.4, b.4) < 0)))))))
}

pub proof fn lemma_text_lt_irreflexive(a: Seq<char>)
    ensures
        !text_lt(a, a),
    decreases a.len(),
{
    if a.len() > 0 {
        lemma_text_lt_irreflexive(a.drop_first());
    }
}

pub proof fn lemma_text_lt_asymmetric(a: Seq<char>, b: Seq<char>)
    ensures
        !(text_lt(a, b) && text_lt(b, a)),
    decreases a.len(),
{
    if a.len() > 0 && b.len() > 0 && a[0] == b[0] {
        lemma_text_lt_asymmetric(a.drop_first(), b.drop_first());
    }
}

pub proof fn lemma_text_lt_transitive(a: Seq<char>, b: Seq<char>, c: Seq<char>)
    requires
        text_lt(a, b),
        text_lt(b, c),
    ensures
        text_lt(a, c),
    decreases a.len(),
{
    if a.len() > 0 && b.len() > 0 && c.len() > 0 && a[0] == b[0] && b[0] == c[0] {
        lemma_text_lt_transitive(a.drop_first(), b.drop_first(), c.drop_first());
    }
}

pub proof fn lemma_text_lt_total(a: Seq<char>, b: Seq<char>)
    ensures
        a == b || text_lt(a, b) || text_lt(b, a),
    decreases a.len(),
{
    if a.len() == 0 && b.len() == 0 {
        assert(a =~= b);
    } else if a.len() > 0 && b.len() > 0 {
        if a[0] == b[0] {
            lemma_text_lt_total(a.drop_first(), b.drop_first());
            if a.drop_first() == b.drop_first() {
                assert(a =~= seq![a[0]] + a.drop_first());
                assert(b =~= seq![b[0]] + b.drop_first());
            }
        }
    }
}

/// The version order is a strict total order.
pub proof fn lemma_version_order(a: VersionParts, b: VersionParts, c: VersionParts)
    ensures
        !version_lt(a, a),
        !(version_lt(a, b) && version_lt(b, a)),
        version_lt(a, b) && version_lt(b, c) ==> version_lt(a, c),
        a == b || version_lt(a, b) || version_lt(b, a),
{
    lemma_pre_order(a.3, b.3, c.3);
    lemma_pre_order(a.3, a.3, a.3);
    lemma_build_order(a.4, b.4, c.4);
    lemma_build_order(a.4, a.4, a.4);
}

/// Whether `a` comes before `b` in text order ([`text_lt`]).
pub fn text_less(a: &str, b: &str) -> (r: bool)
    ensures
        r == text_lt(a@, b@),
{
    let va = crate::text::chars_of(a);
    let vb = crate::text::chars_of(b);
    let mut i: usize = 0;
    assert(va@.skip(0) =~= va@);
    assert(vb@.skip(0) =~= vb@);
    while i < va.len() && i < vb.len() && va[i] == vb[i]
        invariant
            i <= va@.len(),
            i <= vb@.len(),
            text_lt(va@, vb@) == text_lt(va@.skip(i as int), vb@.skip(i as int)),
        decreases va@.len() - i,
    {
        proof {
            assert(va@.skip(i as int).drop_first() =~= va@.skip(i + 1));
            assert(vb@.skip(i as int).drop_first() =~= vb@.skip(i + 1));
        }
        i += 1;
    }
    if i == va.len() {
        i < vb.len()
    } else if i == vb.len() {
        false
    } else {
        assert(va@.skip(i as int)[0] == va@[i as int]);
        assert(vb@.skip(i as int)[0] == vb@[i as int]);
        va[i] < vb[i]
    }
}

impl SemVersion {
    /// Whether `self` comes before `other` ([`version_lt`]).
    pub fn less_than(&self, other: &SemVersion) -> (r: bool)
        ensures
            r == version_lt(self@, other@),
    {
        if self.major != other.major {
            return self.major < other.major;
        }
        if self.minor != other.minor {
            return self.minor < other.minor;
        }
        if self.patch != other.patch {
            return self.patch < other.patch;
        }
        let p = pre_compare(self.pre.as_str(), other.pre.as_str());
        if p != 0 {
            return p < 0;
        }
        proof {
            lemma_pre_order(self@.3, other@.3, other@.3);
        }
        build_compare(self.build.as_str(), other.build.as_str()) < 0
    }

    /// Whether the two versions have the same parts.
    pub fn same_as(&self, other: &SemVersion) -> (r: bool)
        ensures
            r == (self@ == other@),
    {
        self.major == other.major && self.minor == other.minor && self.patch == other.patch
            && crate::text::str_eq(self.pre.as_str(), other.pre.as_str())
            && crate::text::str_eq(self.build.as_str(), other.build.as_str())
    }
}

/// The parts of each version.
pub open spec fn parts(v: Seq<SemVersion>) -> Seq<VersionParts> {
    v.map_values(|x: SemVersion| x@)
}

/// Highest first: no version comes before a later one.
pub open spec fn sorted_desc(s: Seq<VersionParts>) -> bool {
    forall|i: int, j: int| 0 <= i < j < s.len() ==> !version_lt(#[trigger] s[i], #[trigger] s[j])
}

/// Strictly highest first: each version comes after every later one.
pub open spec fn strictly_desc(s: Seq<VersionParts>) -> bool {
    forall|i: int, j: int| 0 <= i < j < s.len() ==> version_lt(#[trigger] s[j], #[trigger] s[i])
}

/// Inserts `x` into a list sorted highest first, keeping it sorted; when
/// `unique` holds and a version with the same parts is present, the list is
/// left as it is.
fn insert_desc(r: &mut Vec<SemVersion>, x: SemVersion, unique: bool)
    requires
        sorted_desc(parts(old(r)@)),
        unique ==> strictly_desc(parts(old(r)@)),
    ensures
        sorted_desc(parts(final(r)@)),
        unique ==> strictly_desc(parts(final(r)@)),
        !unique ==> parts(final(r)@).to_multiset() == parts(old(r)@).to_multiset().insert(x@),
        unique ==> parts(final(r)@).to_set() == parts(old(r)@).to_set().insert(x@),
{
    let ghost old_parts = parts(r@);
    let mut k: usize = 0;
    while k < r.len()
        invariant
            k <= r@.len(),
            parts(r@) == old_parts,
            forall|i: int| 0 <= i < k ==> !version_lt(#[trigger] old_parts[i], x@),
            unique ==> forall|i: int| 0 <= i < k ==> #[trigger] old_parts[i] != x@,
        ensures
            k <= r@.len(),
            parts(r@) == old_parts,
            forall|i: int| 0 <= i < k ==> !version_lt(#[trigger] old_parts[i], x@),
            unique ==> forall|i: int| 0 <= i < k ==> #[trigger] old_parts[i] != x@,
            k < r@.len() ==> version_lt(old_parts[k as int], x@) || (unique && old_parts[k as int] == x@),
        decreases r@.len() - k,
    {
        assert(old_parts[k as int] == r@[k as int]@);
        if unique && r[k].same_as(&x) {
            break;
        }
        if r[k].less_than(&x) {
            break;
        }
        k += 1;
    }
    if unique && k < r.len() && r[k].same_as(&x) {
        proof {
            assert(parts(r@)[k as int] == x@);
            assert(parts(r@).to_set().insert(x@) =~= parts(r@).to_set()) by {
                assert(parts(r@).contains(x@));
            }
        }
        return;
    }
    let ghost xv = x@;
    r.insert(k, x);
    proof {
        let n = parts(r@);
        assert(n =~= old_parts.insert(k as int, xv));
        old_parts.insert_ensures(k as int, xv);
        assert forall|i: int, j: int| 0 <= i < j < n.len() implies !version_lt(#[trigger] n[i], #[trigger] n[j]) by {
            if i < k && j == k {
            } else if i == k && j > k {
                lemma_version_order(old_parts[j - 1], old_parts[k as int], xv);
                lemma_version_order(xv, old_parts[j - 1], old_parts[k as int]);
                if old_parts[j - 1] != old_parts[k as int] {
                    assert(!version_lt(old_parts[k as int], old_parts[j - 1]));
                }
            } else if i < k && j > k {
                assert(n[j] == old_parts[j - 1]);
            } else if i > k {
                assert(n[i] == old_parts[i - 1]);
                assert(n[j] == old_parts[j - 1]);
            }
        }
        if unique {
            assert forall|i: int, j: int| 0 <= i < j < n.len() implies version_lt(#[trigger] n[j], #[trigger] n[i]) by {
                if i < k && j == k {
                    lemma_version_order(xv, old_parts[i], xv);
                } else if i == k && j > k {
                    lemma_version_order(old_parts[j - 1], old_parts[k as int], xv);
                    if old_parts[j - 1] != old_parts[k as int] {
                        assert(version_lt(old_parts[j - 1], old_parts[k as int]));
                    }
                } else if i < k && j > k {
                    assert(n[j] == old_parts[j - 1]);
                } else if i > k {
                    assert(n[i] == old_parts[i - 1]);
                    assert(n[j] == old_parts[j - 1]);
                }
            }
            assert(n.to_set() =~= old_parts.to_set().insert(xv)) by {
                assert forall|y: VersionParts| n.to_set().contains(y) <==> old_parts.to_set().insert(xv).contains(y) by {
                    if n.contains(y) {
                        let i = choose|i: int| 0 <= i < n.len() && n[i] == y;
                        if i < k {
                            assert(old_parts[i] == y);
                        } else if i > k {
                            assert(old_parts[i - 1] == y);
                        }
                    }
                    if old_parts.contains(y) {
                        let i = choose|i: int| 0 <= i < old_parts.len() && old_parts[i] == y;
                        if i < k {
                            assert(n[i] == y);
                        } else {
                            assert(n[i + 1] == y);
                        }
                    }
                    if y == xv {
                        assert(n[k as int] == y);
                    }
                }
            }
        } else {
            vstd::seq_lib::to_multiset_insert(old_parts, k as int, xv);
        }
    }
}

/// The versions sorted highest first (as `sort_by(|a, b| b.cmp(a))` orders
/// them).
pub fn sort_desc(v: Vec<SemVersion>) -> (r: Vec<SemVersion>)
    ensures
        sorted_desc(parts(r@)),
        parts(r@).to_multiset() == parts(v@).to_multiset(),
{
    let ghost orig = parts(v@);
    let mut v = v;
    let mut r: Vec<SemVersion> = Vec::new();
    proof {
        assert(parts(r@) =~= Seq::<VersionParts>::empty());
        assert(parts(r@).to_multiset() =~= Multiset::empty()) by {
            broadcast use vstd::seq_lib::group_to_multiset_ensures;
        }
    }
    while v.len() > 0
        invariant
            sorted_desc(parts(r@)),
            parts(r@).to_multiset().add(parts(v@).to_multiset()) == orig.to_multiset(),
        decreases v@.len(),
    {
        let ghost before = parts(v@);
        let x = v.pop().unwrap();
        proof {
            assert(before =~= parts(v@).push(x@));
            vstd::seq_lib::to_multiset_build(parts(v@), x@);
        }
        let ghost rb = parts(r@);
        insert_desc(&mut r, x, false);
        proof {
            assert(parts(r@).to_multiset().add(parts(v@).to_multiset())
                =~= rb.to_multiset().add(before.to_multiset()));
        }
    }
    proof {
        assert(parts(v@) =~= Seq::<VersionParts>::empty());
        assert(parts(v@).to_multiset() =~= Multiset::empty()) by {
            broadcast use vstd::seq_lib::group_to_multiset_ensures;
        }
        assert(parts(r@).to_multiset() =~= parts(r@).to_multiset().add(Multiset::empty()));
    }
    r
}

/// The distinct versions, strictly highest first (the versions gathered in a
/// set, then sorted as `sort_by(|a, b| b.cmp(a))` orders them).
pub fn sort_unique_desc(v: Vec<SemVersion>) -> (r: Vec<SemVersion>)
    ensures
        strictly_desc(parts(r@)),
        parts(r@).to_set() == parts(v@).to_set(),
{
    let ghost orig = parts(v@);
    let mut v = v;
    let mut r: Vec<SemVersion> = Vec::new();
    proof {
        assert(parts(r@) =~= Seq::<VersionParts>::empty());
    }
    while v.len() > 0
        invariant
            sorted_desc(parts(r@)),
            strictly_desc(parts(r@)),
            parts(r@).to_set().union(parts(v@).to_set()) == orig.to_set(),
        decreases v@.len(),
    {
        let ghost before = parts(v@);
        let x = v.pop().unwrap();
        proof {
            assert(before =~= parts(v@).push(x@));
            assert(before.to_set() =~= parts(v@).to_set().insert(x@)) by {
                assert forall|y: VersionParts| before.contains(y) <==> parts(v@).contains(y) || y == x@ by {
                    if before.contains(y) {
                        let i = choose|i: int| 0 <= i < before.len() && before[i] == y;
                        if i < parts(v@).len() {
                            assert(parts(v@)[i] == y);
                        }
                    }
                    if parts(v@).contains(y) {
                        let i = choose|i: int| 0 <= i < parts(v@).len() && parts(v@)[i] == y;
                        assert(before[i] == y);
                    }
                    if y == x@ {
                        assert(before[before.len() - 1] == y);
                    }
                }
            }
        }
        let ghost rb = parts(r@);
        insert_desc(&mut r, x, true);
        proof {
            assert(parts(r@).to_set().union(parts(v@).to_set())
                =~= rb.to_set().union(before.to_set()));
        }
    }
    proof {
        assert(parts(v@) =~= Seq::<VersionParts>::empty());
        assert(parts(v@).to_set() =~= Set::empty());
        assert(parts(r@).to_set() =~= parts(r@).to_set().union(Set::empty()));
    }
    r
}

} // verus!
