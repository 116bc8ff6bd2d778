//! The precedence of the pre-release and build parts of versions, as the
//! `semver` crate orders them: identifier by identifier (the parts split at
//! `.`), numeric identifiers by value and below the others, the others as
//! text, and a longer list of identifiers above its own beginning.

use vstd::prelude::*;
use crate::text::{split_seq, split_scan, split_chars, chars_of, str_eq};
use crate::versions::{text_lt, lemma_text_lt_irreflexive, lemma_text_lt_asymmetric, lemma_text_lt_transitive,
    lemma_text_lt_total};

verus! {

/// Three-way comparison of texts in text order: -1, 0 or 1.
pub open spec fn text_order(a: Seq<char>, b: Seq<char>) -> int {
    if a == b {
        0
    } else if text_lt(a, b) {
        -1
    } else {
        1
    }
}

/// Three-way comparison of numbers.
pub open spec fn nat_order(m: nat, n: nat) -> int {
    if m < n {
        -1
    } else if n < m {
        1
    } else {
        0
    }
}

/// Every character is an ASCII digit (true of the empty text).
pub open spec fn all_digits(s: Seq<char>) -> bool {
    forall|i: int| 0 <= i < s.len() ==> '0' <= #[trigger] s[i] && s[i] <= '9'
}

/// The text without its leading zeros.
pub open spec fn strip_zeros(s: Seq<char>) -> Seq<char>
    decreases s.len(),
{
    if s.len() > 0 && s[0] == '0' {
        strip_zeros(s.drop_first())
    } else {
        s
    }
}

/// Two numeric identifiers of a pre-release: the shorter is the smaller,
/// then by text.
pub open spec fn numeric_pre_order(a: Seq<char>, b: Seq<char>) -> int {
    if nat_order(a.len(), b.len()) != 0 {
        nat_order(a.len(), b.len())
    } else {
        text_order(a, b)
    }
}

/// Two numeric identifiers of build metadata: by value (the shorter text
/// without leading zeros is the smaller, then by text), then the one with
/// fewer leading zeros first.
pub open spec fn numeric_build_order(a: Seq<char>, b: Seq<char>) -> int {
    let x = strip_zeros(a);
    let y = strip_zeros(b);
    if nat_order(x.len(), y.len()) != 0 {
        nat_order(x.len(), y.len())
    } else if text_order(x, y) != 0 {
        text_order(x, y)
    } else {
        nat_order(a.len(), b.len())
    }
}

/// Two identifiers of a pre-release (`build` false) or of build metadata
/// (`build` true): numeric ones compared as numbers and below the others,
/// the others as text.
pub open spec fn ident_order(a: Seq<char>, b: Seq<char>, build: bool) -> int {
    if all_digits(a) && all_digits(b) {
        if build {
            numeric_build_order(a, b)
        } else {
            numeric_pre_order(a, b)
        }
    } else if all_digits(a) {
        -1
    } else if all_digits(b) {
        1
    } else {
        text_order(a, b)
    }
}

/// Lists of identifiers, the first that differ deciding; a list that is the
/// beginning of the other is the smaller.
pub open spec fn idents_order(xs: Seq<Seq<char>>, ys: Seq<Seq<char>>, build: bool) -> int
    decreases xs.len(),
{
    if xs.len() == 0 {
        if ys.len() == 0 {
            0
        } else {
            -1
        }
    } else if ys.len() == 0 {
        1
    } else if ident_order(xs[0], ys[0], build) != 0 {
        ident_order(xs[0], ys[0], build)
    } else {
        idents_order(xs.drop_first(), ys.drop_first(), build)
    }
}

/// Pre-release parts: equal texts are equal; a release (empty part) is above
/// every pre-release; else identifier by identifier.
pub open spec fn pre_order(p: Seq<char>, q: Seq<char>) -> int {
    if p == q {
        0
    } else if p.len() == 0 {
        1
    } else if q.len() == 0 {
        -1
    } else {
        idents_order(split_seq(p, '.'), split_seq(q, '.'), false)
    }
}

/// Build metadata: equal texts are equal; else identifier by identifier.
pub open spec fn build_order(p: Seq<char>, q: Seq<char>) -> int {
    if p == q {
        0
    } else {
        idents_order(split_seq(p, '.'), split_seq(q, '.'), true)
    }
}

/// The properties of a three-way comparison at `a`, `b`, `c`: its values,
/// antisymmetry, zero exactly on equal arguments, and transitivity.
pub open spec fn order_laws(ab: int, ba: int, bc: int, ac: int, a_eq_b: bool, b_eq_c: bool) -> bool {
    &&& -1 <= ab <= 1
    &&& ab == -ba
    &&& (ab == 0) == a_eq_b
    &&& (ab < 0 && bc < 0 ==> ac < 0)
    &&& (ab > 0 && bc > 0 ==> ac > 0)
}

pub proof fn lemma_text_order(a: Seq<char>, b: Seq<char>, c: Seq<char>)
    ensures
        order_laws(text_order(a, b), text_order(b, a), text_order(b, c), text_order(a, c), a == b, b == c),
{
    lemma_text_lt_irreflexive(a);
    lemma_text_lt_asymmetric(a, b);
    lemma_text_lt_total(a, b);
    if text_lt(a, b) && text_lt(b, c) {
        lemma_text_lt_transitive(a, b, c);
    }
    if text_lt(b, a) && text_lt(c, b) {
        lemma_text_lt_transitive(c, b, a);
        lemma_text_lt_irreflexive(c);
    }
    lemma_text_lt_total(b, c);
    lemma_text_lt_total(a, c);
    lemma_text_lt_asymmetric(a, c);
    lemma_text_lt_asymmetric(b, c);
}

/// `n` zeros.
pub open spec fn zeros(n: nat) -> Seq<char> {
    Seq::new(n, |i: int| '0')
}

/// A text is its leading zeros followed by the rest.
pub proof fn lemma_strip_zeros(s: Seq<char>)
    ensures
        strip_zeros(s).len() <= s.len(),
        s == zeros((s.len() - strip_zeros(s).len()) as nat) + strip_zeros(s),
    decreases s.len(),
{
    if s.len() > 0 && s[0] == '0' {
        lemma_strip_zeros(s.drop_first());
        let t = strip_zeros(s.drop_first());
        let k = (s.drop_first().len() - t.len()) as nat;
        assert(zeros(k + 1) =~= seq!['0'] + zeros(k));
        assert(s =~= seq!['0'] + s.drop_first());
        assert(s =~= zeros(k + 1) + t);
    } else {
        assert(zeros(0) + s =~= s);
    }
}

pub proof fn lemma_nat_order(m: nat, n: nat, o: nat)
    ensures
        order_laws(nat_order(m, n), nat_order(n, m), nat_order(n, o), nat_order(m, o), m == n, n == o),
{
}

pub proof fn lemma_numeric_pre_order(a: Seq<char>, b: Seq<char>, c: Seq<char>)
    ensures
        order_laws(numeric_pre_order(a, b), numeric_pre_order(b, a), numeric_pre_order(b, c), numeric_pre_order(a, c),
            a == b, b == c),
{
    lemma_text_order(a, b, c);
    lemma_nat_order(a.len(), b.len(), c.len());
    lemma_text_order(b, a, c);
    lemma_text_order(a, c, b);
}

pub proof fn lemma_numeric_build_order(a: Seq<char>, b: Seq<char>, c: Seq<char>)
    ensures
        order_laws(numeric_build_order(a, b), numeric_build_order(b, a), numeric_build_order(b, c),
            numeric_build_order(a, c), a == b, b == c),
{
    let x = strip_zeros(a);
    let y = strip_zeros(b);
    let z = strip_zeros(c);
    lemma_text_order(x, y, z);
    lemma_text_order(y, x, z);
    lemma_text_order(x, z, y);
    lemma_nat_order(x.len(), y.len(), z.len());
    lemma_nat_order(a.len(), b.len(), c.len());
    lemma_strip_zeros(a);
    lemma_strip_zeros(b);
    lemma_strip_zeros(c);
    if x == y && a.len() == b.len() {
        assert(a == b);
    }
    if y == z && b.len() == c.len() {
        assert(b == c);
    }
}

pub proof fn lemma_ident_order(a: Seq<char>, b: Seq<char>, c: Seq<char>, build: bool)
    ensures
        order_laws(ident_order(a, b, build), ident_order(b, a, build), ident_order(b, c, build),
            ident_order(a, c, build), a == b, b == c),
{
    lemma_text_order(a, b, c);
    lemma_numeric_pre_order(a, b, c);
    lemma_numeric_build_order(a, b, c);
}

pub proof fn lemma_idents_order(xs: Seq<Seq<char>>, ys: Seq<Seq<char>>, zs: Seq<Seq<char>>, build: bool)
    ensures
        order_laws(idents_order(xs, ys, build), idents_order(ys, xs, build), idents_order(ys, zs, build),
            idents_order(xs, zs, build), xs == ys, ys == zs),
    decreases xs.len(),
{
    if xs.len() > 0 && ys.len() > 0 && zs.len() > 0 {
        lemma_ident_order(xs[0], ys[0], zs[0], build);
        lemma_ident_order(ys[0], xs[0], zs[0], build);
        lemma_ident_order(xs[0], zs[0], ys[0], build);
        lemma_idents_order(xs.drop_first(), ys.drop_first(), zs.drop_first(), build);
        if xs[0] == ys[0] && xs.drop_first() == ys.drop_first() {
            assert(xs =~= seq![xs[0]] + xs.drop_first());
            assert(ys =~= seq![ys[0]] + ys.drop_first());
        }
        if ys[0] == zs[0] && ys.drop_first() == zs.drop_first() {
            assert(ys =~= seq![ys[0]] + ys.drop_first());
            assert(zs =~= seq![zs[0]] + zs.drop_first());
        }
    } else if xs.len() > 0 && ys.len() > 0 {
        lemma_ident_order(xs[0], ys[0], ys[0], build);
        lemma_idents_order(xs.drop_first(), ys.drop_first(), ys.drop_first(), build);
        if xs[0] == ys[0] && xs.drop_first() == ys.drop_first() {
            assert(xs =~= seq![xs[0]] + xs.drop_first());
            assert(ys =~= seq![ys[0]] + ys.drop_first());
        }
    } else if xs.len() == 0 && ys.len() == 0 {
        assert(xs =~= ys);
    }
    if ys.len() == 0 && zs.len() == 0 {
        assert(ys =~= zs);
    }
}

/// The pieces of a split joined again by the separator.
pub open spec fn join_pieces(ps: Seq<Seq<char>>, sep: char) -> Seq<char>
    decreases ps.len(),
{
    if ps.len() <= 1 {
        if ps.len() == 0 {
            Seq::empty()
        } else {
            ps[0]
        }
    } else {
        join_pieces(ps.drop_last(), sep) + seq![sep] + ps.last()
    }
}

proof fn lemma_join_push(ps: Seq<Seq<char>>, p: Seq<char>, c: char, sep: char)
    requires
        ps.len() >= 1,
    ensures
        join_pieces(ps.drop_last().push(ps.last().push(c)), sep) == join_pieces(ps, sep).push(c),
{
    let qs = ps.drop_last().push(ps.last().push(c));
    assert(qs.drop_last() =~= ps.drop_last());
    if ps.len() == 1 {
    } else {
        assert(join_pieces(qs, sep) =~= join_pieces(ps, sep).push(c));
    }
}

/// Splitting loses nothing: joining the pieces gives the text back.
pub proof fn lemma_split_join(s: Seq<char>, sep: char)
    ensures
        join_pieces(split_seq(s, sep), sep) == s,
    decreases s.len(),
{
    if s.len() == 0 {
        assert(split_seq(s, sep) =~= seq![Seq::<char>::empty()]);
    } else {
        lemma_split_join(s.drop_last(), sep);
        let st = split_scan(s.drop_last(), sep);
        let ps = st.0.push(st.1);
        assert(ps.drop_last() =~= st.0);
        if s.last() == sep {
            let qs = st.0.push(st.1).push(Seq::<char>::empty());
            assert(split_seq(s, sep) == qs);
            assert(qs.drop_last() =~= ps);
            assert(join_pieces(qs, sep) =~= s.drop_last() + seq![sep]);
        } else {
            assert(split_seq(s, sep) == st.0.push(st.1.push(s.last())));
            lemma_join_push(ps, st.1, s.last(), sep);
            assert(ps.last() == st.1);
            assert(ps.drop_last().push(ps.last().push(s.last())) =~= st.0.push(st.1.push(s.last())));
        }
        assert(s.drop_last().push(s.last()) =~= s);
    }
}

/// Texts with the same pieces are the same text.
pub proof fn lemma_split_injective(p: Seq<char>, q: Seq<char>, sep: char)
    requires
        split_seq(p, sep) == split_seq(q, sep),
    ensures
        p == q,
{
    lemma_split_join(p, sep);
    lemma_split_join(q, sep);
}

pub proof fn lemma_pre_order(p: Seq<char>, q: Seq<char>, r: Seq<char>)
    ensures
        order_laws(pre_order(p, q), pre_order(q, p), pre_order(q, r), pre_order(p, r), p == q, q == r),
{
    let sp = split_seq(p, '.');
    let sq = split_seq(q, '.');
    let sr = split_seq(r, '.');
    lemma_idents_order(sp, sq, sr, false);
    lemma_idents_order(sq, sp, sr, false);
    lemma_idents_order(sp, sr, sq, false);
    if sp == sq {
        lemma_split_injective(p, q, '.');
    }
    if sq == sr {
        lemma_split_injective(q, r, '.');
    }
    if sp == sr {
        lemma_split_injective(p, r, '.');
    }
}

pub proof fn lemma_build_order(p: Seq<char>, q: Seq<char>, r: Seq<char>)
    ensures
        order_laws(build_order(p, q), build_order(q, p), build_order(q, r), build_order(p, r), p == q, q == r),
{
    let sp = split_seq(p, '.');
    let sq = split_seq(q, '.');
    let sr = split_seq(r, '.');
    lemma_idents_order(sp, sq, sr, true);
    lemma_idents_order(sq, sp, sr, true);
    lemma_idents_order(sp, sr, sq, true);
    if sp == sq {
        lemma_split_injective(p, q, '.');
    }
    if sq == sr {
        lemma_split_injective(q, r, '.');
    }
    if sp == sr {
        lemma_split_injective(p, r, '.');
    }
}

// ---------------------------------------------------------------------------
// Comparing

fn nat_compare(m: usize, n: usize) -> (r: i8)
    ensures
        r == nat_order(m as nat, n as nat),
{
    if m < n {
        -1
    } else if n < m {
        1
    } else {
        0
    }
}

/// Three-way comparison of texts ([`text_order`]).
fn chars_order(a: &Vec<char>, b: &Vec<char>) -> (r: i8)
    ensures
        r == text_order(a@, b@),
{
    let mut i: usize = 0;
    assert(a@.skip(0) =~= a@);
    assert(b@.skip(0) =~= b@);
    while i < a.len() && i < b.len() && a[i] == b[i]
        invariant
            i <= a@.len(),
            i <= b@.len(),
            a@.take(i as int) == b@.take(i as int),
            text_lt(a@, b@) == text_lt(a@.skip(i as int), b@.skip(i as int)),
        decreases a@.len() - i,
    {
        proof {
            assert(a@.skip(i as int).drop_first() =~= a@.skip(i + 1));
            assert(b@.skip(i as int).drop_first() =~= b@.skip(i + 1));
            assert(a@.take(i + 1) =~= a@.take(i as int).push(a@[i as int]));
            assert(b@.take(i + 1) =~= b@.take(i as int).push(b@[i as int]));
        }
        i += 1;
    }
    if i == a.len() && i == b.len() {
        assert(a@ =~= a@.take(i as int));
        assert(b@ =~= b@.take(i as int));
        return 0;
    }
    if i == a.len() {
        assert(a@.len() != b@.len());
        return -1;
    }
    if i == b.len() {
        assert(a@.len() != b@.len());
        return 1;
    }
    assert(a@.skip(i as int)[0] == a@[i as int]);
    assert(b@.skip(i as int)[0] == b@[i as int]);
    assert(a@[i as int] != b@[i as int]);
    if a[i] < b[i] {
        -1
    } else {
        1
    }
}

/// Whether every character is an ASCII digit ([`all_digits`]).
fn digits_only(a: &Vec<char>) -> (r: bool)
    ensures
        r == all_digits(a@),
{
    for i in 0..a.len()
        invariant
            forall|k: int| 0 <= k < i ==> '0' <= #[trigger] a@[k] && a@[k] <= '9',
    {
        if !('0' <= a[i] && a[i] <= '9') {
            return false;
        }
    }
    true
}

/// The text without its leading zeros ([`strip_zeros`]).
fn without_zeros(a: &Vec<char>) -> (r: Vec<char>)
    ensures
        r@ == strip_zeros(a@),
{
    let mut j: usize = 0;
    assert(a@.skip(0) =~= a@);
    while j < a.len() && a[j] == '0'
        invariant
            j <= a@.len(),
            strip_zeros(a@) == strip_zeros(a@.skip(j as int)),
        decreases a@.len() - j,
    {
        assert(a@.skip(j as int).drop_first() =~= a@.skip(j + 1));
        j += 1;
    }
    let mut r: Vec<char> = Vec::new();
    let mut k = j;
    while k < a.len()
        invariant
            j <= k <= a@.len(),
            r@ == a@.subrange(j as int, k as int),
        decreases a@.len() - k,
    {
        r.push(a[k]);
        assert(a@.subrange(j as int, k + 1) =~= a@.subrange(j as int, k as int).push(a@[k as int]));
        k += 1;
    }
    assert(a@.skip(j as int) =~= a@.subrange(j as int, a@.len() as int));
    r
}

/// Compares two identifiers ([`ident_order`]).
fn ident_compare(a: &Vec<char>, b: &Vec<char>, build: bool) -> (r: i8)
    ensures
        r == ident_order(a@, b@, build),
{
    let da = digits_only(a);
    let db = digits_only(b);
    if da && db {
        if build {
            let x = without_zeros(a);
            let y = without_zeros(b);
            let c = nat_compare(x.len(), y.len());
            if c != 0 {
                return c;
            }
            let t = chars_order(&x, &y);
            if t != 0 {
                return t;
            }
            nat_compare(a.len(), b.len())
        } else {
            let c = nat_compare(a.len(), b.len());
            if c != 0 {
                return c;
            }
            chars_order(a, b)
        }
    } else if da {
        -1
    } else if db {
        1
    } else {
        chars_order(a, b)
    }
}

/// The text of each piece.
pub open spec fn piece_texts(v: Seq<Vec<char>>) -> Seq<Seq<char>> {
    v.map_values(|p: Vec<char>| p@)
}

/// Compares two lists of identifiers ([`idents_order`]).
fn idents_compare(xs: &Vec<Vec<char>>, ys: &Vec<Vec<char>>, build: bool) -> (r: i8)
    ensures
        r == idents_order(piece_texts(xs@), piece_texts(ys@), build),
{
    let ghost tx = piece_texts(xs@);
    let ghost ty = piece_texts(ys@);
    let mut i: usize = 0;
    assert(tx.skip(0) =~= tx);
    assert(ty.skip(0) =~= ty);
    while i < xs.len() && i < ys.len()
        invariant
            tx == piece_texts(xs@),
            ty == piece_texts(ys@),
            i <= xs@.len(),
            i <= ys@.len(),
            idents_order(tx, ty, build) == idents_order(tx.skip(i as int), ty.skip(i as int), build),
        decreases xs@.len() - i,
    {
        let c = ident_compare(&xs[i], &ys[i], build);
        proof {
            assert(tx.skip(i as int)[0] == xs@[i as int]@);
            assert(ty.skip(i as int)[0] == ys@[i as int]@);
            assert(tx.skip(i as int).drop_first() =~= tx.skip(i + 1));
            assert(ty.skip(i as int).drop_first() =~= ty.skip(i + 1));
        }
        if c != 0 {
            return c;
        }
        i += 1;
    }
    if i == xs.len() && i == ys.len() {
        0
    } else if i == xs.len() {
        -1
    } else {
        1
    }
}

/// Compares two pre-release parts as `semver` does ([`pre_order`]).
pub fn pre_compare(p: &str, q: &str) -> (r: i8)
    ensures
        r == pre_order(p@, q@),
{
    if str_eq(p, q) {
        return 0;
    }
    let vp = chars_of(p);
    let vq = chars_of(q);
    if vp.len() == 0 {
        return 1;
    }
    if vq.len() == 0 {
        return -1;
    }
    let sp = split_chars(&vp, '.');
    let sq = split_chars(&vq, '.');
    idents_compare(&sp, &sq, false)
}

/// Compares two build metadata parts as `semver` does ([`build_order`]).
pub fn build_compare(p: &str, q: &str) -> (r: i8)
    ensures
        r == build_order(p@, q@),
{
    if str_eq(p, q) {
        return 0;
    }
    let vp = chars_of(p);
    let vq = chars_of(q);
    let sp = split_chars(&vp, '.');
    let sq = split_chars(&vq, '.');
    idents_compare(&sp, &sq, true)
}

} // verus!
