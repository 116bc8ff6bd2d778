//! Character-level helpers shared by the parsers of this crate.

use vstd::prelude::*;

verus! {

/// Appends one character to a `String` (`String::push`).
#[verifier::external_body]
pub fn push_char(s: &mut String, c: char)
    ensures
        final(s)@ == old(s)@.push(c),
{
    s.push(c)
}

/// The characters of `s`, in order.
pub fn chars_of(s: &str) -> (v: Vec<char>)
    ensures
        v@ == s@,
{
    let mut v: Vec<char> = Vec::new();
    for c in it: s.chars()
        invariant
            v@ == it.seq().take(it.index() as int),
    {
        v.push(c);
    }
    assert(v@ =~= s@) by {
        broadcast use vstd::string::group_string_axioms;
    }
    v
}

/// Appends the text `t` to `s`.
pub fn push_str(s: &mut String, t: &str)
    ensures
        final(s)@ == old(s)@ + t@,
{
    let v = chars_of(t);
    let ghost start = s@;
    for i in 0..v.len()
        invariant
            s@ == start + v@.take(i as int),
    {
        push_char(s, v[i]);
        assert(v@.take(i as int).push(v@[i as int]) =~= v@.take(i + 1));
    }
    assert(v@.take(v@.len() as int) =~= v@);
}

/// The text with every `from` replaced by `to`.
pub open spec fn replace_char(s: Seq<char>, from: char, to: char) -> Seq<char> {
    s.map_values(|c: char| if c == from { to } else { c })
}

/// `str::replace` of one character by another ([`replace_char`]).
pub fn replace_chars(t: &str, from: char, to: char) -> (r: String)
    ensures
        r@ == replace_char(t@, from, to),
{
    let v = chars_of(t);
    let mut s = String::new();
    for i in 0..v.len()
        invariant
            s@ == replace_char(v@.take(i as int), from, to),
    {
        let c = v[i];
        push_char(&mut s, if c == from { to } else { c });
        assert(replace_char(v@.take(i + 1), from, to) =~= replace_char(v@.take(i as int), from, to).push(
            if c == from { to } else { c }));
    }
    assert(v@.take(v@.len() as int) =~= v@);
    s
}

/// A `String` holding exactly the characters of `v`.
pub fn string_of(v: &Vec<char>) -> (s: String)
    ensures
        s@ == v@,
{
    let mut s = String::new();
    for i in 0..v.len()
        invariant
            s@ == v@.take(i as int),
    {
        push_char(&mut s, v[i]);
        assert(v@.take(i as int).push(v@[i as int]) =~= v@.take(i + 1));
    }
    assert(v@.take(v@.len() as int) =~= v@);
    s
}

/// Whether two character vectors hold the same characters.
pub fn chars_eq(a: &Vec<char>, b: &Vec<char>) -> (r: bool)
    ensures
        r == (a@ == b@),
{
    if a.len() != b.len() {
        return false;
    }
    for i in 0..a.len()
        invariant
            a@.len() == b@.len(),
            forall|j: int| 0 <= j < i ==> a@[j] == b@[j],
    {
        if a[i] != b[i] {
            return false;
        }
    }
    assert(a@ =~= b@);
    true
}

/// Whether `a` and `b` hold the same text.
pub fn str_eq(a: &str, b: &str) -> (r: bool)
    ensures
        r == (a@ == b@),
{
    let va = chars_of(a);
    let vb = chars_of(b);
    chars_eq(&va, &vb)
}

/// `s` contains `pat` as a contiguous piece.
pub open spec fn contains_seq(s: Seq<char>, pat: Seq<char>) -> bool {
    exists|i: int| 0 <= i <= s.len() - pat.len() && #[trigger] s.subrange(i, i + pat.len()) == pat
}

/// Whether `pat` occurs in `s` starting at position `i`.
pub fn occurs_at(s: &Vec<char>, pat: &Vec<char>, i: usize) -> (r: bool)
    requires
        i <= s@.len(),
    ensures
        r == (i + pat@.len() <= s@.len() && s@.subrange(i as int, i + pat@.len()) == pat@),
{
    if pat.len() > s.len() - i {
        return false;
    }
    for j in 0..pat.len()
        invariant
            i + pat@.len() <= s@.len(),
            s@.len() <= usize::MAX,
            forall|k: int| 0 <= k < j ==> s@[i + k] == pat@[k],
    {
        if s[i + j] != pat[j] {
            return false;
        }
    }
    assert(s@.subrange(i as int, i + pat@.len()) =~= pat@);
    true
}

/// Whether `pat` occurs anywhere in `s`.
pub fn contains_chars(s: &Vec<char>, pat: &Vec<char>) -> (r: bool)
    ensures
        r == contains_seq(s@, pat@),
{
    if pat.len() > s.len() {
        return false;
    }
    let last = s.len() - pat.len();
    let mut i: usize = 0;
    loop
        invariant
            last == s@.len() - pat@.len(),
            i <= last,
            forall|k: int| 0 <= k < i ==> #[trigger] s@.subrange(k, k + pat@.len()) != pat@,
        decreases last - i,
    {
        if occurs_at(s, pat, i) {
            return true;
        }
        if i == last {
            return false;
        }
        i += 1;
    }
}

/// Whether `pat` occurs anywhere in the text `s`.
pub fn str_contains(s: &str, pat: &str) -> (r: bool)
    ensures
        r == contains_seq(s@, pat@),
{
    let vs = chars_of(s);
    let vp = chars_of(pat);
    contains_chars(&vs, &vp)
}

/// The scan that splits text at `sep`: finished pieces and the piece being read.
pub open spec fn split_scan(s: Seq<char>, sep: char) -> (Seq<Seq<char>>, Seq<char>)
    decreases s.len(),
{
    if s.len() == 0 {
        (Seq::empty(), Seq::empty())
    } else {
        let st = split_scan(s.drop_last(), sep);
        if s.last() == sep {
            (st.0.push(st.1), Seq::empty())
        } else {
            (st.0, st.1.push(s.last()))
        }
    }
}

/// The pieces of `s` between occurrences of `sep` (empty pieces kept), as
/// `str::split` gives them.
pub open spec fn split_seq(s: Seq<char>, sep: char) -> Seq<Seq<char>> {
    let st = split_scan(s, sep);
    st.0.push(st.1)
}

/// Splits `s` at every `sep` ([`split_seq`]).
pub fn split_chars(s: &Vec<char>, sep: char) -> (r: Vec<Vec<char>>)
    ensures
        r@.map_values(|v: Vec<char>| v@) == split_seq(s@, sep),
        r@.len() >= 1,
{
    let mut done: Vec<Vec<char>> = Vec::new();
    let mut cur: Vec<char> = Vec::new();
    for i in 0..s.len()
        invariant
            (done@.map_values(|v: Vec<char>| v@), cur@) == split_scan(s@.take(i as int), sep),
    {
        let c = s[i];
        proof {
            assert(s@.take(i + 1).drop_last() =~= s@.take(i as int));
            assert(s@.take(i + 1).last() == c);
        }
        if c == sep {
            let piece = cur;
            done.push(piece);
            cur = Vec::new();
        } else {
            cur.push(c);
        }
        proof {
            assert(done@.map_values(|v: Vec<char>| v@) =~= split_scan(s@.take(i + 1), sep).0);
        }
    }
    assert(s@.take(s@.len() as int) =~= s@);
    done.push(cur);
    assert(done@.map_values(|v: Vec<char>| v@) =~= split_seq(s@, sep));
    done
}

/// The ASCII lowercase of a character: `A`-`Z` become `a`-`z`, every other
/// character stays.
pub open spec fn ascii_lower_char(c: char) -> char {
    if 'A' <= c && c <= 'Z' {
        ((c as u32) + 32) as char
    } else {
        c
    }
}

/// Every character of `s` below 128.
pub open spec fn all_ascii(s: Seq<char>) -> bool {
    forall|i: int| 0 <= i < s.len() ==> (#[trigger] s[i] as u32) < 128
}

/// What `str::to_lowercase` returns for text that is not all ASCII
/// (Unicode lowercase mapping).
pub uninterp spec fn unicode_lowercase(s: Seq<char>) -> Seq<char>;

/// The lowercase of a text: on ASCII text, `A`-`Z` become `a`-`z`; other
/// text goes by the Unicode mapping.
pub open spec fn lowercase(s: Seq<char>) -> Seq<char> {
    if all_ascii(s) {
        s.map_values(|c: char| ascii_lower_char(c))
    } else {
        unicode_lowercase(s)
    }
}

/// `str::to_lowercase`: the lowercase equivalent of `s`, by the Unicode
/// lowercase mapping. The contract states the result on ASCII text (where
/// the mapping is `A`-`Z` to `a`-`z`); on other text it is left to the name.
#[verifier::external_body]
pub fn to_lowercase(s: &str) -> (r: String)
    ensures
        r@ == lowercase(s@),
        !all_ascii(s@) ==> r@ == unicode_lowercase(s@),
{
    s.to_lowercase()
}

/// Whether `char::is_whitespace` holds for a character outside ASCII
/// (the Unicode property White_Space).
pub uninterp spec fn unicode_white_space(c: char) -> bool;

/// `char::is_whitespace`: on ASCII, exactly tab, line feed, vertical tab,
/// form feed, carriage return and space.
pub open spec fn is_white(c: char) -> bool {
    if (c as u32) < 128 {
        c == '\t' || c == '\n' || c == '\x0B' || c == '\x0C' || c == '\r' || c == ' '
    } else {
        unicode_white_space(c)
    }
}

/// `char::is_whitespace` (Unicode White_Space). Among ASCII characters the
/// contract names the six white-space characters; beyond ASCII it is left to
/// the name `unicode_white_space`.
#[verifier::external_body]
pub fn is_whitespace(c: char) -> (r: bool)
    ensures
        r == is_white(c),
        (c as u32) >= 128 ==> r == unicode_white_space(c),
{
    c.is_whitespace()
}

/// The position of the first non-white character at or after `from`, or the length.
pub open spec fn first_non_white(s: Seq<char>, from: int) -> int
    decreases s.len() - from,
{
    if from >= s.len() || !is_white(s[from]) {
        from
    } else {
        first_non_white(s, from + 1)
    }
}

/// The text `s` without leading and trailing white space, as `str::trim`
/// gives it.
pub open spec fn trim_seq(s: Seq<char>) -> Seq<char> {
    let a = first_non_white(s, 0);
    let rev = s.reverse();
    let b = s.len() - first_non_white(rev, 0);
    if a >= b {
        Seq::empty()
    } else {
        s.subrange(a, b)
    }
}

proof fn lemma_first_non_white(s: Seq<char>, from: int)
    requires
        0 <= from <= s.len(),
    ensures
        from <= first_non_white(s, from) <= s.len(),
        forall|k: int| from <= k < first_non_white(s, from) ==> is_white(#[trigger] s[k]),
        first_non_white(s, from) < s.len() ==> !is_white(s[first_non_white(s, from)]),
    decreases s.len() - from,
{
    if from < s.len() && is_white(s[from]) {
        lemma_first_non_white(s, from + 1);
    }
}

/// Removes leading and trailing white space ([`trim_seq`]).
pub fn trim_chars(v: &Vec<char>) -> (r: Vec<char>)
    ensures
        r@ == trim_seq(v@),
{
    let n = v.len();
    let mut a: usize = 0;
    while a < n
        invariant
            a <= n,
            n == v@.len(),
            first_non_white(v@, 0) == first_non_white(v@, a as int),
        ensures
            a <= n,
            first_non_white(v@, 0) == first_non_white(v@, a as int),
            a == n || !is_white(v@[a as int]),
        decreases n - a,
    {
        if !is_whitespace(v[a]) {
            break;
        }
        a += 1;
    }
    assert(first_non_white(v@, a as int) == a as int);
    let mut b: usize = n;
    let ghost rev = v@.reverse();
    while b > a
        invariant
            a <= b <= n,
            n == v@.len(),
            rev == v@.reverse(),
            first_non_white(v@, 0) == a,
            first_non_white(rev, 0) == first_non_white(rev, (n - b) as int),
        ensures
            a <= b <= n,
            first_non_white(rev, 0) == first_non_white(rev, (n - b) as int),
            b == a || !is_white(rev[(n - b) as int]),
        decreases b,
    {
        assert(rev[(n - b) as int] == v@[b - 1]);
        if !is_whitespace(v[b - 1]) {
            break;
        }
        b -= 1;
    }
    proof {
        lemma_first_non_white(rev, (n - b) as int);
        if b > a {
            assert(first_non_white(rev, (n - b) as int) == (n - b) as int);
        }
    }
    let mut r: Vec<char> = Vec::new();
    let mut i = a;
    while i < b
        invariant
            a <= i <= b <= n,
            n == v@.len(),
            r@ == v@.subrange(a as int, i as int),
        decreases b - i,
    {
        r.push(v[i]);
        assert(v@.subrange(a as int, i as int).push(v@[i as int]) =~= v@.subrange(a as int, i + 1));
        i += 1;
    }
    proof {
        if a >= b {
            assert(r@ =~= Seq::<char>::empty());
        }
    }
    r
}

/// `s` begins with `p`.
pub open spec fn starts_with(s: Seq<char>, p: Seq<char>) -> bool {
    p.len() <= s.len() && s.take(p.len() as int) == p
}

/// `s` ends with `p`.
pub open spec fn ends_with(s: Seq<char>, p: Seq<char>) -> bool {
    p.len() <= s.len() && s.skip(s.len() - p.len()) == p
}

/// Whether `t` holds `p` at position `i`.
pub fn has_at(t: &Vec<char>, i: usize, p: &str) -> (r: bool)
    requires
        i <= t@.len(),
    ensures
        r == starts_with(t@.skip(i as int), p@),
{
    let pv = chars_of(p);
    let r = occurs_at(t, &pv, i);
    proof {
        if i + pv@.len() <= t@.len() {
            assert(t@.skip(i as int).take(pv@.len() as int) =~= t@.subrange(i as int, i + pv@.len()));
        }
    }
    r
}

/// Whether the text ends with `p`.
pub fn ends_with_chars(t: &Vec<char>, p: &Vec<char>) -> (r: bool)
    ensures
        r == ends_with(t@, p@),
{
    if p.len() > t.len() {
        return false;
    }
    let start = t.len() - p.len();
    let r = occurs_at(t, p, start);
    proof {
        assert(t@.skip(start as int) =~= t@.subrange(start as int, start + p@.len()));
    }
    r
}

/// Whether the text `s` begins with `p`.
pub fn str_starts_with(s: &str, p: &str) -> (r: bool)
    ensures
        r == starts_with(s@, p@),
{
    let v = chars_of(s);
    let r = has_at(&v, 0, p);
    assert(v@.skip(0) =~= v@);
    r
}

/// The text of each string.
pub open spec fn texts_of(v: Seq<String>) -> Seq<Seq<char>> {
    v.map_values(|s: String| s@)
}

/// Whether the text `t` is among the strings.
pub fn texts_contain(list: &Vec<String>, t: &str) -> (r: bool)
    ensures
        r == texts_of(list@).contains(t@),
{
    for i in 0..list.len()
        invariant
            forall|j: int| 0 <= j < i ==> list@[j]@ != t@,
    {
        if str_eq(list[i].as_str(), t) {
            assert(texts_of(list@)[i as int] == t@);
            return true;
        }
    }
    proof {
        if texts_of(list@).contains(t@) {
            let j = choose|j: int| 0 <= j < texts_of(list@).len() && texts_of(list@)[j] == t@;
            assert(list@[j]@ == t@);
        }
    }
    false
}

} // verus!
