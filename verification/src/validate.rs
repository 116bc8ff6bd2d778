//! Checks on user input that guard the file system: version strings and
//! paths that must stay inside pvm's directories.

use vstd::prelude::*;
use crate::paths::{within, is_within, has_root, pieces, no_parent_piece, is_sep, close_piece, parent_dir,
    lemma_pieces_no_sep};
use crate::text::{chars_of, split_chars, split_seq, split_scan};
use crate::error::PvmError;

verus! {

/// Whether the `regex` crate's class `\d` (Unicode decimal digits, general
/// category Nd) holds a character outside ASCII.
pub uninterp spec fn unicode_decimal_digit(c: char) -> bool;

/// What the class `\d` matches: the ASCII digits, and outside ASCII the
/// Unicode decimal digits.
pub open spec fn is_regex_digit(c: char) -> bool {
    if (c as u32) < 128 {
        '0' <= c && c <= '9'
    } else {
        unicode_decimal_digit(c)
    }
}

/// Whether `c` is matched by `\d` in the `regex` crate (`Regex::is_match`
/// on the one-character text). The contract states that among ASCII
/// characters exactly the digits `0`-`9` are in the class; which characters
/// beyond ASCII are in it is left to the name `unicode_decimal_digit`.
#[verifier::external_body]
fn regex_digit(c: char) -> (r: bool)
    ensures
        r == is_regex_digit(c),
        (c as u32) >= 128 ==> r == unicode_decimal_digit(c),
{
    let mut buf = [0u8; 4];
    regex::Regex::new(r"^\d$").unwrap().is_match(c.encode_utf8(&mut buf))
}

/// Whether `c` is matched by `\d` ([`is_regex_digit`]).
pub fn regex_digit_of(c: char) -> (r: bool)
    ensures
        r == is_regex_digit(c),
{
    regex_digit(c)
}

/// A run of `\d` characters whose length lies in `min..=max`.
pub open spec fn digit_run(s: Seq<char>, min: nat, max: nat) -> bool {
    min <= s.len() <= max && forall|i: int| 0 <= i < s.len() ==> is_regex_digit(#[trigger] s[i])
}

/// `s` is `n` runs of `\d` separated by `.`, each run of length `1..=max`:
/// the text of the pattern `^\d{1,max}(\.\d{1,max}){n-1}$`.
pub open spec fn dotted_digits(s: Seq<char>, n: nat, max: nat) -> bool {
    let g = split_seq(s, '.');
    g.len() == n && forall|k: int| 0 <= k < g.len() ==> digit_run(#[trigger] g[k], 1, max)
}

/// A version in the form `X.Y.Z`, each part one to three digits
/// (the pattern `^\d{1,3}\.\d{1,3}\.\d{1,3}$`).
pub open spec fn is_version(s: Seq<char>) -> bool {
    dotted_digits(s, 3, 3)
}

/// The first piece of a split begins the text.
pub proof fn lemma_first_piece_is_prefix(s: Seq<char>, sep: char)
    ensures
        ({
            let st = split_scan(s, sep);
            if st.0.len() == 0 {
                st.1 == s
            } else {
                st.0[0].len() <= s.len() && s.subrange(0, st.0[0].len() as int) == st.0[0]
            }
        }),
    decreases s.len(),
{
    if s.len() > 0 {
        let p = s.drop_last();
        lemma_first_piece_is_prefix(p, sep);
        let st = split_scan(p, sep);
        if st.0.len() == 0 {
            assert(s =~= p.push(s.last()));
        } else {
            assert(s.subrange(0, st.0[0].len() as int) =~= p.subrange(0, st.0[0].len() as int));
        }
    }
}

/// Every character is matched by `\d`.
pub open spec fn all_regex_digits(p: Seq<char>) -> bool {
    forall|j: int| 0 <= j < p.len() ==> is_regex_digit(#[trigger] p[j])
}

/// When every piece of the split at `.` is made of `\d` characters, every
/// character of the text is one of those or a dot.
proof fn lemma_digit_pieces(s: Seq<char>)
    requires
        forall|k: int| 0 <= k < split_scan(s, '.').0.len() ==> all_regex_digits(#[trigger] split_scan(s, '.').0[k]),
        all_regex_digits(split_scan(s, '.').1),
    ensures
        forall|i: int| 0 <= i < s.len() ==> is_regex_digit(#[trigger] s[i]) || s[i] == '.',
    decreases s.len(),
{
    if s.len() > 0 {
        let p = s.drop_last();
        let st = split_scan(p, '.');
        if s.last() == '.' {
            assert(split_scan(s, '.').0 == st.0.push(st.1));
            assert forall|k: int| 0 <= k < st.0.len() implies all_regex_digits(#[trigger] st.0[k]) by {
                assert(split_scan(s, '.').0[k] == st.0[k]);
            }
            assert(split_scan(s, '.').0[st.0.len() as int] == st.1);
        } else {
            assert(split_scan(s, '.').1 == st.1.push(s.last()));
            assert forall|j: int| 0 <= j < st.1.len() implies is_regex_digit(#[trigger] st.1[j]) by {
                assert(split_scan(s, '.').1[j] == st.1[j]);
            }
            assert(split_scan(s, '.').1[st.1.len() as int] == s.last());
        }
        lemma_digit_pieces(p);
        assert forall|i: int| 0 <= i < s.len() implies is_regex_digit(#[trigger] s[i]) || s[i] == '.' by {
            if i < p.len() {
                assert(s[i] == p[i]);
            }
        }
    }
}

/// A version is a plain name: it does not start at the root and has no
/// separator, so it is one piece, which is not `..`.
pub proof fn lemma_version_is_relative(v: Seq<char>, windows: bool)
    requires
        is_version(v),
    ensures
        !has_root(v, windows),
        v.len() > 0,
        pieces(v, windows) == seq![v],
        no_parent_piece(pieces(v, windows)),
{
    lemma_first_piece_is_prefix(v, '.');
    let st = split_scan(v, '.');
    let g = split_seq(v, '.');
    assert(digit_run(g[0], 1, 3));
    assert(is_regex_digit(g[0][0]));
    if st.0.len() == 0 {
        assert(g[0] == st.1);
    } else {
        assert(g[0] == st.0[0]);
        assert(v[0] == v.subrange(0, g[0].len() as int)[0]);
    }
    assert(v[0] == g[0][0]);
    assert(('/' as u32) < 128);
    assert(('\\' as u32) < 128);
    assert(('.' as u32) < 128);
    assert forall|k: int| 0 <= k < st.0.len() implies all_regex_digits(#[trigger] st.0[k]) by {
        assert(g[k] == st.0[k]);
        assert(digit_run(g[k], 1, 3));
    }
    assert(g[st.0.len() as int] == st.1);
    assert(digit_run(g[st.0.len() as int], 1, 3));
    lemma_digit_pieces(v);
    assert forall|i: int| 0 <= i < v.len() implies !is_sep(#[trigger] v[i], windows) by {
        assert(is_regex_digit(v[i]) || v[i] == '.');
        if (v[i] as u32) >= 128 {
            assert(v[i] != '/' && v[i] != '\\');
        }
    }
    lemma_pieces_no_sep(v, windows);
    assert(v != seq!['.']);
    assert(v != parent_dir());
    assert(close_piece(Seq::empty(), v) =~= seq![v]);
}

/// Whether every character of `v` is a digit and its length lies in `min..=max`.
pub fn is_digit_run(v: &Vec<char>, min: usize, max: usize) -> (r: bool)
    ensures
        r == digit_run(v@, min as nat, max as nat),
{
    if v.len() < min || v.len() > max {
        return false;
    }
    for i in 0..v.len()
        invariant
            forall|j: int| 0 <= j < i ==> is_regex_digit(#[trigger] v@[j]),
    {
        if !regex_digit(v[i]) {
            return false;
        }
    }
    true
}

/// Whether `s` is `n` dot-separated digit runs of length `1..=max` ([`dotted_digits`]).
pub fn is_dotted_digits(s: &Vec<char>, n: usize, max: usize) -> (r: bool)
    ensures
        r == dotted_digits(s@, n as nat, max as nat),
{
    let groups = split_chars(s, '.');
    let ghost g = groups@.map_values(|v: Vec<char>| v@);
    if groups.len() != n {
        assert(g.len() == groups@.len());
        return false;
    }
    for k in 0..groups.len()
        invariant
            g == groups@.map_values(|v: Vec<char>| v@),
            g == split_seq(s@, '.'),
            g.len() == n,
            forall|j: int| 0 <= j < k ==> digit_run(#[trigger] g[j], 1, max as nat),
    {
        if !is_digit_run(&groups[k], 1, max) {
            assert(g[k as int] == groups@[k as int]@);
            assert(!digit_run(g[k as int], 1, max as nat));
            assert(!dotted_digits(s@, n as nat, max as nat));
            return false;
        }
    }
    true
}

/// Validates that a version string strictly matches `X.Y.Z` (one to three
/// digits each). This blocks path traversal, URL injection and command
/// injection through version arguments.
pub fn version(v: &str) -> (r: Result<(), PvmError>)
    ensures
        match r {
            Ok(_) => is_version(v@),
            Err(PvmError::InvalidVersion(s)) => !is_version(v@) && s@ == v@,
            Err(_) => false,
        },
{
    let s = chars_of(v);
    if is_dotted_digits(&s, 3, 3) {
        Ok(())
    } else {
        Err(PvmError::InvalidVersion(v.to_owned()))
    }
}

/// Verifies that `child` is contained within `parent` (defense in depth
/// against path traversal): the components of `parent` begin those of
/// `child`, and no `..` follows them.
pub fn path_within(parent: &str, child: &str, windows: bool) -> (r: Result<(), PvmError>)
    ensures
        r is Ok <==> within(parent@, child@, windows),
        r is Err ==> r == Err::<(), PvmError>(PvmError::OutsideDirectory),
{
    if is_within(parent, child, windows) {
        Ok(())
    } else {
        Err(PvmError::OutsideDirectory)
    }
}

} // verus!
