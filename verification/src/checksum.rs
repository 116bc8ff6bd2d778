//! The published SHA-256 digest of an installer: where it is, and how it is
//! read out of the file that holds it.

use vstd::prelude::*;
use crate::text::{chars_of, push_str};

verus! {

/// A character of the class `[a-f0-9]`.
pub open spec fn is_hex_lower(c: char) -> bool {
    ('0' <= c && c <= '9') || ('a' <= c && c <= 'f')
}

/// Sixty-four characters of `[a-f0-9]` start at position `i` of `s`.
pub open spec fn digest_at(s: Seq<char>, i: int) -> bool {
    &&& 0 <= i
    &&& i + 64 <= s.len()
    &&& forall|k: int| i <= k < i + 64 ==> #[trigger] is_hex_lower(s[k])
}

/// The address of the digest file published beside an installer.
pub fn sha256_url(installer_url: &str) -> (r: String)
    ensures
        r@ == installer_url@ + ".sha256"@,
{
    let mut s = String::new();
    push_str(&mut s, installer_url);
    push_str(&mut s, ".sha256");
    s
}

fn hex_lower(c: char) -> (r: bool)
    ensures
        r == is_hex_lower(c),
{
    ('0' <= c && c <= '9') || ('a' <= c && c <= 'f')
}

/// Whether a digest starts at position `i` ([`digest_at`]).
fn digest_starts(v: &Vec<char>, i: usize) -> (r: bool)
    requires
        i + 64 <= v@.len(),
    ensures
        r == digest_at(v@, i as int),
{
    let n = v.len();
    let mut k: usize = 0;
    while k < 64
        invariant
            k <= 64,
            i + 64 <= v@.len(),
            n == v@.len(),
            forall|m: int| i <= m < i + k ==> #[trigger] is_hex_lower(v@[m]),
        decreases 64 - k,
    {
        if !hex_lower(v[i + k]) {
            return false;
        }
        k = k + 1;
    }
    true
}

/// The first SHA-256 digest in the text of a digest file: the leftmost run
/// of sixty-four characters of `[a-f0-9]`; none when there is no such run.
pub fn find_sha256(content: &str) -> (r: Option<String>)
    ensures
        match r {
            Some(d) => exists|i: int|
                digest_at(content@, i) && (forall|j: int| 0 <= j < i ==> !digest_at(content@, j))
                    && d@ == content@.subrange(i, i + 64),
            None => forall|i: int| !digest_at(content@, i),
        },
{
    let v = chars_of(content);
    if v.len() < 64 {
        return None;
    }
    let last = v.len() - 64;
    let mut i: usize = 0;
    while i <= last
        invariant
            last + 64 == v@.len(),
            last + 64 <= usize::MAX,
            v@ == content@,
            forall|j: int| 0 <= j < i ==> !digest_at(v@, j),
        decreases last + 1 - i,
    {
        if digest_starts(&v, i) {
            let mut d = String::new();
            let mut k: usize = 0;
            while k < 64
                invariant
                    k <= 64,
                    i + 64 <= v@.len(),
                    v@.len() <= usize::MAX,
                    d@ == v@.subrange(i as int, i + k),
                decreases 64 - k,
            {
                crate::text::push_char(&mut d, v[i + k]);
                assert(v@.subrange(i as int, i + k + 1) =~= v@.subrange(i as int, i + k).push(v@[i + k]));
                k = k + 1;
            }
            return Some(d);
        }
        i = i + 1;
    }
    None
}

} // verus!
