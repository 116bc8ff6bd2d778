//! `pvm list`: the installed versions, in order, the active one marked.

use vstd::prelude::*;
use crate::paths::{file_name, file_name_of};
use crate::text::{str_eq, texts_of};
use crate::versions::{text_lt, text_less, lemma_text_lt_irreflexive, lemma_text_lt_asymmetric,
    lemma_text_lt_transitive, lemma_text_lt_total};

verus! {

/// In text order, as `sort` on strings orders them.
pub open spec fn sorted_texts(s: Seq<Seq<char>>) -> bool {
    forall|i: int, j: int| 0 <= i < j < s.len() ==> !text_lt(#[trigger] s[j], #[trigger] s[i])
}

fn insert_sorted(r: &mut Vec<String>, x: String)
    requires
        sorted_texts(texts_of(old(r)@)),
    ensures
        sorted_texts(texts_of(final(r)@)),
        texts_of(final(r)@).to_multiset() == texts_of(old(r)@).to_multiset().insert(x@),
{
    let ghost old_names = texts_of(r@);
    let mut k: usize = 0;
    while k < r.len()
        invariant
            k <= r@.len(),
            texts_of(r@) == old_names,
            forall|i: int| 0 <= i < k ==> !text_lt(x@, #[trigger] old_names[i]),
        ensures
            k <= r@.len(),
            texts_of(r@) == old_names,
            forall|i: int| 0 <= i < k ==> !text_lt(x@, #[trigger] old_names[i]),
            k < r@.len() ==> text_lt(x@, old_names[k as int]),
        decreases r@.len() - k,
    {
        assert(old_names[k as int] == r@[k as int]@);
        if text_less(x.as_str(), r[k].as_str()) {
            break;
        }
        k += 1;
    }
    let ghost xv = x@;
    r.insert(k, x);
    proof {
        let n = texts_of(r@);
        assert(n =~= old_names.insert(k as int, xv));
        assert forall|i: int, j: int| 0 <= i < j < n.len() implies !text_lt(#[trigger] n[j], #[trigger] n[i]) by {
            if i < k && j == k {
            } else if i == k && j > k {
                // n[j] = old[j-1] >= old[k] > x
                lemma_text_lt_total(old_names[j - 1], old_names[k as int]);
                lemma_text_lt_asymmetric(old_names[j - 1], xv);
                if text_lt(old_names[j - 1], xv) {
                    if old_names[j - 1] == old_names[k as int] {
                        lemma_text_lt_asymmetric(xv, old_names[k as int]);
                    } else {
                        if k < j - 1 {
                            assert(!text_lt(old_names[j - 1], old_names[k as int]));
                        }
                        lemma_text_lt_transitive(old_names[k as int], old_names[j - 1], xv);
                        lemma_text_lt_asymmetric(xv, old_names[k as int]);
                    }
                }
            } else if i < k && j > k {
                assert(n[j] == old_names[j - 1]);
            } else if i > k {
                assert(n[i] == old_names[i - 1]);
                assert(n[j] == old_names[j - 1]);
            }
        }
        vstd::seq_lib::to_multiset_insert(old_names, k as int, xv);
    }
}

/// The strings in text order (as `Vec::sort` orders them).
pub fn sort_texts(v: Vec<String>) -> (r: Vec<String>)
    ensures
        sorted_texts(texts_of(r@)),
        texts_of(r@).to_multiset() == texts_of(v@).to_multiset(),
{
    let ghost orig = texts_of(v@);
    let mut v = v;
    let mut r: Vec<String> = Vec::new();
    proof {
        assert(texts_of(r@) =~= Seq::<Seq<char>>::empty());
        assert(texts_of(r@).to_multiset() =~= vstd::multiset::Multiset::empty()) by {
            broadcast use vstd::seq_lib::group_to_multiset_ensures;
        }
    }
    while v.len() > 0
        invariant
            sorted_texts(texts_of(r@)),
            texts_of(r@).to_multiset().add(texts_of(v@).to_multiset()) == orig.to_multiset(),
        decreases v@.len(),
    {
        let ghost before = texts_of(v@);
        let x = v.pop().unwrap();
        proof {
            assert(before =~= texts_of(v@).push(x@));
            vstd::seq_lib::to_multiset_build(texts_of(v@), x@);
        }
        let ghost rb = texts_of(r@);
        insert_sorted(&mut r, x);
        proof {
            assert(texts_of(r@).to_multiset().add(texts_of(v@).to_multiset())
                =~= rb.to_multiset().add(before.to_multiset()));
        }
    }
    proof {
        assert(texts_of(v@) =~= Seq::<Seq<char>>::empty());
        assert(texts_of(v@).to_multiset() =~= vstd::multiset::Multiset::empty()) by {
            broadcast use vstd::seq_lib::group_to_multiset_ensures;
        }
        assert(texts_of(r@).to_multiset() =~= texts_of(r@).to_multiset().add(vstd::multiset::Multiset::empty()));
    }
    r
}

/// The active version: the last component of the path that the alias
/// `current` points to (`target`), or `None` when there is no alias.
pub fn current_version(target: Option<&str>, windows: bool) -> (r: Option<String>)
    ensures
        match target {
            None => r is None,
            Some(t) => match r {
                Some(n) => file_name_of(t@, windows) == Some(n@),
                None => file_name_of(t@, windows) is None,
            },
        },
{
    match target {
        None => None,
        Some(t) => file_name(t, windows),
    }
}

/// One line of `pvm list`.
pub struct ListedVersion {
    pub name: String,
    pub active: bool,
}

/// `pvm list`: the installed versions (the names of the directories under
/// `versions`) in text order, the one equal to `current` marked active.
pub fn run(installed: Vec<String>, current: Option<&str>) -> (r: Vec<ListedVersion>)
    ensures
        ({
            let shown = r@.map_values(|l: ListedVersion| l.name@);
            &&& sorted_texts(shown)
            &&& shown.to_multiset() == texts_of(installed@).to_multiset()
            &&& forall|i: int| 0 <= i < r@.len() ==>
                (#[trigger] r@[i]).active == (match current { Some(c) => c@ == r@[i].name@, None => false })
        }),
{
    let sorted = sort_texts(installed);
    let ghost sn = texts_of(sorted@);
    let mut out: Vec<ListedVersion> = Vec::new();
    let mut sorted = sorted;
    let mut rest: Vec<String> = Vec::new();
    // Take the names off the end, then put the lines back in order.
    while sorted.len() > 0
        invariant
            sn.len() == sorted@.len() + rest@.len(),
            texts_of(sorted@) == sn.take(sorted@.len() as int),
            forall|i: int| 0 <= i < rest@.len() ==> #[trigger] rest@[i]@ == sn[sn.len() - 1 - i],
        decreases sorted@.len(),
    {
        let ghost before = sorted@;
        let x = sorted.pop().unwrap();
        proof {
            assert(x@ == texts_of(before)[before.len() - 1]);
            assert(texts_of(before)[before.len() - 1] == sn[before.len() - 1]);
            assert(texts_of(sorted@) =~= sn.take(sorted@.len() as int));
        }
        rest.push(x);
    }
    let n = rest.len();
    let mut i: usize = n;
    while i > 0
        invariant
            i <= n,
            n == rest@.len(),
            n == sn.len(),
            forall|k: int| 0 <= k < rest@.len() ==> #[trigger] rest@[k]@ == sn[sn.len() - 1 - k],
            out@.len() == n - i,
            forall|k: int| 0 <= k < out@.len() ==> (#[trigger] out@[k]).name@ == sn[k]
                && out@[k].active == (match current { Some(c) => c@ == sn[k], None => false }),
        decreases i,
    {
        i -= 1;
        let name = rest[i].clone();
        let active = match current {
            Some(c) => str_eq(c, name.as_str()),
            None => false,
        };
        out.push(ListedVersion { name, active });
    }
    proof {
        let shown = out@.map_values(|l: ListedVersion| l.name@);
        assert(shown =~= sn);
    }
    out
}

} // verus!
