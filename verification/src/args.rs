//! Rewriting of the command line before it reaches the argument parser.

use vstd::prelude::*;
use crate::text::{chars_of, string_of, str_eq, texts_of};
use crate::validate::{dotted_digits, is_dotted_digits};

verus! {

/// `a` is a version flag `-X.Y.Z`: a dash, then three dot-separated runs of
/// one or more digits (the pattern `^-(\d+\.\d+\.\d+)$`).
pub open spec fn is_version_flag(a: Seq<char>) -> bool {
    a.len() >= 1 && a[0] == '-' && dotted_digits(a.drop_first(), 3, a.len() as nat)
}

/// Whether `arg` is a version flag ([`is_version_flag`]).
pub fn version_flag(arg: &str) -> (r: bool)
    ensures
        r == is_version_flag(arg@),
{
    let a = chars_of(arg);
    if a.len() == 0 || a[0] != '-' {
        return false;
    }
    let mut rest: Vec<char> = Vec::new();
    for i in 1..a.len()
        invariant
            rest@ == a@.subrange(1, i as int),
    {
        rest.push(a[i]);
        assert(a@.subrange(1, i as int).push(a@[i as int]) =~= a@.subrange(1, i + 1));
    }
    assert(rest@ =~= a@.drop_first());
    is_dotted_digits(&rest, 3, a.len())
}

/// Extracts the first argument of the form `-X.Y.Z` and returns the version
/// and the remaining arguments. Allows `pvm -3.14.0 venv .venv` without the
/// argument parser seeing the version flag.
pub fn extract_version_prefix(args: Vec<String>) -> (r: (Option<String>, Vec<String>))
    ensures
        match r.0 {
            None => (forall|i: int| 0 <= i < args@.len() ==> !is_version_flag(#[trigger] args@[i]@))
                && r.1@ == args@,
            Some(v) => exists|i: int|
                0 <= i < args@.len() && is_version_flag(#[trigger] args@[i]@)
                && (forall|j: int| 0 <= j < i ==> !is_version_flag(#[trigger] args@[j]@))
                && v@ == args@[i]@.drop_first()
                && r.1@ == args@.remove(i),
        },
{
    let mut version: Option<String> = None;
    let mut cleaned: Vec<String> = Vec::new();
    let ghost mut found: int = 0;
    for i in 0..args.len()
        invariant
            match version {
                None => (forall|j: int| 0 <= j < i ==> !is_version_flag(#[trigger] args@[j]@))
                    && cleaned@ == args@.take(i as int),
                Some(v) => 0 <= found < i && is_version_flag(args@[found]@)
                    && (forall|j: int| 0 <= j < found ==> !is_version_flag(#[trigger] args@[j]@))
                    && v@ == args@[found]@.drop_first()
                    && cleaned@ == args@.take(i as int).remove(found),
            },
    {
        let arg = args[i].clone();
        if version.is_none() && version_flag(arg.as_str()) {
            let a = chars_of(arg.as_str());
            let mut rest: Vec<char> = Vec::new();
            for k in 1..a.len()
                invariant
                    rest@ == a@.subrange(1, k as int),
            {
                rest.push(a[k]);
                assert(a@.subrange(1, k as int).push(a@[k as int]) =~= a@.subrange(1, k + 1));
            }
            assert(rest@ =~= a@.drop_first());
            version = Some(string_of(&rest));
            proof {
                found = i as int;
                assert(args@.take(i + 1).remove(i as int) =~= args@.take(i as int));
            }
        } else {
            cleaned.push(arg);
            proof {
                match version {
                    None => {
                        assert(args@.take(i as int).push(args@[i as int]) =~= args@.take(i + 1));
                    },
                    Some(_) => {
                        assert(args@.take(i as int).remove(found).push(args@[i as int])
                            =~= args@.take(i + 1).remove(found));
                    },
                }
            }
        }
    }
    assert(args@.take(args@.len() as int) =~= args@);
    (version, cleaned)
}

/// The arguments with `-c` replaced by `change` wherever it follows `lang`.
pub open spec fn normalized_lang_args(args: Seq<Seq<char>>) -> Seq<Seq<char>> {
    Seq::new(
        args.len(),
        |i: int|
            if i > 0 && args[i - 1] == "lang"@ && args[i] == "-c"@ {
                "change"@
            } else {
                args[i]
            },
    )
}

/// Normalizes `pvm lang -c <lang>` to `pvm lang change <lang>` so the
/// argument parser sees the canonical subcommand instead of an unknown flag.
pub fn normalize_lang_args(args: Vec<String>) -> (r: Vec<String>)
    ensures
        texts_of(r@) == normalized_lang_args(texts_of(args@)),
{
    proof {
        reveal_strlit("lang");
        reveal_strlit("-c");
        reveal_strlit("change");
    }
    let ghost target = normalized_lang_args(texts_of(args@));
    let mut result: Vec<String> = Vec::with_capacity(args.len());
    for i in 0..args.len()
        invariant
            target == normalized_lang_args(texts_of(args@)),
            texts_of(result@) == target.take(i as int),
    {
        let arg = args[i].clone();
        let prev_is_lang = if result.len() > 0 {
            str_eq(result[result.len() - 1].as_str(), "lang")
        } else {
            false
        };
        proof {
            reveal_strlit("lang");
            reveal_strlit("-c");
            reveal_strlit("change");
            assert(texts_of(result@).len() == result@.len());
            if i > 0 {
                assert(texts_of(result@)[i - 1] == target[i - 1]);
                assert(result@[i - 1]@ == texts_of(result@)[i - 1]);
                assert(texts_of(args@)[i - 1] == args@[i - 1]@);
                assert("change"@[0] != "lang"@[0]);
                assert("change"@ != "lang"@);
                assert(prev_is_lang == (args@[i - 1]@ == "lang"@));
            }
        }
        if prev_is_lang && str_eq(arg.as_str(), "-c") {
            result.push("change".to_owned());
        } else {
            result.push(arg);
        }
        proof {
            assert(texts_of(result@) =~= target.take(i + 1));
        }
    }
    assert(target.take(args@.len() as int) =~= target);
    result
}

} // verus!
