//! `pvm lang`: the list of languages and the change of language.

use vstd::prelude::*;
use crate::error::PvmError;
use crate::i18n::{Language, language_named, display_name_of};
use crate::text::{lowercase, push_str};

verus! {

/// The languages, each marked when it is the current one.
pub fn run_list(current: Language) -> (r: Vec<(Language, bool)>)
    ensures
        r@ == seq![(Language::English, current == Language::English), (Language::Spanish, current == Language::Spanish)],
{
    let all = Language::all();
    let mut r = Vec::new();
    for i in 0..all.len()
        invariant
            all@ == seq![Language::English, Language::Spanish],
            r@ == all@.take(i as int).map_values(|l: Language| (l, current == l)),
    {
        let l = all[i];
        r.push((l, l == current));
        assert(all@.take(i + 1).map_values(|l: Language| (l, current == l))
            =~= all@.take(i as int).map_values(|l: Language| (l, current == l)).push((l, current == l)));
    }
    assert(r@ =~= seq![(Language::English, current == Language::English), (Language::Spanish, current == Language::Spanish)]);
    r
}

/// The language asked for by name, refused when the name is unknown.
pub fn run_change(lang_str: &str) -> (r: Result<Language, PvmError>)
    ensures
        match language_named(lowercase(lang_str@)) {
            Some(l) => r == Ok::<Language, PvmError>(l),
            None => r matches Err(PvmError::UnknownLanguage(s)) && s@ == lang_str@,
        },
{
    match Language::from_str(lang_str) {
        Some(l) => Ok(l),
        None => Err(PvmError::UnknownLanguage(lang_str.to_owned())),
    }
}

/// The confirmation shown after a change, in the new language.
pub open spec fn change_message_text(l: Language) -> Seq<char> {
    match l {
        Language::English => "Language set to "@ + display_name_of(l),
        Language::Spanish => "Idioma establecido: "@ + display_name_of(l),
    }
}

/// The confirmation shown after a change ([`change_message_text`]).
pub fn change_message(l: Language) -> (r: String)
    ensures
        r@ == change_message_text(l),
{
    let mut s = String::new();
    match l {
        Language::English => push_str(&mut s, "Language set to "),
        Language::Spanish => push_str(&mut s, "Idioma establecido: "),
    }
    push_str(&mut s, l.display_name());
    s
}

} // verus!
