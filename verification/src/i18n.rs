//! The display language: its names, how a name given by the user is read,
//! and the setting that the first initialisation fixes.

use vstd::prelude::*;
use crate::text::{chars_of, to_lowercase, lowercase, trim_chars, trim_seq, str_eq, all_ascii, ascii_lower_char};

verus! {

/// A language pvm can speak.
#[derive(Debug, Clone, Copy, PartialEq, Eq, Structural)]
pub enum Language {
    English,
    Spanish,
}

/// The language that a lowercase name stands for.
pub open spec fn language_named(t: Seq<char>) -> Option<Language> {
    if t == "en"@ || t == "english"@ || t == "inglés"@ || t == "ingles"@ {
        Some(Language::English)
    } else if t == "es"@ || t == "español"@ || t == "espanol"@ || t == "spanish"@ {
        Some(Language::Spanish)
    } else {
        None
    }
}

pub open spec fn code_of(l: Language) -> Seq<char> {
    match l {
        Language::English => "en"@,
        Language::Spanish => "es"@,
    }
}

pub open spec fn display_name_of(l: Language) -> Seq<char> {
    match l {
        Language::English => "English"@,
        Language::Spanish => "Español"@,
    }
}

/// The language a file of the language setting holds: its trimmed content
/// read as a name, English when there is no file or the name is unknown.
pub open spec fn loaded_language(content: Option<Seq<char>>) -> Language {
    match content {
        None => Language::English,
        Some(c) => match language_named(lowercase(trim_seq(c))) {
            Some(l) => l,
            None => Language::English,
        },
    }
}

impl Language {
    /// The two-letter code, as stored in the settings file.
    pub fn code(self) -> (r: &'static str)
        ensures
            r@ == code_of(self),
    {
        match self {
            Language::English => "en",
            Language::Spanish => "es",
        }
    }

    /// The name of the language in itself.
    pub fn display_name(self) -> (r: &'static str)
        ensures
            r@ == display_name_of(self),
    {
        match self {
            Language::English => "English",
            Language::Spanish => "Español",
        }
    }

    /// Reads a language from a name that is already lowercase.
    pub fn from_lowercase(t: &str) -> (r: Option<Self>)
        ensures
            r == language_named(t@),
    {
        if str_eq(t, "en") || str_eq(t, "english") || str_eq(t, "inglés") || str_eq(t, "ingles") {
            Some(Language::English)
        } else if str_eq(t, "es") || str_eq(t, "español") || str_eq(t, "espanol") || str_eq(t, "spanish") {
            Some(Language::Spanish)
        } else {
            None
        }
    }

    /// Reads a language from a name given in any case: `en`, `english`,
    /// `inglés`, `ingles`, `es`, `español`, `espanol` or `spanish`.
    pub fn from_str(s: &str) -> (r: Option<Self>)
        ensures
            r == language_named(lowercase(s@)),
            all_ascii(s@) ==> r == language_named(s@.map_values(|c: char| ascii_lower_char(c))),
    {
        let lower = to_lowercase(s);
        Self::from_lowercase(lower.as_str())
    }

    /// All languages, in the order they are listed.
    pub fn all() -> (r: Vec<Language>)
        ensures
            r@ == seq![Language::English, Language::Spanish],
    {
        let mut v = Vec::new();
        v.push(Language::English);
        v.push(Language::Spanish);
        v
    }
}

/// The language setting of a run: empty until the first initialisation,
/// which later ones do not change.
pub struct LanguageCell {
    value: Option<Language>,
}

impl View for LanguageCell {
    type V = Option<Language>;

    closed spec fn view(&self) -> Option<Language> {
        self.value
    }
}

impl LanguageCell {
    /// A setting not yet initialised.
    pub fn new() -> (r: Self)
        ensures
            r@ is None,
    {
        LanguageCell { value: None }
    }
}

/// The setting after an initialisation with `lang`: the language set
/// before, if any; else `lang`.
pub open spec fn initialized(c: Option<Language>, lang: Language) -> Option<Language> {
    match c {
        Some(l) => Some(l),
        None => Some(lang),
    }
}

/// The language in use under a setting: the one set, or English.
pub open spec fn language_in_use(c: Option<Language>) -> Language {
    match c {
        Some(l) => l,
        None => Language::English,
    }
}

/// Sets the language, unless it was already set.
pub fn init(cell: &mut LanguageCell, lang: Language)
    ensures
        final(cell)@ == initialized(old(cell)@, lang),
{
    if cell.value.is_none() {
        cell.value = Some(lang);
    }
}

/// The language in use: the one set, or English.
pub fn current(cell: &LanguageCell) -> (r: Language)
    ensures
        r == language_in_use(cell@),
{
    match cell.value {
        Some(l) => l,
        None => Language::English,
    }
}

/// The language stored in the settings file, given its content (`None`
/// when it could not be read): the trimmed content read as a name, English
/// when it is unknown.
pub fn load(content: Option<&str>) -> (r: Language)
    ensures
        r == loaded_language(match content { Some(c) => Some(c@), None => None }),
{
    match content {
        None => Language::English,
        Some(c) => {
            let v = chars_of(c);
            let t = trim_chars(&v);
            let ts = crate::text::string_of(&t);
            match Language::from_str(ts.as_str()) {
                Some(l) => l,
                None => Language::English,
            }
        },
    }
}

/// The first initialisation decides: on a fresh setting, after
/// initialising with `first` and then with `second`, the language in use is
/// `first`; and an initialisation of a setting already made changes nothing.
pub proof fn lemma_first_init_wins(c: Option<Language>, first: Language, second: Language)
    ensures
        language_in_use(initialized(initialized(None, first), second)) == first,
        initialized(initialized(c, first), second) == initialized(c, first),
{
}

/// Whatever language is stored, reading the file back gives it.
pub proof fn lemma_load_saved(l: Language)
    ensures
        loaded_language(Some(code_of(l))) == l,
{
    reveal_strlit("en");
    reveal_strlit("es");
    let c = code_of(l);
    assert(c.len() == 2);
    assert(!crate::text::is_white(c[0]));
    assert(!crate::text::is_white(c[1]));
    assert(crate::text::first_non_white(c, 0) == 0);
    assert(c.reverse()[0] == c[1]);
    assert(crate::text::first_non_white(c.reverse(), 0) == 0);
    assert(trim_seq(c) =~= c);
    assert(all_ascii(c));
    assert(lowercase(c) =~= c);
    reveal_strlit("english");
    reveal_strlit("inglés");
    reveal_strlit("ingles");
    match l {
        Language::English => {
            assert(language_named(c) == Some(Language::English));
        },
        Language::Spanish => {
            assert(c[1] != "en"@[1]);
            assert(c != "en"@);
            assert(language_named(c) == Some(Language::Spanish));
        },
    }
}

/// Language names read back through `Language::from_str` (which reads
/// `language_named` of the lowercase text): each language's code, and its
/// names written in ASCII (English's display name among them), in lowercase
/// or uppercase, are read as that language. (Spanish's display name, `Español`, goes
/// through the Unicode lowercase mapping, which is left to its name.)
pub proof fn lemma_language_names(l: Language)
    ensures
        language_named(lowercase(code_of(l))) == Some(l),
        language_named(lowercase(display_name_of(Language::English))) == Some(Language::English),
        language_named(lowercase("EN"@)) == Some(Language::English),
        language_named(lowercase("ENGLISH"@)) == Some(Language::English),
        language_named(lowercase("ES"@)) == Some(Language::Spanish),
        language_named(lowercase("SPANISH"@)) == Some(Language::Spanish),
        language_named(lowercase("ESPANOL"@)) == Some(Language::Spanish),
{
    reveal_strlit("en");
    reveal_strlit("es");
    reveal_strlit("English");
    reveal_strlit("english");
    reveal_strlit("EN");
    reveal_strlit("ENGLISH");
    reveal_strlit("ES");
    reveal_strlit("SPANISH");
    reveal_strlit("spanish");
    reveal_strlit("ESPANOL");
    reveal_strlit("espanol");
    reveal_strlit("inglés");
    reveal_strlit("ingles");
    reveal_strlit("español");
    assert(lowercase("en"@) =~= "en"@);
    assert(lowercase("es"@) =~= "es"@);
    assert(lowercase("English"@) =~= "english"@);
    assert(lowercase("EN"@) =~= "en"@);
    assert(lowercase("ENGLISH"@) =~= "english"@);
    assert(lowercase("ES"@) =~= "es"@);
    assert(lowercase("SPANISH"@) =~= "spanish"@);
    assert(lowercase("ESPANOL"@) =~= "espanol"@);
    assert("es"@ != "en"@) by {
        assert("es"@[1] != "en"@[1]);
    }
    assert("spanish"@ != "english"@) by {
        assert("spanish"@[0] != "english"@[0]);
    }
    assert("espanol"@ != "english"@) by {
        assert("espanol"@[1] != "english"@[1]);
    }
    assert("espanol"@ != "inglés"@) by {
        assert("espanol"@[0] != "inglés"@[0]);
    }
    assert("espanol"@ != "ingles"@) by {
        assert("espanol"@[0] != "ingles"@[0]);
    }
    assert("espanol"@ != "en"@) by {
        assert("espanol"@.len() != "en"@.len());
    }
}

} // verus!
