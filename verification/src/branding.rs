//! What the help screen lists: the commands with their descriptions in each
//! language, and the column that aligns them.

use vstd::prelude::*;
use crate::i18n::Language;
use crate::text::push_str;

verus! {

/// The commands that the help screen lists, with their description in the
/// language `l`.
pub open spec fn help_entries_of(l: Language) -> Seq<(Seq<char>, Seq<char>)> {
    match l {
        Language::English => seq![
            ("install <version>"@, "Download and install a Python version"@),
            ("use <version>"@, "Switch the active version"@),
            ("list"@, "List installed versions"@),
            ("list-remote"@, "List available versions from python.org"@),
            ("uninstall <version>"@, "Remove an installed version"@),
            ("default <version>"@, "Set the global default version"@),
            ("env"@, "Configure the current shell's PATH"@),
            ("venv <dir>"@, "Create a virtual environment with the active version"@),
        ],
        Language::Spanish => seq![
            ("install <version>"@, "Descarga e instala una versión de Python"@),
            ("use <version>"@, "Cambia la versión activa"@),
            ("list"@, "Lista las versiones instaladas"@),
            ("list-remote"@, "Lista versiones disponibles en python.org"@),
            ("uninstall <version>"@, "Elimina una versión instalada"@),
            ("default <version>"@, "Establece la versión global por defecto"@),
            ("env"@, "Configura el PATH del shell actual"@),
            ("venv <dir>"@, "Crea un entorno virtual con la versión activa"@),
        ],
    }
}

/// The text of each entry.
pub open spec fn entry_texts(v: Seq<(&str, &str)>) -> Seq<(Seq<char>, Seq<char>)> {
    v.map_values(|e: (&str, &str)| (e.0@, e.1@))
}

/// The commands of the help screen and their descriptions in `l`
/// ([`help_entries_of`]).
pub fn help_entries(l: Language) -> (r: Vec<(&'static str, &'static str)>)
    ensures
        entry_texts(r@) == help_entries_of(l),
{
    let mut v: Vec<(&'static str, &'static str)> = Vec::new();
    match l {
        Language::English => {
            v.push(("install <version>", "Download and install a Python version"));
            v.push(("use <version>", "Switch the active version"));
            v.push(("list", "List installed versions"));
            v.push(("list-remote", "List available versions from python.org"));
            v.push(("uninstall <version>", "Remove an installed version"));
            v.push(("default <version>", "Set the global default version"));
            v.push(("env", "Configure the current shell's PATH"));
            v.push(("venv <dir>", "Create a virtual environment with the active version"));
        },
        Language::Spanish => {
            v.push(("install <version>", "Descarga e instala una versión de Python"));
            v.push(("use <version>", "Cambia la versión activa"));
            v.push(("list", "Lista las versiones instaladas"));
            v.push(("list-remote", "Lista versiones disponibles en python.org"));
            v.push(("uninstall <version>", "Elimina una versión instalada"));
            v.push(("default <version>", "Establece la versión global por defecto"));
            v.push(("env", "Configura el PATH del shell actual"));
            v.push(("venv <dir>", "Crea un entorno virtual con la versión activa"));
        },
    }
    assert(entry_texts(v@) =~= help_entries_of(l));
    v
}

/// `n` spaces.
pub open spec fn spaces(n: nat) -> Seq<char> {
    Seq::new(n, |i: int| ' ')
}

/// `s` followed by as many spaces as make it `width` characters long (`s`
/// itself when it is that long already), as `format!("{:<w$}")` gives it.
pub open spec fn padded(s: Seq<char>, width: nat) -> Seq<char> {
    if s.len() >= width {
        s
    } else {
        s + spaces((width - s.len()) as nat)
    }
}

/// Pads `s` with spaces on the right to `width` characters ([`padded`]).
pub fn pad_right(s: &str, width: usize) -> (r: String)
    ensures
        r@ == padded(s@, width as nat),
{
    let mut r = String::new();
    push_str(&mut r, s);
    let n = s.unicode_len();
    assert(r@ == s@);
    let mut k = n;
    while k < width
        invariant
            n == s@.len(),
            n <= k,
            k <= width || n >= width,
            n >= width ==> k == n,
            r@ == s@ + spaces((k - n) as nat),
        decreases width - k,
    {
        crate::text::push_char(&mut r, ' ');
        assert(spaces((k + 1 - n) as nat) =~= spaces((k - n) as nat).push(' '));
        k = k + 1;
    }
    proof {
        if n >= width {
            assert(spaces(0) =~= Seq::<char>::empty());
            assert(s@ + spaces(0) =~= s@);
        }
    }
    r
}

} // verus!
