//! `pvm uninstall-self`: what is removed from the user's shell profiles, and
//! how the confirmation is read.

use vstd::prelude::*;
use crate::text::{chars_of, contains_seq, contains_chars, split_chars, split_seq, trim_chars,
    trim_seq, string_of, push_char, push_str, to_lowercase, lowercase, str_eq};

verus! {

/// A line without its final carriage return, if it has one.
pub open spec fn strip_cr(l: Seq<char>) -> Seq<char> {
    if l.len() > 0 && l.last() == '\r' {
        l.drop_last()
    } else {
        l
    }
}

/// The lines of a text, as `str::lines` gives them: split at `\n`, a
/// final `\r` removed from each line that a `\n` ends, and no empty line
/// after a final `\n`.
pub open spec fn text_lines(s: Seq<char>) -> Seq<Seq<char>> {
    let p = split_seq(s, '\n');
    let ended = p.take(p.len() - 1).map_values(|l: Seq<char>| strip_cr(l));
    if p.last().len() == 0 {
        ended
    } else {
        ended.push(p.last())
    }
}

/// A line of pvm's: one that contains `pvm`.
pub open spec fn is_pvm_line(l: Seq<char>) -> bool {
    contains_seq(l, "pvm"@)
}

/// The lines kept, and whether a `rehash` line right after would be dropped.
pub type FilterState = (Seq<Seq<char>>, bool);

/// One step of the line filter: pvm's lines are dropped, and so is a
/// `rehash` line right after one.
pub open spec fn filter_step(st: FilterState, l: Seq<char>) -> FilterState {
    if is_pvm_line(l) {
        (st.0, true)
    } else if st.1 && trim_seq(l) == "rehash"@ {
        (st.0, false)
    } else {
        (st.0.push(l), false)
    }
}

/// The line filter over `ls`.
pub open spec fn filter_lines(ls: Seq<Seq<char>>) -> FilterState
    decreases ls.len(),
{
    if ls.len() == 0 {
        (Seq::empty(), false)
    } else {
        filter_step(filter_lines(ls.drop_last()), ls.last())
    }
}

/// The lines without the blank lines at their end.
pub open spec fn drop_trailing_blank(ls: Seq<Seq<char>>) -> Seq<Seq<char>>
    decreases ls.len(),
{
    if ls.len() > 0 && trim_seq(ls.last()).len() == 0 {
        drop_trailing_blank(ls.drop_last())
    } else {
        ls
    }
}

/// The lines joined by `\n`.
pub open spec fn join_lines(ls: Seq<Seq<char>>) -> Seq<char>
    decreases ls.len(),
{
    if ls.len() == 0 {
        Seq::empty()
    } else if ls.len() == 1 {
        ls[0]
    } else {
        join_lines(ls.drop_last()) + seq!['\n'] + ls.last()
    }
}

/// The profile text with pvm's lines removed: the lines that contain `pvm`
/// (and a `rehash` line right after one) are dropped, then the blank lines at the
/// end; the rest is joined by `\n`, with a final `\n` when the text had one.
pub open spec fn cleaned_profile(s: Seq<char>) -> Seq<char> {
    let body = join_lines(drop_trailing_blank(filter_lines(text_lines(s)).0));
    if s.len() > 0 && s.last() == '\n' {
        body.push('\n')
    } else {
        body
    }
}

/// Whether the line is one pvm added ([`is_pvm_line`]).
fn pvm_line(l: &Vec<char>) -> (r: bool)
    ensures
        r == is_pvm_line(l@),
{
    contains_chars(l, &chars_of("pvm"))
}

/// The lines of the text ([`text_lines`]).
fn lines_of(s: &Vec<char>) -> (r: Vec<Vec<char>>)
    ensures
        r@.map_values(|v: Vec<char>| v@) == text_lines(s@),
{
    let pieces = split_chars(s, '\n');
    let ghost p = pieces@.map_values(|v: Vec<char>| v@);
    let n = pieces.len();
    let mut out: Vec<Vec<char>> = Vec::new();
    for i in 0..n - 1
        invariant
            n == pieces@.len(),
            n >= 1,
            p == pieces@.map_values(|v: Vec<char>| v@),
            out@.map_values(|v: Vec<char>| v@) == p.take(i as int).map_values(|l: Seq<char>| strip_cr(l)),
    {
        let mut l: Vec<char> = Vec::new();
        let src = &pieces[i];
        let len = src.len();
        let keep = if len > 0 && src[len - 1] == '\r' { len - 1 } else { len };
        for k in 0..keep
            invariant
                keep <= src@.len(),
                l@ == src@.take(k as int),
        {
            l.push(src[k]);
            assert(src@.take(k as int).push(src@[k as int]) =~= src@.take(k + 1));
        }
        proof {
            assert(p[i as int] == src@);
            assert(l@ =~= strip_cr(src@));
        }
        let ghost before = out@.map_values(|v: Vec<char>| v@);
        let ghost lv = l@;
        out.push(l);
        proof {
            assert(p.take(i + 1).map_values(|l: Seq<char>| strip_cr(l))
                =~= p.take(i as int).map_values(|l: Seq<char>| strip_cr(l)).push(strip_cr(p[i as int])));
            assert(out@.map_values(|v: Vec<char>| v@) =~= before.push(lv));
            assert(out@.map_values(|v: Vec<char>| v@) =~= p.take(i + 1).map_values(|l: Seq<char>| strip_cr(l)));
        }
    }
    let last = &pieces[n - 1];
    assert(p.last() == last@);
    if last.len() > 0 {
        out.push(string_chars_clone(last));
    }
    assert(out@.map_values(|v: Vec<char>| v@) =~= text_lines(s@));
    out
}

/// A copy of a character vector.
fn string_chars_clone(v: &Vec<char>) -> (r: Vec<char>)
    ensures
        r@ == v@,
{
    let mut r: Vec<char> = Vec::new();
    for i in 0..v.len()
        invariant
            r@ == v@.take(i as int),
    {
        r.push(v[i]);
        assert(v@.take(i as int).push(v@[i as int]) =~= v@.take(i + 1));
    }
    assert(v@.take(v@.len() as int) =~= v@);
    r
}

/// Removes pvm's lines from the text of a shell profile
/// ([`cleaned_profile`]): the lines that contain `pvm`, and the `rehash`
/// line that follows one of them.
pub fn clean_shell_profile(content: &str) -> (r: String)
    ensures
        r@ == cleaned_profile(content@),
{
    let s = chars_of(content);
    let ends_with_newline = s.len() > 0 && s[s.len() - 1] == '\n';
    let lines = lines_of(&s);
    let ghost ls = lines@.map_values(|v: Vec<char>| v@);
    let mut kept: Vec<Vec<char>> = Vec::new();
    let mut skip_next_rehash = false;
    let rehash = chars_of("rehash");
    for i in 0..lines.len()
        invariant
            ls == lines@.map_values(|v: Vec<char>| v@),
            rehash@ == "rehash"@,
            (kept@.map_values(|v: Vec<char>| v@), skip_next_rehash) == filter_lines(ls.take(i as int)),
    {
        let line = &lines[i];
        proof {
            assert(ls.take(i + 1).drop_last() =~= ls.take(i as int));
            assert(ls.take(i + 1).last() == line@);
        }
        if pvm_line(line) {
            skip_next_rehash = true;
        } else if skip_next_rehash && crate::text::chars_eq(&trim_chars(line), &rehash) {
            skip_next_rehash = false;
        } else {
            skip_next_rehash = false;
            kept.push(string_chars_clone(line));
            proof {
                assert(kept@.map_values(|v: Vec<char>| v@) =~= filter_lines(ls.take(i + 1)).0);
            }
        }
    }
    proof {
        assert(ls.take(ls.len() as int) =~= ls);
    }
    // Drop the blank lines at the end.
    let ghost all_kept = kept@.map_values(|v: Vec<char>| v@);
    loop
        invariant
            drop_trailing_blank(kept@.map_values(|v: Vec<char>| v@)) == drop_trailing_blank(all_kept),
        ensures
            drop_trailing_blank(kept@.map_values(|v: Vec<char>| v@)) == drop_trailing_blank(all_kept),
            kept@.len() == 0 || trim_seq(kept@.last()@).len() > 0,
        decreases kept@.len(),
    {
        if kept.len() == 0 {
            break;
        }
        let blank = trim_chars(&kept[kept.len() - 1]).len() == 0;
        if !blank {
            assert(kept@.last() == kept@[kept@.len() - 1]);
            break;
        }
        let ghost before = kept@.map_values(|v: Vec<char>| v@);
        kept.pop();
        proof {
            assert(kept@.map_values(|v: Vec<char>| v@) =~= before.drop_last());
        }
    }
    let ghost final_lines = kept@.map_values(|v: Vec<char>| v@);
    proof {
        if final_lines.len() > 0 {
            assert(final_lines.last() == kept@.last()@);
        }
        assert(drop_trailing_blank(final_lines) == final_lines);
    }
    assert(final_lines == drop_trailing_blank(all_kept));
    // Join them.
    let mut out = String::new();
    for i in 0..kept.len()
        invariant
            final_lines == kept@.map_values(|v: Vec<char>| v@),
            out@ == join_lines(final_lines.take(i as int)),
    {
        if i > 0 {
            push_char(&mut out, '\n');
        }
        let piece = string_of(&kept[i]);
        push_str(&mut out, piece.as_str());
        proof {
            assert(final_lines.take(i + 1).drop_last() =~= final_lines.take(i as int));
            if i == 0 {
                assert(out@ =~= join_lines(final_lines.take(1)));
            }
        }
    }
    proof {
        assert(final_lines.take(final_lines.len() as int) =~= final_lines);
    }
    if ends_with_newline {
        push_char(&mut out, '\n');
    }
    out
}

/// The answers that confirm: `y`, `yes`, `s`, `si`, `sí`.
pub open spec fn is_yes(t: Seq<char>) -> bool {
    t == "y"@ || t == "yes"@ || t == "s"@ || t == "si"@ || t == "sí"@
}

/// Whether the answer to the confirmation prompt confirms: trimmed and in
/// lowercase it is one of [`is_yes`].
pub fn is_confirmation(input: &str) -> (r: bool)
    ensures
        r == is_yes(lowercase(trim_seq(input@))),
{
    let t = string_of(&trim_chars(&chars_of(input)));
    let l = to_lowercase(t.as_str());
    str_eq(l.as_str(), "y") || str_eq(l.as_str(), "yes") || str_eq(l.as_str(), "s")
        || str_eq(l.as_str(), "si") || str_eq(l.as_str(), "sí")
}

/// Text quoted for a single-quoted PowerShell string: each `'` doubled.
pub open spec fn ps_quoted(s: Seq<char>) -> Seq<char>
    decreases s.len(),
{
    if s.len() == 0 {
        Seq::empty()
    } else if s.last() == '\'' {
        ps_quoted(s.drop_last()) + seq!['\'', '\'']
    } else {
        ps_quoted(s.drop_last()).push(s.last())
    }
}

/// Doubles each `'` of the text, for a single-quoted PowerShell string
/// ([`ps_quoted`]).
pub fn ps_quote(s: &str) -> (r: String)
    ensures
        r@ == ps_quoted(s@),
{
    let v = chars_of(s);
    let mut out = String::new();
    for i in 0..v.len()
        invariant
            v@ == s@,
            out@ == ps_quoted(v@.take(i as int)),
    {
        let c = v[i];
        proof {
            assert(v@.take(i + 1).drop_last() =~= v@.take(i as int));
        }
        push_char(&mut out, c);
        if c == '\'' {
            push_char(&mut out, '\'');
        }
        proof {
            if c == '\'' {
                assert(out@ =~= ps_quoted(v@.take(i as int)) + seq!['\'', '\'']);
            }
        }
    }
    assert(v@.take(v@.len() as int) =~= v@);
    out
}

/// The PowerShell script that takes the installation directory `dir` out of
/// the user's PATH: the entries that are empty or name `dir` (either
/// without trailing `\`) are dropped.
pub open spec fn path_cleanup_script_of(dir: Seq<char>) -> Seq<char> {
    "\n$key = 'HKCU:\\Environment'\n$old = (Get-ItemProperty -Path $key -Name PATH -ErrorAction SilentlyContinue).PATH\nif ($old) {\n    $parts = $old -split ';' | Where-Object { $_ -ne '' -and $_.TrimEnd('\\') -ne '"@
        + ps_quoted(dir)
        + "'.TrimEnd('\\') }\n    $new = $parts -join ';'\n    Set-ItemProperty -Path $key -Name PATH -Value $new\n}\n"@
}

/// The script that cleans the user's PATH of `dir` ([`path_cleanup_script_of`]).
pub fn path_cleanup_script(dir: &str) -> (r: String)
    ensures
        r@ == path_cleanup_script_of(dir@),
{
    let mut s = String::new();
    push_str(&mut s, "\n$key = 'HKCU:\\Environment'\n$old = (Get-ItemProperty -Path $key -Name PATH -ErrorAction SilentlyContinue).PATH\nif ($old) {\n    $parts = $old -split ';' | Where-Object { $_ -ne '' -and $_.TrimEnd('\\') -ne '");
    let q = ps_quote(dir);
    push_str(&mut s, q.as_str());
    push_str(&mut s, "'.TrimEnd('\\') }\n    $new = $parts -join ';'\n    Set-ItemProperty -Path $key -Name PATH -Value $new\n}\n");
    s
}

/// The PowerShell command that removes the installation directory `dir`
/// two seconds later, once pvm has exited.
pub open spec fn removal_script_of(dir: Seq<char>) -> Seq<char> {
    "Start-Sleep -Seconds 2; Remove-Item -Recurse -Force '"@ + ps_quoted(dir) + "'"@
}

/// The delayed removal command for `dir` ([`removal_script_of`]).
pub fn removal_script(dir: &str) -> (r: String)
    ensures
        r@ == removal_script_of(dir@),
{
    let mut s = String::new();
    push_str(&mut s, "Start-Sleep -Seconds 2; Remove-Item -Recurse -Force '");
    let q = ps_quote(dir);
    push_str(&mut s, q.as_str());
    push_str(&mut s, "'");
    s
}

/// The line filter keeps no line of pvm's.
proof fn lemma_filter_keeps_no_pvm_line(ls: Seq<Seq<char>>)
    ensures
        forall|k: int| 0 <= k < filter_lines(ls).0.len() ==> !is_pvm_line(#[trigger] filter_lines(ls).0[k]),
    decreases ls.len(),
{
    if ls.len() > 0 {
        lemma_filter_keeps_no_pvm_line(ls.drop_last());
        let st = filter_lines(ls.drop_last());
        assert forall|k: int| 0 <= k < filter_lines(ls).0.len() implies !is_pvm_line(#[trigger] filter_lines(ls).0[k]) by {
            if k < st.0.len() {
                assert(filter_lines(ls).0[k] == st.0[k]);
            }
        }
    }
}

/// Dropping the blank lines at the end keeps a beginning of the lines.
proof fn lemma_drop_trailing_blank_prefix(ls: Seq<Seq<char>>)
    ensures
        drop_trailing_blank(ls).is_prefix_of(ls),
    decreases ls.len(),
{
    if ls.len() > 0 && trim_seq(ls.last()).len() == 0 {
        lemma_drop_trailing_blank_prefix(ls.drop_last());
    }
}

/// No line that the cleaned profile keeps contains `pvm`.
pub proof fn lemma_cleaned_profile_has_no_pvm_line(s: Seq<char>)
    ensures
        ({
            let kept = drop_trailing_blank(filter_lines(text_lines(s)).0);
            forall|k: int| 0 <= k < kept.len() ==> !contains_seq(#[trigger] kept[k], "pvm"@)
        }),
{
    let ls = filter_lines(text_lines(s)).0;
    lemma_filter_keeps_no_pvm_line(text_lines(s));
    lemma_drop_trailing_blank_prefix(ls);
    let kept = drop_trailing_blank(ls);
    assert forall|k: int| 0 <= k < kept.len() implies !contains_seq(#[trigger] kept[k], "pvm"@) by {
        assert(kept[k] == ls[k]);
    }
}

} // verus!
