//! Small helpers on text.

use vstd::prelude::*;
use vstd::string::StrSliceExecFns;

verus! {

/// The views of a run of strings, in order.
pub open spec fn text_views(lines: Seq<String>) -> Seq<Seq<char>> {
    Seq::new(lines.len(), |i: int| lines[i]@)
}

/// `String::push` of the standard library: appends one character.
#[verifier::external_body]
pub(crate) fn push_char(text: &mut String, c: char)
    ensures
        final(text)@ == old(text)@.push(c),
{
    text.push(c);
}

/// Whether a text is exactly the given word.
pub(crate) fn is_word(text: &String, word: &str) -> (res: bool)
    ensures
        res == (text@ == word@),
{
    let owned = word.to_owned();
    *text == owned
}

/// The lowercase equivalent of a text, as the standard library gives it.
pub uninterp spec fn lowercased(text: Seq<char>) -> Seq<char>;

/// `str::to_lowercase` of the standard library. What it gives is a function
/// of the text alone and is named [`lowercased`]; nothing more is claimed.
#[verifier::external_body]
pub(crate) fn lowercase_of(text: &str) -> (res: String)
    ensures
        res@ == lowercased(text@),
{
    text.to_lowercase()
}

/// One character in kebab and lower form: an ASCII capital becomes its small
/// letter, an underscore becomes a hyphen, anything else stays.
pub open spec fn kebab_char(c: char) -> char {
    if 'A' <= c && c <= 'Z' {
        ((c as u8) + 32) as char
    } else if c == '_' {
        '-'
    } else {
        c
    }
}

/// An identifier in kebab and lower form, character by character.
pub open spec fn kebab_lower(text: Seq<char>) -> Seq<char> {
    Seq::new(text.len(), |i: int| kebab_char(text[i]))
}

fn to_kebab_char(c: char) -> (res: char)
    ensures
        res == kebab_char(c),
{
    if 'A' <= c && c <= 'Z' {
        let code: u8 = c as u8;
        (code + 32) as char
    } else if c == '_' {
        '-'
    } else {
        c
    }
}

/// Derives the long name of a flag from the identifier of its field:
/// `dry_run` gives `dry-run`, `DryRun` gives `dryrun`.
pub fn to_kebab_lower(text: &str) -> (res: String)
    ensures
        res@ == kebab_lower(text@),
{
    let mut res = String::new();
    let n = text.unicode_len();
    let mut i: usize = 0;
    while i < n
        invariant
            i <= n,
            n == text@.len(),
            res@ == kebab_lower(text@.subrange(0, i as int)),
        decreases n - i,
    {
        let c = text.get_char(i);
        push_char(&mut res, to_kebab_char(c));
        i = i + 1;
        assert(res@ =~= kebab_lower(text@.subrange(0, i as int)));
    }
    assert(text@.subrange(0, n as int) =~= text@);
    res
}

} // verus!
