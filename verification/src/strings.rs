use vstd::prelude::*;

verus! {

/// What `str::to_lowercase` gives for a text: a fixed function of the text (the Unicode
/// lowercase mapping of std's tables), with no dependence on a locale.
pub uninterp spec fn str_to_lowercase(s: Seq<char>) -> Seq<char>;

/// What `str::to_lowercase` gives on an all-ASCII text.
pub open spec fn ascii_lowercase(s: Seq<char>) -> Seq<char> {
    s.map_values(|c: char| ascii_lower(c))
}

/// The lowercase of a text as `str::to_lowercase` gives it: spelled out for an all-ASCII text,
/// the named mapping otherwise.
pub open spec fn lowercase(s: Seq<char>) -> Seq<char> {
    if is_ascii_text(s) {
        ascii_lowercase(s)
    } else {
        str_to_lowercase(s)
    }
}

/// Whether every character of `s` is ASCII.
pub open spec fn is_ascii_text(s: Seq<char>) -> bool {
    forall|i: int| 0 <= i < s.len() ==> (#[trigger] s[i]) <= '\u{7f}'
}

/// The lowercase of an ASCII character: `A` to `Z` become `a` to `z`, the others stay.
pub open spec fn ascii_lower(c: char) -> char {
    if 'A' <= c && c <= 'Z' {
        ((c as u32) + 32) as char
    } else {
        c
    }
}

/// Calls `str::to_lowercase`. Claimed: the result is `str_to_lowercase` of the argument, and on
/// an all-ASCII text it is the text with `A` to `Z` turned into `a` to `z` (Unicode's lowercase
/// mapping, which the documentation names, maps the ASCII letters so and leaves the other ASCII
/// characters alone); nothing is stated of other characters.
#[verifier::external_body]
pub fn to_lowercase(s: &str) -> (res: String)
    ensures
        res@ == str_to_lowercase(s@),
        is_ascii_text(s@) ==> res@ == ascii_lowercase(s@),
{
    s.to_lowercase()
}

/// Whether two texts are equal.
pub fn str_equals(a: &str, b: &str) -> (res: bool)
    ensures
        res == (a@ == b@),
{
    let x = a.to_owned();
    let y = b.to_owned();
    x == y
}

} // verus!
