use vstd::prelude::*;
use base64::Engine;
use vstd::std_specs::iter::IteratorSpec;
use crate::strings::str_equals;

verus! {

broadcast use vstd::string::group_string_axioms;

/// What the standard Base64 engine of the `base64` crate (standard alphabet, padding required)
/// decodes a text to, or `None` where it refuses the text: a fixed function of the text.
pub uninterp spec fn base64_standard_decode(input: Seq<char>) -> Option<Seq<u8>>;

/// Calls `Engine::decode` of `base64::prelude::BASE64_STANDARD` on the bytes of `data`.
/// Claimed: it gives the bytes that `base64_standard_decode` names, and fails exactly where
/// that is `None`; nothing is stated of the decoding itself.
#[verifier::external_body]
fn decode_base64(data: &str) -> (res: Option<Vec<u8>>)
    ensures
        match res {
            Some(v) => base64_standard_decode(data@) == Some(v@),
            None => base64_standard_decode(data@) is None,
        },
{
    base64::prelude::BASE64_STANDARD.decode(data).ok()
}

/// The position of the first `c` in `s`.
pub open spec fn first_index(s: Seq<char>, c: char) -> Option<int>
    decreases s.len(),
{
    if s.len() == 0 {
        None
    } else if s[0] == c {
        Some(0)
    } else {
        match first_index(s.drop_first(), c) {
            Some(i) => Some(i + 1),
            None => None,
        }
    }
}

proof fn lemma_first_index_skip(s: Seq<char>, c: char, i: int)
    requires
        0 <= i < s.len(),
        forall|j: int| 0 <= j < i ==> s[j] != c,
    ensures
        first_index(s, c) == (match first_index(s.skip(i), c) {
            Some(k) => Some(k + i),
            None => None,
        }),
    decreases i,
{
    if i == 0 {
        assert(s.skip(0) =~= s);
    } else {
        assert(s.drop_first().skip(i - 1) =~= s.skip(i));
        lemma_first_index_skip(s.drop_first(), c, i - 1);
    }
}

proof fn lemma_first_index_none(s: Seq<char>, c: char)
    requires
        forall|j: int| 0 <= j < s.len() ==> s[j] != c,
    ensures
        first_index(s, c) is None,
    decreases s.len(),
{
    if s.len() > 0 {
        lemma_first_index_none(s.drop_first(), c);
    }
}

fn find_char(s: &str, c: char) -> (res: Option<usize>)
    ensures
        match res {
            Some(i) => first_index(s@, c) == Some(i as int),
            None => first_index(s@, c) is None,
        },
{
    let n = s.unicode_len();
    let mut it = s.chars();
    let mut i: usize = 0;
    assert(s@.skip(0) =~= s@);
    loop
        invariant
            i <= s@.len(),
            n == s@.len(),
            it.obeys_prophetic_iter_laws(),
            it.remaining() == s@.skip(i as int),
            forall|j: int| 0 <= j < i ==> s@[j] != c,
        decreases s@.len() - i,
    {
        let ghost before = it;
        match it.next() {
            Some(ch) => {
                proof {
                    assert(s@.skip(i as int)[0] == ch);
                    assert(s@.skip(i as int).drop_first() =~= s@.skip(i + 1));
                }
                if ch == c {
                    proof {
                        lemma_first_index_skip(s@, c, i as int);
                    }
                    return Some(i);
                }
                i = i + 1;
            },
            None => {
                proof {
                    assert(s@.skip(i as int).len() == 0);
                    lemma_first_index_none(s@, c);
                }
                return None;
            },
        }
    }
}

/// The (mime type, decoded data) of the part of a `data:` URL behind the scheme,
/// `<mime>;base64,<data>`: split at the first comma, then the parameters at the first
/// semicolon; only the `base64` encoding is read.
pub open spec fn data_url_parts(url: Seq<char>) -> Option<(Seq<char>, Seq<u8>)> {
    match first_index(url, ',') {
        Some(c) => {
            let params = url.take(c);
            let data = url.skip(c + 1);
            match first_index(params, ';') {
                Some(s) => if params.skip(s + 1) == seq!['b', 'a', 's', 'e', '6', '4'] {
                    match base64_standard_decode(data) {
                        Some(bytes) => Some((params.take(s), bytes)),
                        None => None,
                    }
                } else {
                    None
                },
                None => None,
            }
        },
        None => None,
    }
}

/// Where the image of a source comes from, as the image object decides it.
pub enum ImageSource {
    /// SVG data given inline.
    SvgData(Vec<u8>),
    /// Raster image data given inline.
    ImageData(Vec<u8>),
    /// An SVG file at the given path.
    SvgFile(String),
    /// An image looked up by its source in the image manager.
    Managed(String),
    /// No image.
    Missing,
}

pub open spec fn starts_with(s: Seq<char>, p: Seq<char>) -> bool {
    p.len() <= s.len() && s.take(p.len() as int) == p
}

pub open spec fn ends_with(s: Seq<char>, p: Seq<char>) -> bool {
    p.len() <= s.len() && s.skip(s.len() - p.len()) == p
}

fn str_starts_with(s: &str, p: &str) -> (res: bool)
    ensures
        res == starts_with(s@, p@),
{
    let n = s.unicode_len();
    let m = p.unicode_len();
    if m > n {
        return false;
    }
    let head = s.substring_char(0, m);
    str_equals(head, p)
}

fn str_ends_with(s: &str, p: &str) -> (res: bool)
    ensures
        res == ends_with(s@, p@),
{
    let n = s.unicode_len();
    let m = p.unicode_len();
    if m > n {
        return false;
    }
    let tail = s.substring_char(n - m, n);
    proof {
        assert(s@.subrange((n - m) as int, n as int) =~= s@.skip(n - m));
    }
    str_equals(tail, p)
}

pub struct ImageObject {}

impl ImageObject {
    /// Reads the part of a `data:` URL behind the scheme.
    pub fn parse_data_url(url: &str) -> (res: Option<(String, Vec<u8>)>)
        ensures
            match res {
                Some((mime, data)) => data_url_parts(url@) == Some((mime@, data@)),
                None => data_url_parts(url@) is None,
            },
    {
        let c = match find_char(url, ',') {
            Some(c) => c,
            None => return None,
        };
        proof {
            lemma_first_index_bound(url@, ',');
        }
        let n = url.unicode_len();
        let params = url.substring_char(0, c);
        let data = url.substring_char(c + 1, n);
        proof {
            assert(params@ =~= url@.take(c as int));
            assert(data@ =~= url@.skip(c + 1));
        }
        let s = match find_char(params, ';') {
            Some(s) => s,
            None => return None,
        };
        proof {
            lemma_first_index_bound(params@, ';');
            reveal_strlit("base64");
            assert("base64"@ =~= seq!['b', 'a', 's', 'e', '6', '4']);
        }
        let mime = params.substring_char(0, s);
        let encoding = params.substring_char(s + 1, c);
        proof {
            assert(mime@ =~= params@.take(s as int));
            assert(encoding@ =~= params@.skip(s + 1));
        }
        if str_equals(encoding, "base64") {
            match decode_base64(data) {
                Some(bytes) => Some((mime.to_owned(), bytes)),
                None => None,
            }
        } else {
            None
        }
    }

    /// Where the image of `src` comes from: a `data:` URL gives its decoded data (SVG where
    /// the mime type starts with `image/svg`, and nothing where it cannot be read), a path
    /// ending in `.svg` an SVG file, and anything else the image manager's image.
    pub fn source_of(src: &str) -> (res: ImageSource)
        ensures
            ({
                let s = src@;
                let scheme = seq!['d', 'a', 't', 'a', ':'];
                if starts_with(s, scheme) {
                    match data_url_parts(s.skip(5)) {
                        Some((mime, data)) => if starts_with(mime, seq!['i', 'm', 'a', 'g', 'e', '/', 's', 'v', 'g']) {
                            res matches ImageSource::SvgData(d) && d@ == data
                        } else {
                            res matches ImageSource::ImageData(d) && d@ == data
                        },
                        None => res is Missing,
                    }
                } else if ends_with(s, seq!['.', 's', 'v', 'g']) {
                    res matches ImageSource::SvgFile(p) && p@ == s
                } else {
                    res matches ImageSource::Managed(p) && p@ == s
                }
            }),
    {
        proof {
            reveal_strlit("data:");
            reveal_strlit("image/svg");
            reveal_strlit(".svg");
            assert("data:"@ =~= seq!['d', 'a', 't', 'a', ':']);
            assert("image/svg"@ =~= seq!['i', 'm', 'a', 'g', 'e', '/', 's', 'v', 'g']);
            assert(".svg"@ =~= seq!['.', 's', 'v', 'g']);
        }
        if str_starts_with(src, "data:") {
            let n = src.unicode_len();
            let data_url = src.substring_char(5, n);
            proof {
                assert(data_url@ =~= src@.skip(5));
            }
            match Self::parse_data_url(data_url) {
                Some((mime, data)) => {
                    if str_starts_with(mime.as_str(), "image/svg") {
                        ImageSource::SvgData(data)
                    } else {
                        ImageSource::ImageData(data)
                    }
                },
                None => ImageSource::Missing,
            }
        } else if str_ends_with(src, ".svg") {
            ImageSource::SvgFile(src.to_owned())
        } else {
            ImageSource::Managed(src.to_owned())
        }
    }
}

proof fn lemma_first_index_bound(s: Seq<char>, c: char)
    ensures
        first_index(s, c) matches Some(i) ==> 0 <= i < s.len() && s[i] == c,
    decreases s.len(),
{
    if s.len() > 0 {
        lemma_first_index_bound(s.drop_first(), c);
    }
}

} // verus!
