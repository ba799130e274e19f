use vstd::prelude::*;
use crate::strings::{str_equals, to_lowercase, lowercase};
use crate::number::{parse_i32, i32_value};

verus! {

/// Text decoration lines as bits: underline 1, overline 2, line-through 4.
#[derive(Clone, Copy, Debug, PartialEq, Eq, Structural)]
pub struct TextDecoration {
    pub bits: u32,
}

pub const NO_DECORATION: u32 = 0;
pub const UNDERLINE: u32 = 1;
pub const OVERLINE: u32 = 2;
pub const LINE_THROUGH: u32 = 4;

/// The decoration bit named by a whole value, where it names one.
pub open spec fn decoration_named(value: Seq<char>) -> Option<u32> {
    if value == seq!['n', 'o', 'n', 'e'] {
        Some(NO_DECORATION)
    } else if value == seq!['u', 'n', 'd', 'e', 'r', 'l', 'i', 'n', 'e'] {
        Some(UNDERLINE)
    } else if value == seq!['o', 'v', 'e', 'r', 'l', 'i', 'n', 'e'] {
        Some(OVERLINE)
    } else if value == seq!['l', 'i', 'n', 'e', '-', 't', 'h', 'r', 'o', 'u', 'g', 'h'] {
        Some(LINE_THROUGH)
    } else {
        None
    }
}

fn decoration_bit(value: &str) -> (res: Option<u32>)
    ensures
        res == decoration_named(value@),
{
    proof {
        reveal_strlit("none");
        reveal_strlit("underline");
        reveal_strlit("overline");
        reveal_strlit("line-through");
        assert("none"@ =~= seq!['n', 'o', 'n', 'e']);
        assert("underline"@ =~= seq!['u', 'n', 'd', 'e', 'r', 'l', 'i', 'n', 'e']);
        assert("overline"@ =~= seq!['o', 'v', 'e', 'r', 'l', 'i', 'n', 'e']);
        assert("line-through"@ =~= seq!['l', 'i', 'n', 'e', '-', 't', 'h', 'r', 'o', 'u', 'g', 'h']);
    }
    if str_equals(value, "none") {
        Some(NO_DECORATION)
    } else if str_equals(value, "underline") {
        Some(UNDERLINE)
    } else if str_equals(value, "overline") {
        Some(OVERLINE)
    } else if str_equals(value, "line-through") {
        Some(LINE_THROUGH)
    } else {
        None
    }
}

/// The decoration of a style value: each space-separated piece of `value` adds the decoration
/// that the whole `value` names, so a single keyword gives its line and anything else none.
pub fn parse_text_decoration(value: &str) -> (res: TextDecoration)
    ensures
        res.bits == (match decoration_named(value@) {
            Some(b) => b,
            None => NO_DECORATION,
        }),
{
    let mut decoration = TextDecoration { bits: NO_DECORATION };
    let n = value.unicode_len();
    let mut spaces: usize = 0;
    let mut i: usize = 0;
    while i < n
        invariant
            n == value@.len(),
            i <= n,
            spaces <= i,
        decreases n - i,
    {
        if value.get_char(i) == ' ' {
            spaces = spaces + 1;
        }
        i = i + 1;
    }
    let mut p: usize = 0;
    loop
        invariant_except_break
            p <= spaces,
            p == 0 ==> decoration.bits == NO_DECORATION,
            p > 0 ==> decoration.bits == (match decoration_named(value@) {
                Some(b) => b,
                None => NO_DECORATION,
            }),
        ensures
            decoration.bits == (match decoration_named(value@) {
                Some(b) => b,
                None => NO_DECORATION,
            }),
        decreases spaces - p,
    {
        match decoration_bit(value) {
            Some(t) => {
                let old_bits = decoration.bits;
                decoration.bits = old_bits | t;
                proof {
                    assert(0u32 | 0u32 == 0u32) by (bit_vector);
                    assert(0u32 | 1u32 == 1u32) by (bit_vector);
                    assert(0u32 | 2u32 == 2u32) by (bit_vector);
                    assert(0u32 | 4u32 == 4u32) by (bit_vector);
                    assert(1u32 | 1u32 == 1u32) by (bit_vector);
                    assert(2u32 | 2u32 == 2u32) by (bit_vector);
                    assert(4u32 | 4u32 == 4u32) by (bit_vector);
                }
            },
            None => {},
        }
        if p == spaces {
            break;
        }
        p = p + 1;
    }
    decoration
}

/// The decoration of an optional style value; none where the value is missing.
pub fn parse_optional_text_decoration(value: Option<&String>) -> (res: TextDecoration)
    ensures
        res.bits == (match value {
            Some(v) => match decoration_named(v@) {
                Some(b) => b,
                None => NO_DECORATION,
            },
            None => NO_DECORATION,
        }),
{
    if let Some(v) = value {
        parse_text_decoration(v.as_str())
    } else {
        TextDecoration { bits: NO_DECORATION }
    }
}


/// The font weight named by a lowercase keyword.
pub open spec fn weight_named(name: Seq<char>) -> Option<i32> {
    if name == seq!['i', 'n', 'v', 'i', 's', 'i', 'b', 'l', 'e'] {
        Some(0)
    } else if name == seq!['t', 'h', 'i', 'n'] {
        Some(100)
    } else if name == seq!['e', 'x', 't', 'r', 'a', '-', 'l', 'i', 'g', 'h', 't'] {
        Some(200)
    } else if name == seq!['l', 'i', 'g', 'h', 't'] {
        Some(300)
    } else if name == seq!['n', 'o', 'r', 'm', 'a', 'l'] {
        Some(400)
    } else if name == seq!['m', 'e', 'd', 'i', 'u', 'm'] {
        Some(500)
    } else if name == seq!['s', 'e', 'm', 'i', '-', 'b', 'o', 'l', 'd'] {
        Some(600)
    } else if name == seq!['b', 'o', 'l', 'd'] {
        Some(700)
    } else if name == seq!['e', 'x', 't', 'r', 'a', '-', 'b', 'o', 'l', 'd'] {
        Some(800)
    } else if name == seq!['b', 'l', 'a', 'c', 'k'] {
        Some(900)
    } else if name == seq!['e', 'x', 't', 'r', 'a', '-', 'b', 'l', 'a', 'c', 'k'] {
        Some(1000)
    } else {
        None
    }
}

/// The weight named by a lowercase keyword, where it is one.
fn weight_keyword(name: &str) -> (res: Option<i32>)
    ensures
        res == weight_named(name@),
{
    proof {
        reveal_strlit("invisible");
        reveal_strlit("thin");
        reveal_strlit("extra-light");
        reveal_strlit("light");
        reveal_strlit("normal");
        reveal_strlit("medium");
        reveal_strlit("semi-bold");
        reveal_strlit("bold");
        reveal_strlit("extra-bold");
        reveal_strlit("black");
        reveal_strlit("extra-black");
        assert("invisible"@ =~= seq!['i', 'n', 'v', 'i', 's', 'i', 'b', 'l', 'e']);
        assert("thin"@ =~= seq!['t', 'h', 'i', 'n']);
        assert("extra-light"@ =~= seq!['e', 'x', 't', 'r', 'a', '-', 'l', 'i', 'g', 'h', 't']);
        assert("light"@ =~= seq!['l', 'i', 'g', 'h', 't']);
        assert("normal"@ =~= seq!['n', 'o', 'r', 'm', 'a', 'l']);
        assert("medium"@ =~= seq!['m', 'e', 'd', 'i', 'u', 'm']);
        assert("semi-bold"@ =~= seq!['s', 'e', 'm', 'i', '-', 'b', 'o', 'l', 'd']);
        assert("bold"@ =~= seq!['b', 'o', 'l', 'd']);
        assert("extra-bold"@ =~= seq!['e', 'x', 't', 'r', 'a', '-', 'b', 'o', 'l', 'd']);
        assert("black"@ =~= seq!['b', 'l', 'a', 'c', 'k']);
        assert("extra-black"@ =~= seq!['e', 'x', 't', 'r', 'a', '-', 'b', 'l', 'a', 'c', 'k']);
    }
    if str_equals(name, "invisible") {
        Some(0)
    } else if str_equals(name, "thin") {
        Some(100)
    } else if str_equals(name, "extra-light") {
        Some(200)
    } else if str_equals(name, "light") {
        Some(300)
    } else if str_equals(name, "normal") {
        Some(400)
    } else if str_equals(name, "medium") {
        Some(500)
    } else if str_equals(name, "semi-bold") {
        Some(600)
    } else if str_equals(name, "bold") {
        Some(700)
    } else if str_equals(name, "extra-bold") {
        Some(800)
    } else if str_equals(name, "black") {
        Some(900)
    } else if str_equals(name, "extra-black") {
        Some(1000)
    } else {
        None
    }
}

/// The font weight of a style value: a keyword from `invisible` (0) through `normal` (400) and
/// `bold` (700) to `extra-black` (1000), in any case, or else a decimal number; `None` where
/// the value is neither.
pub fn parse_weight(value: &str) -> (res: Option<i32>)
    ensures
        res == (match weight_named(lowercase(value@)) {
            Some(w) => Some(w),
            None => i32_value(value@),
        }),
{
    let lower = to_lowercase(value);
    match weight_keyword(lower.as_str()) {
        Some(w) => Some(w),
        None => parse_i32(value),
    }
}

/// The font weight of an optional style value; `None` where the value is missing.
pub fn parse_optional_weight(value: Option<&String>) -> (res: Option<i32>)
    ensures
        res == (match value {
            Some(v) => match weight_named(lowercase(v@)) {
                Some(w) => Some(w),
                None => i32_value(v@),
            },
            None => None,
        }),
{
    if let Some(v) = value {
        parse_weight(v.as_str())
    } else {
        None
    }
}

} // verus!
