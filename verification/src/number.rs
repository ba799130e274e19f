use vstd::prelude::*;

verus! {

broadcast use vstd::string::group_string_axioms;

pub open spec fn is_digit(c: char) -> bool {
    '0' <= c && c <= '9'
}

/// Whether `s` is one or more decimal digits.
pub open spec fn all_digits(s: Seq<char>) -> bool {
    s.len() > 0 && forall|i: int| 0 <= i < s.len() ==> is_digit(#[trigger] s[i])
}

/// The number that the decimal digits `s` write.
pub open spec fn digits_value(s: Seq<char>) -> int
    decreases s.len(),
{
    if s.len() == 0 {
        0
    } else {
        digits_value(s.drop_last()) * 10 + (s.last() as int - '0' as int)
    }
}

/// The integer that `s` writes: an optional `+` or `-` followed by decimal digits, nothing else.
pub open spec fn decimal_value(s: Seq<char>) -> Option<int> {
    if s.len() > 0 && s[0] == '-' && all_digits(s.drop_first()) {
        Some(-digits_value(s.drop_first()))
    } else if s.len() > 0 && s[0] == '+' && all_digits(s.drop_first()) {
        Some(digits_value(s.drop_first()))
    } else if all_digits(s) {
        Some(digits_value(s))
    } else {
        None
    }
}

/// The `i32` that `s` writes, where it writes one in range.
pub open spec fn i32_value(s: Seq<char>) -> Option<i32> {
    match decimal_value(s) {
        Some(v) => if i32::MIN <= v <= i32::MAX {
            Some(v as i32)
        } else {
            None
        },
        None => None,
    }
}

proof fn lemma_digits_value_nonneg(s: Seq<char>)
    requires
        forall|i: int| 0 <= i < s.len() ==> is_digit(#[trigger] s[i]),
    ensures
        digits_value(s) >= 0,
    decreases s.len(),
{
    if s.len() > 0 {
        let p = s.drop_last();
        assert forall|i: int| 0 <= i < p.len() implies is_digit(#[trigger] p[i]) by {
            assert(p[i] == s[i]);
        }
        lemma_digits_value_nonneg(p);
        assert(is_digit(s[s.len() - 1]));
    }
}

/// Digits added behind a prefix never make the number smaller.
proof fn lemma_digits_value_grows(s: Seq<char>, k: int)
    requires
        0 <= k <= s.len(),
        forall|i: int| 0 <= i < s.len() ==> is_digit(#[trigger] s[i]),
    ensures
        digits_value(s.take(k)) <= digits_value(s),
    decreases s.len() - k,
{
    if k < s.len() {
        lemma_digits_value_grows(s, k + 1);
        let t = s.take(k + 1);
        assert(t.drop_last() =~= s.take(k));
        assert(t.last() == s[k]);
        assert(is_digit(s[k]));
        let tk = s.take(k);
        assert forall|i: int| 0 <= i < tk.len() implies is_digit(#[trigger] tk[i]) by {
            assert(tk[i] == s[i]);
        }
        lemma_digits_value_nonneg(tk);
    } else {
        assert(s.take(k) =~= s);
    }
}

/// Reads the digits of `s` from position `start` on; `None` where one of them is no digit, or
/// where their number exceeds `limit`.
fn read_digits(s: &str, start: usize, limit: u64) -> (res: Option<u64>)
    requires
        start <= s@.len(),
        limit <= 0x8000_0000,
    ensures
        ({
            let d = s@.skip(start as int);
            match res {
                Some(v) => all_digits(d) && v == digits_value(d) && v <= limit,
                None => !all_digits(d) || digits_value(d) > limit,
            }
        }),
{
    let n = s.unicode_len();
    let ghost d = s@.skip(start as int);
    if start == n {
        return None;
    }
    let mut acc: u64 = 0;
    let mut i: usize = start;
    while i < n
        invariant
            n == s@.len(),
            start < n,
            start <= i <= n,
            d == s@.skip(start as int),
            limit <= 0x8000_0000,
            acc <= limit,
            forall|j: int| 0 <= j < i - start ==> is_digit(#[trigger] d[j]),
            acc == digits_value(d.take(i - start)),
        decreases n - i,
    {
        let c = s.get_char(i);
        proof {
            assert(d[i - start] == c);
            let t = d.take(i - start + 1);
            assert(t.drop_last() =~= d.take(i - start));
            assert(t.last() == c);
        }
        if c < '0' || c > '9' {
            proof {
                assert(!is_digit(d[i - start]));
            }
            return None;
        }
        let digit = (c as u32 - '0' as u32) as u64;
        acc = acc * 10 + digit;
        if acc > limit {
            proof {
                let k = i - start + 1;
                if all_digits(d) {
                    lemma_digits_value_grows(d, k);
                }
            }
            return None;
        }
        i = i + 1;
    }
    proof {
        assert(d.take(i - start) =~= d);
    }
    Some(acc)
}

/// The `i32` that `s` writes as an optional sign and decimal digits; `None` for anything else
/// and for numbers out of range.
pub fn parse_i32(s: &str) -> (res: Option<i32>)
    ensures
        res == i32_value(s@),
{
    let n = s.unicode_len();
    if n == 0 {
        return None;
    }
    let first = s.get_char(0);
    if first == '-' {
        proof {
            assert(s@.skip(1) =~= s@.drop_first());
        }
        match read_digits(s, 1, 0x8000_0000) {
            Some(v) => {
                if v == 0x8000_0000 {
                    Some(i32::MIN)
                } else {
                    Some(-(v as i32))
                }
            },
            None => {
                proof {
                    if all_digits(s@.drop_first()) {
                        assert(!all_digits(s@));
                    } else {
                        assert(!all_digits(s@)) by {
                            assert(!is_digit(s@[0]));
                        }
                    }
                }
                None
            },
        }
    } else if first == '+' {
        proof {
            assert(s@.skip(1) =~= s@.drop_first());
        }
        match read_digits(s, 1, 0x7fff_ffff) {
            Some(v) => Some(v as i32),
            None => {
                proof {
                    assert(!all_digits(s@)) by {
                        assert(!is_digit(s@[0]));
                    }
                }
                None
            },
        }
    } else {
        proof {
            assert(s@.skip(0) =~= s@);
        }
        match read_digits(s, 0, 0x7fff_ffff) {
            Some(v) => Some(v as i32),
            None => None,
        }
    }
}

} // verus!
