use vstd::prelude::*;

verus! {

/// Whether font `f` has a glyph for character `i`: its glyph id there is not 0.
pub open spec fn has_glyph(glyphs: Seq<Seq<u16>>, f: int, i: int) -> bool {
    glyphs[f][i] != 0
}

/// The first font with a glyph for character `i`, or -1 where no font has one.
pub open spec fn first_font_for(glyphs: Seq<Seq<u16>>, i: int, res: int) -> bool {
    if res == -1 {
        forall|f: int| 0 <= f < glyphs.len() ==> !has_glyph(glyphs, f, i)
    } else {
        &&& 0 <= res < glyphs.len()
        &&& has_glyph(glyphs, res, i)
        &&& forall|f: int| 0 <= f < res ==> !has_glyph(glyphs, f, i)
    }
}

/// Whether `r` is the first of the fonts `0..bound` with a glyph for character `i`, or -1 where
/// none of them has one.
pub open spec fn settled(glyphs: Seq<Seq<u16>>, i: int, r: int, bound: int) -> bool {
    if r == -1 {
        forall|g: int| 0 <= g < bound ==> !has_glyph(glyphs, g, i)
    } else {
        0 <= r < bound && has_glyph(glyphs, r, i) && forall|g: int| 0 <= g < r ==> !has_glyph(glyphs, g, i)
    }
}

/// How many characters no font has a glyph for.
pub open spec fn unresolved_count(resolved: Seq<i32>) -> nat
    decreases resolved.len(),
{
    if resolved.len() == 0 {
        0
    } else {
        unresolved_count(resolved.drop_last()) + (if resolved.last() == -1 { 1nat } else { 0nat })
    }
}

proof fn lemma_unresolved_count_update(s: Seq<i32>, i: int, v: i32)
    requires
        0 <= i < s.len(),
        s[i] == -1,
        v != -1,
    ensures
        unresolved_count(s.update(i, v)) + 1 == unresolved_count(s),
    decreases s.len(),
{
    let u = s.update(i, v);
    if i == s.len() - 1 {
        assert(u.drop_last() =~= s.drop_last());
    } else {
        assert(u.drop_last() =~= s.drop_last().update(i, v));
        lemma_unresolved_count_update(s.drop_last(), i, v);
    }
}

proof fn lemma_unresolved_count_zero(s: Seq<i32>, i: int)
    requires
        unresolved_count(s) == 0,
        0 <= i < s.len(),
    ensures
        s[i] != -1,
    decreases s.len(),
{
    if i < s.len() - 1 {
        assert(s.drop_last()[i] == s[i]);
        lemma_unresolved_count_zero(s.drop_last(), i);
    }
}

proof fn lemma_unresolved_count_all(n: nat)
    ensures
        unresolved_count(Seq::new(n, |k: int| -1i32)) == n,
    decreases n,
{
    if n > 0 {
        assert(Seq::new(n, |k: int| -1i32).drop_last() =~= Seq::new((n - 1) as nat, |k: int| -1i32));
        lemma_unresolved_count_all((n - 1) as nat);
    }
}

/// Picks for each of `char_count` characters the first font that has a glyph for it, given the
/// glyph ids of the characters in each font in order; -1 where no font has one. Also returns
/// how many characters are left without a font.
pub fn do_resolve_font(glyphs: &Vec<Vec<u16>>, char_count: usize) -> (res: (Vec<i32>, usize))
    requires
        glyphs@.len() < i32::MAX,
        forall|f: int| 0 <= f < glyphs@.len() ==> (#[trigger] glyphs@[f])@.len() == char_count,
    ensures
        res.0@.len() == char_count,
        forall|i: int| 0 <= i < char_count ==> first_font_for(glyphs_view(glyphs@), i, #[trigger] res.0@[i] as int),
        res.1 == unresolved_count(res.0@),
{
    let ghost gv = glyphs_view(glyphs@);
    let mut resolved: Vec<i32> = Vec::new();
    let mut k: usize = 0;
    while k < char_count
        invariant
            k <= char_count,
            resolved@ == Seq::new(k as nat, |j: int| -1i32),
        decreases char_count - k,
    {
        resolved.push(-1);
        k = k + 1;
        proof {
            assert(resolved@ =~= Seq::new(k as nat, |j: int| -1i32));
        }
    }
    proof {
        lemma_unresolved_count_all(char_count as nat);
    }
    let mut unresolved: usize = char_count;
    let mut f: usize = 0;
    while f < glyphs.len()
        invariant_except_break
            f <= glyphs@.len(),
            forall|i: int| 0 <= i < char_count ==> settled(gv, i, #[trigger] resolved@[i] as int, f as int),
        invariant
            gv == glyphs_view(glyphs@),
            glyphs@.len() < i32::MAX,
            forall|g: int| 0 <= g < glyphs@.len() ==> (#[trigger] glyphs@[g])@.len() == char_count,
            resolved@.len() == char_count,
            unresolved == unresolved_count(resolved@),
        ensures
            forall|i: int| 0 <= i < char_count ==> first_font_for(gv, i, #[trigger] resolved@[i] as int),
        decreases glyphs@.len() - f,
    {
        let row = &glyphs[f];
        let mut i: usize = 0;
        while i < char_count
            invariant
                gv == glyphs_view(glyphs@),
                f < glyphs@.len(),
                glyphs@.len() < i32::MAX,
                row@ == glyphs@[f as int]@,
                row@.len() == char_count,
                i <= char_count,
                resolved@.len() == char_count,
                unresolved == unresolved_count(resolved@),
                forall|j: int| 0 <= j < i ==> settled(gv, j, #[trigger] resolved@[j] as int, f + 1),
                forall|j: int| i <= j < char_count ==> settled(gv, j, #[trigger] resolved@[j] as int, f as int),
            decreases char_count - i,
        {
            proof {
                assert(gv[f as int][i as int] == row@[i as int]);
            }
            if resolved[i] == -1 && row[i] != 0 {
                proof {
                    lemma_unresolved_count_update(resolved@, i as int, f as i32);
                }
                resolved.set(i, f as i32);
                unresolved = unresolved - 1;
            }
            proof {
                let j = i as int;
                let r = resolved@[j] as int;
                if r == -1 {
                    assert forall|g: int| 0 <= g < f + 1 implies !has_glyph(gv, g, j) by {
                        if g == f {
                            assert(gv[f as int][j] == 0);
                        }
                    }
                }
                assert(settled(gv, j, r, f + 1));
            }
            i = i + 1;
        }
        if unresolved == 0 {
            proof {
                assert forall|j: int| 0 <= j < char_count implies first_font_for(gv, j, #[trigger] resolved@[j] as int) by {
                    lemma_unresolved_count_zero(resolved@, j);
                }
            }
            break;
        }
        f = f + 1;
    }
    (resolved, unresolved)
}

/// The glyph ids of each font.
pub open spec fn glyphs_view(glyphs: Seq<Vec<u16>>) -> Seq<Seq<u16>> {
    glyphs.map_values(|r: Vec<u16>| r@)
}

/// The font that a character is set in: the one resolved for it, or the first font where none was.
pub open spec fn font_of(r: i32) -> int {
    if r == -1 { 0 } else { r as int }
}

/// Whether `runs` cut the characters `0..resolved.len()` into the maximal runs of neighbours set
/// in one font: the runs follow each other without gap, each is non-empty and set in one font,
/// and neighbouring runs are set in different fonts.
pub open spec fn is_font_runs(resolved: Seq<i32>, runs: Seq<(usize, usize, usize)>) -> bool {
    &&& (runs.len() == 0 <==> resolved.len() == 0)
    &&& runs.len() > 0 ==> runs[0].0 == 0 && runs.last().1 == resolved.len()
    &&& forall|k: int| 0 <= k < runs.len() ==> (#[trigger] runs[k]).0 < runs[k].1
    &&& forall|k: int| 0 <= k < runs.len() - 1 ==> (#[trigger] runs[k]).1 == runs[k + 1].0
    &&& forall|k: int, j: int| 0 <= k < runs.len() && runs[k].0 <= j < runs[k].1
        ==> font_of(#[trigger] resolved[j]) == (#[trigger] runs[k]).2
    &&& forall|k: int| 0 <= k < runs.len() - 1 ==> (#[trigger] runs[k]).2 != runs[k + 1].2
}

fn font_index(r: i32) -> (res: usize)
    requires
        r >= -1,
    ensures
        res == font_of(r),
{
    if r == -1 {
        0
    } else {
        r as usize
    }
}

/// Cuts the characters into runs set in one font (`(begin, end, font)`, `end` excluded); a
/// character that no font has a glyph for is set in the first font.
pub fn font_runs(resolved: &Vec<i32>) -> (runs: Vec<(usize, usize, usize)>)
    requires
        forall|i: int| 0 <= i < resolved@.len() ==> #[trigger] resolved@[i] >= -1,
    ensures
        is_font_runs(resolved@, runs@),
{
    let n = resolved.len();
    let mut runs: Vec<(usize, usize, usize)> = Vec::new();
    let mut i: usize = 0;
    while i < n
        invariant
            n == resolved@.len(),
            i <= n,
            forall|j: int| 0 <= j < resolved@.len() ==> #[trigger] resolved@[j] >= -1,
            runs@.len() == 0 <==> i == 0,
            runs@.len() > 0 ==> runs@[0].0 == 0 && runs@.last().1 == i,
            forall|k: int| 0 <= k < runs@.len() ==> (#[trigger] runs@[k]).0 < runs@[k].1,
            forall|k: int| 0 <= k < runs@.len() - 1 ==> (#[trigger] runs@[k]).1 == runs@[k + 1].0,
            forall|k: int, j: int| 0 <= k < runs@.len() && runs@[k].0 <= j < runs@[k].1
                ==> font_of(#[trigger] resolved@[j]) == (#[trigger] runs@[k]).2,
            forall|k: int| 0 <= k < runs@.len() - 1 ==> (#[trigger] runs@[k]).2 != runs@[k + 1].2,
            i < n && runs@.len() > 0 ==> font_of(resolved@[i as int]) != runs@.last().2,
        decreases n - i,
    {
        let begin = i;
        let first = resolved[i];
        let font: usize = font_index(first);
        i = i + 1;
        while i < n && font_index(resolved[i]) == font
            invariant
                n == resolved@.len(),
                begin < i <= n,
                font_of(resolved@[begin as int]) == font,
                forall|j: int| 0 <= j < resolved@.len() ==> #[trigger] resolved@[j] >= -1,
                forall|j: int| begin <= j < i ==> font_of(#[trigger] resolved@[j]) == font,
            decreases n - i,
        {
            i = i + 1;
        }
        let ghost old_runs = runs@;
        runs.push((begin, i, font));
        proof {
            let r = runs@;
            assert(r.drop_last() =~= old_runs);
            assert forall|k: int, j: int| 0 <= k < r.len() && r[k].0 <= j < r[k].1
                implies font_of(#[trigger] resolved@[j]) == (#[trigger] r[k]).2 by {
                if k < old_runs.len() {
                    assert(r[k] == old_runs[k]);
                }
            }
            assert forall|k: int| 0 <= k < r.len() - 1 implies (#[trigger] r[k]).1 == r[k + 1].0 by {
                if k < old_runs.len() - 1 {
                    assert(r[k] == old_runs[k]);
                    assert(r[k + 1] == old_runs[k + 1]);
                }
            }
            assert forall|k: int| 0 <= k < r.len() - 1 implies (#[trigger] r[k]).2 != r[k + 1].2 by {
                if k < old_runs.len() - 1 {
                    assert(r[k] == old_runs[k]);
                    assert(r[k + 1] == old_runs[k + 1]);
                }
            }
            if i < n {
                let x = resolved@[i as int];
                assert(font_of(x) != font);
            }
        }
    }
    runs
}

} // verus!
