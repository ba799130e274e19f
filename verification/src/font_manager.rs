use vstd::prelude::*;
use crate::strings::str_equals;

verus! {

broadcast use vstd::string::group_string_axioms;

/// The slant of a font.
#[derive(Clone, Copy, Debug, PartialEq, Eq, Structural)]
pub enum FontStyle {
    Normal,
    Italic,
    Oblique,
}

/// What font selection reads of a font face: its slant and its weight.
#[derive(Clone, Copy, Debug, PartialEq, Eq, Structural)]
pub struct FontAttributes {
    pub style: FontStyle,
    pub weight: u16,
}

/// A font family: one of the generic families, or a family by its name.
pub enum FamilyName {
    Serif,
    SansSerif,
    Monospace,
    Cursive,
    Fantasy,
    Title(String),
}

/// The family that a family name in a style stands for.
pub open spec fn family_named(name: Seq<char>) -> FamilyNameView {
    if name == seq!['s', 'e', 'r', 'i', 'f'] {
        FamilyNameView::Serif
    } else if name == seq!['s', 'a', 'n', 's', '-', 's', 'e', 'r', 'i', 'f'] {
        FamilyNameView::SansSerif
    } else if name == seq!['m', 'o', 'n', 'o', 's', 'p', 'a', 'c', 'e'] {
        FamilyNameView::Monospace
    } else if name == seq!['c', 'u', 'r', 's', 'i', 'v', 'e'] {
        FamilyNameView::Cursive
    } else if name == seq!['f', 'a', 'n', 't', 'a', 's', 'y'] {
        FamilyNameView::Fantasy
    } else {
        FamilyNameView::Title(name)
    }
}

pub enum FamilyNameView {
    Serif,
    SansSerif,
    Monospace,
    Cursive,
    Fantasy,
    Title(Seq<char>),
}

impl View for FamilyName {
    type V = FamilyNameView;

    open spec fn view(&self) -> FamilyNameView {
        match self {
            FamilyName::Serif => FamilyNameView::Serif,
            FamilyName::SansSerif => FamilyNameView::SansSerif,
            FamilyName::Monospace => FamilyNameView::Monospace,
            FamilyName::Cursive => FamilyNameView::Cursive,
            FamilyName::Fantasy => FamilyNameView::Fantasy,
            FamilyName::Title(t) => FamilyNameView::Title(t@),
        }
    }
}

/// The family that `family_name` stands for: `serif`, `sans-serif`, `monospace`, `cursive` and
/// `fantasy` are the generic families, any other name a family by that name.
pub fn str_to_family_name(family_name: &str) -> (res: FamilyName)
    ensures
        res@ == family_named(family_name@),
{
    proof {
        reveal_strlit("serif");
        reveal_strlit("sans-serif");
        reveal_strlit("monospace");
        reveal_strlit("cursive");
        reveal_strlit("fantasy");
        assert("serif"@ =~= seq!['s', 'e', 'r', 'i', 'f']);
        assert("sans-serif"@ =~= seq!['s', 'a', 'n', 's', '-', 's', 'e', 'r', 'i', 'f']);
        assert("monospace"@ =~= seq!['m', 'o', 'n', 'o', 's', 'p', 'a', 'c', 'e']);
        assert("cursive"@ =~= seq!['c', 'u', 'r', 's', 'i', 'v', 'e']);
        assert("fantasy"@ =~= seq!['f', 'a', 'n', 't', 'a', 's', 'y']);
    }
    if str_equals(family_name, "serif") {
        FamilyName::Serif
    } else if str_equals(family_name, "sans-serif") {
        FamilyName::SansSerif
    } else if str_equals(family_name, "monospace") {
        FamilyName::Monospace
    } else if str_equals(family_name, "cursive") {
        FamilyName::Cursive
    } else if str_equals(family_name, "fantasy") {
        FamilyName::Fantasy
    } else {
        FamilyName::Title(family_name.to_owned())
    }
}

/// The positions of the fonts with slant `style`, in order.
pub open spec fn with_style(fonts: Seq<FontAttributes>, style: FontStyle) -> Seq<usize>
    decreases fonts.len(),
{
    if fonts.len() == 0 {
        Seq::empty()
    } else {
        let prev = with_style(fonts.drop_last(), style);
        if fonts.last().style == style {
            prev.push((fonts.len() - 1) as usize)
        } else {
            prev
        }
    }
}

/// How far a weight is from the expected weight.
pub open spec fn weight_distance(weight: u16, expected: u16) -> int {
    if weight >= expected {
        weight - expected
    } else {
        expected - weight
    }
}

/// Whether `k` is the first of the candidates whose weight is nearest to `expected`: no
/// candidate is nearer, and the candidates in front of it are farther.
pub open spec fn first_nearest(fonts: Seq<FontAttributes>, cands: Seq<usize>, expected: u16, k: usize) -> bool {
    exists|p: int| {
        &&& 0 <= p < cands.len()
        &&& cands[p] == k
        &&& forall|q: int| 0 <= q < cands.len() ==>
            weight_distance(fonts[cands[q] as int].weight, expected) >= weight_distance(fonts[k as int].weight, expected)
        &&& forall|q: int| 0 <= q < p ==>
            weight_distance(fonts[cands[q] as int].weight, expected) > weight_distance(fonts[k as int].weight, expected)
    }
}

/// The candidates that selection for `style` weighs: the fonts with that slant, or, where
/// there is none and the slant is not normal, the upright fonts.
pub open spec fn style_candidates(fonts: Seq<FontAttributes>, style: FontStyle) -> Seq<usize> {
    if with_style(fonts, style).len() == 0 && style != FontStyle::Normal {
        with_style(fonts, FontStyle::Normal)
    } else {
        with_style(fonts, style)
    }
}

proof fn lemma_with_style_bounds(fonts: Seq<FontAttributes>, style: FontStyle)
    requires
        fonts.len() <= usize::MAX,
    ensures
        forall|i: int| 0 <= i < with_style(fonts, style).len() ==> #[trigger] with_style(fonts, style)[i] < fonts.len(),
    decreases fonts.len(),
{
    if fonts.len() > 0 {
        let prev = with_style(fonts.drop_last(), style);
        lemma_with_style_bounds(fonts.drop_last(), style);
        let w = with_style(fonts, style);
        assert forall|i: int| 0 <= i < w.len() implies #[trigger] w[i] < fonts.len() by {
            if i < prev.len() {
                assert(w[i] == prev[i]);
            }
        }
    }
}

/// The positions of the fonts with slant `style`, in order.
pub fn filter_fonts_by_style(fonts: &Vec<FontAttributes>, style: FontStyle) -> (res: Vec<usize>)
    ensures
        res@ == with_style(fonts@, style),
{
    let mut result: Vec<usize> = Vec::new();
    let mut i: usize = 0;
    while i < fonts.len()
        invariant
            i <= fonts@.len(),
            result@ == with_style(fonts@.take(i as int), style),
        decreases fonts@.len() - i,
    {
        proof {
            let t = fonts@.take(i + 1);
            assert(t.drop_last() =~= fonts@.take(i as int));
            assert(t.last() == fonts@[i as int]);
        }
        if fonts[i].style == style {
            result.push(i);
        }
        i = i + 1;
    }
    proof {
        assert(fonts@.take(i as int) =~= fonts@);
    }
    result
}

/// The first candidate whose weight is nearest to `expected_weight`; `None` where there is no
/// candidate.
pub fn select_best_font_by_weight(fonts: &Vec<FontAttributes>, candidates: &Vec<usize>, expected_weight: u16) -> (res: Option<usize>)
    requires
        forall|i: int| 0 <= i < candidates@.len() ==> #[trigger] candidates@[i] < fonts@.len(),
    ensures
        match res {
            Some(k) => first_nearest(fonts@, candidates@, expected_weight, k),
            None => candidates@.len() == 0,
        },
{
    let mut best: Option<usize> = None;
    let mut best_pos: usize = 0;
    let mut best_diff: u32 = 0;
    let mut i: usize = 0;
    while i < candidates.len()
        invariant
            i <= candidates@.len(),
            forall|j: int| 0 <= j < candidates@.len() ==> #[trigger] candidates@[j] < fonts@.len(),
            i == 0 <==> best is None,
            best matches Some(k) ==> {
                &&& best_pos < i
                &&& candidates@[best_pos as int] == k
                &&& best_diff == weight_distance(fonts@[k as int].weight, expected_weight)
                &&& forall|q: int| 0 <= q < i ==>
                    weight_distance(fonts@[candidates@[q] as int].weight, expected_weight) >= best_diff
                &&& forall|q: int| 0 <= q < best_pos ==>
                    weight_distance(fonts@[candidates@[q] as int].weight, expected_weight) > best_diff
            },
        decreases candidates@.len() - i,
    {
        let f = candidates[i];
        let w = fonts[f].weight;
        let diff: u32 = if w >= expected_weight { (w - expected_weight) as u32 } else { (expected_weight - w) as u32 };
        match best {
            None => {
                best = Some(f);
                best_pos = i;
                best_diff = diff;
            },
            Some(_) => {
                if diff < best_diff {
                    best = Some(f);
                    best_pos = i;
                    best_diff = diff;
                }
            },
        }
        i = i + 1;
    }
    proof {
        if let Some(k) = best {
            assert(first_nearest(fonts@, candidates@, expected_weight, k)) by {
                let p = best_pos as int;
                assert(0 <= p < candidates@.len() && candidates@[p] == k);
            }
        }
    }
    best
}

/// The font to use for slant `style` and weight `weight`: among the fonts with that slant (or
/// the upright ones, where none has it), the first one nearest in weight.
pub fn select_font(fonts: &Vec<FontAttributes>, style: FontStyle, weight: u16) -> (res: Option<usize>)
    ensures
        match res {
            Some(k) => first_nearest(fonts@, style_candidates(fonts@, style), weight, k),
            None => style_candidates(fonts@, style).len() == 0,
        },
{
    let mut result = filter_fonts_by_style(fonts, style);
    if result.len() == 0 && style != FontStyle::Normal {
        result = filter_fonts_by_style(fonts, FontStyle::Normal);
    }
    let n = fonts.len();
    proof {
        assert(fonts@.len() == n);
        lemma_with_style_bounds(fonts@, style);
        lemma_with_style_bounds(fonts@, FontStyle::Normal);
    }
    select_best_font_by_weight(fonts, &result, weight)
}

} // verus!
