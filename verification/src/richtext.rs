use vstd::prelude::*;
use crate::edit_history::TextCoord;
use crate::text_box::{TextBox, TextBoxView, selection_range, text_between};
use crate::text_model::{join_lines, valid_coord, coord_offset};

verus! {

/// The text of a line made of units: the units' texts one after another.
pub open spec fn units_text(units: Seq<String>) -> Seq<char>
    decreases units.len(),
{
    if units.len() == 0 {
        Seq::empty()
    } else {
        units_text(units.drop_last()) + units.last()@
    }
}

fn line_of_units(units: Vec<String>) -> (res: String)
    ensures
        res@ == units_text(units@),
{
    let mut res = String::new();
    let mut i: usize = 0;
    while i < units.len()
        invariant
            i <= units@.len(),
            res@ == units_text(units@.take(i as int)),
        decreases units@.len() - i,
    {
        res.append(units[i].as_str());
        proof {
            assert(units@.take(i + 1).drop_last() =~= units@.take(i as int));
        }
        i = i + 1;
    }
    proof {
        assert(units@.take(i as int) =~= units@);
    }
    res
}

/// Rich text: lines of text units, with a selection.
pub struct RichText {
    text_box: TextBox,
}

impl View for RichText {
    type V = TextBoxView;

    closed spec fn view(&self) -> TextBoxView {
        self.text_box@
    }
}

impl RichText {
    pub fn create() -> (res: RichText)
        ensures
            res@.lines.len() == 0,
            res@.selection is None,
    {
        RichText { text_box: TextBox::new() }
    }

    /// Appends a line made of `units`.
    pub fn add_line(&mut self, units: Vec<String>)
        ensures
            final(self)@ == (TextBoxView { lines: old(self)@.lines.push(units_text(units@)), ..old(self)@ }),
    {
        let line = line_of_units(units);
        self.text_box.add_line(line);
    }

    /// Inserts a line made of `units` in front of line `index`.
    pub fn insert_line(&mut self, index: usize, units: Vec<String>)
        requires
            index <= old(self)@.lines.len(),
        ensures
            final(self)@ == (TextBoxView { lines: old(self)@.lines.insert(index as int, units_text(units@)), ..old(self)@ }),
    {
        let line = line_of_units(units);
        self.text_box.insert_line(index, line);
    }

    pub fn delete_line(&mut self, line: usize)
        requires
            line < old(self)@.lines.len(),
        ensures
            final(self)@ == (TextBoxView { lines: old(self)@.lines.remove(line as int), ..old(self)@ }),
    {
        self.text_box.delete_line(line);
    }

    /// Replaces line `index` by a line made of `units`.
    pub fn update_line(&mut self, index: usize, units: Vec<String>)
        requires
            index < old(self)@.lines.len(),
        ensures
            final(self)@ == (TextBoxView { lines: old(self)@.lines.update(index as int, units_text(units@)), ..old(self)@ }),
    {
        let line = line_of_units(units);
        self.text_box.update_line(index, line);
    }

    pub fn clear(&mut self)
        ensures
            final(self)@ == (TextBoxView { lines: Seq::empty(), caret: TextCoord(0, 0), selection: None }),
    {
        self.text_box.clear();
    }

    /// Selects from `start` to `end`.
    pub fn select(&mut self, start: TextCoord, end: TextCoord)
        ensures
            final(self)@ == (TextBoxView { caret: end, selection: Some((start, end)), ..old(self)@ }),
    {
        self.text_box.select(start, end);
    }

    /// The caret standing `caret` characters into the text; `None` past its end.
    pub fn get_text_coord_by_char_offset(&self, caret: usize) -> (res: Option<TextCoord>)
        ensures
            match res {
                Some(c) => valid_coord(self@.lines, c) && coord_offset(self@.lines, c) == caret,
                None => self@.lines.len() == 0 || caret > join_lines(self@.lines).len(),
            },
    {
        self.text_box.get_text_coord_by_char_offset(caret)
    }

    /// The selected text; `None` where nothing is selected.
    pub fn get_selection_text(&self) -> (res: Option<String>)
        requires
            selection_range(self@.selection) matches Some((a, b)) ==> valid_coord(self@.lines, a) && valid_coord(self@.lines, b),
        ensures
            match selection_range(self@.selection) {
                Some((a, b)) => res matches Some(s) && s@ == text_between(self@.lines, a, b),
                None => res is None,
            },
    {
        self.text_box.get_selection_text()
    }

    /// The text: the lines joined by line feeds.
    pub fn get_text(&self) -> (res: String)
        ensures
            res@ == join_lines(self@.lines),
    {
        self.text_box.get_text()
    }
}

} // verus!
