use vstd::prelude::*;
use crate::strings::str_equals;

verus! {

#[derive(Clone, Copy, Debug, PartialEq, Eq, Structural)]
pub enum TextAlign {
    Left,
    Right,
    Center,
}

pub open spec fn align_named(name: Seq<char>) -> TextAlign {
    if name == seq!['r', 'i', 'g', 'h', 't'] {
        TextAlign::Right
    } else if name == seq!['c', 'e', 'n', 't', 'e', 'r'] {
        TextAlign::Center
    } else {
        TextAlign::Left
    }
}

/// The alignment named `left`, `right` or `center`; any other name aligns left.
pub fn parse_align(align: &str) -> (res: TextAlign)
    ensures
        res == align_named(align@),
{
    proof {
        reveal_strlit("left");
        reveal_strlit("right");
        reveal_strlit("center");
        assert("right"@ =~= seq!['r', 'i', 'g', 'h', 't']);
        assert("center"@ =~= seq!['c', 'e', 'n', 't', 'e', 'r']);
    }
    if str_equals(align, "left") {
        TextAlign::Left
    } else if str_equals(align, "right") {
        TextAlign::Right
    } else if str_equals(align, "center") {
        TextAlign::Center
    } else {
        TextAlign::Left
    }
}

/// A text label.
pub struct Label {
    text: String,
}

impl Label {
    pub closed spec fn text_spec(&self) -> Seq<char> {
        self.text@
    }

    pub fn new() -> (res: Label)
        ensures
            res.text_spec() == Seq::<char>::empty(),
    {
        Label { text: String::new() }
    }

    /// Sets the text; returns whether it changed, in which case the label is to be laid out
    /// again and a text update event with the new text is due.
    pub fn set_text(&mut self, text: String) -> (changed: bool)
        ensures
            changed == (text@ != old(self).text_spec()),
            final(self).text_spec() == text@,
    {
        let old_text = self.get_text();
        if old_text != text {
            self.text = text;
            true
        } else {
            false
        }
    }

    pub fn get_text(&self) -> (res: String)
        ensures
            res@ == self.text_spec(),
    {
        self.text.clone()
    }
}

} // verus!
