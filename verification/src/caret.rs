use vstd::prelude::*;

verus! {

/// The display state of an editable field: whether it has the focus, whether the blinking caret
/// is in its visible phase, and whether there is text to show (else the placeholder shows).
pub struct EditableState {
    pub focusing: bool,
    pub caret_visible: bool,
    pub has_text: bool,
}

impl EditableState {
    pub fn new() -> (res: EditableState)
        ensures
            !res.focusing,
            !res.caret_visible,
            !res.has_text,
    {
        EditableState { focusing: false, caret_visible: false, has_text: false }
    }

    /// The field gains the focus: the caret shows at once and starts blinking.
    pub fn handle_focus(&mut self)
        ensures
            final(self).focusing,
            final(self).caret_visible,
            final(self).has_text == old(self).has_text,
    {
        self.focusing = true;
        self.caret_visible = true;
    }

    /// The field loses the focus: the caret hides.
    pub fn handle_blur(&mut self)
        ensures
            !final(self).focusing,
            !final(self).caret_visible,
            final(self).has_text == old(self).has_text,
    {
        self.focusing = false;
        self.caret_visible = false;
    }

    /// One blink of the caret.
    pub fn caret_tick(&mut self)
        ensures
            final(self).caret_visible == !old(self).caret_visible,
            final(self).focusing == old(self).focusing,
            final(self).has_text == old(self).has_text,
    {
        self.caret_visible = !self.caret_visible;
    }

    /// Records whether the field's text is empty.
    pub fn set_text(&mut self, text: &str)
        ensures
            final(self).has_text == (text@.len() > 0),
            final(self).focusing == old(self).focusing,
            final(self).caret_visible == old(self).caret_visible,
    {
        self.has_text = text.unicode_len() > 0;
    }

    /// Whether the caret is drawn: while the field has the focus, in the visible phase.
    pub fn caret_drawn(&self) -> (res: bool)
        ensures
            res == (self.focusing && self.caret_visible),
    {
        self.focusing && self.caret_visible
    }

    /// Whether the placeholder shows in place of the text.
    pub fn shows_placeholder(&self) -> (res: bool)
        ensures
            res == !self.has_text,
    {
        !self.has_text
    }
}

} // verus!
