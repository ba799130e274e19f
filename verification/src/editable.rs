use vstd::prelude::*;
use crate::edit_history::{
    TextCoord, EditDetail, EditDetailView, EditHistory, EditHistoryView, EditOpView,
    recorded_history, undone_history, redone_history, history_wf,
};
use crate::element::{FormState, JsEventRegistry, listener_added};
use crate::error::DeftError;
use crate::event::{KeyEventDetail, NamedKey, TextUpdateEvent, TextChangeEvent, KEY_MOD_CTRL, KEY_MOD_SHIFT};
use crate::strings::{to_lowercase, str_equals, lowercase};
use crate::text_box::{TextBox, TextBoxView, selection_range, text_between, lines_fit, lines_view, clamp_offset};
use crate::text_model::{
    join_lines, split_lines, valid_coord, coord_offset, coord_le, head_of, tail_of,
    lemma_join_split, lemma_split_lines_len, lemma_join_replace, lemma_join_at, lemma_coord_offset,
    lemma_join_update_first, lemma_join_update_last, lemma_coord_order, coord_at, lemma_coord_unique, lemma_offset_order, lemma_head_prefix,
    no_line_feed, lemma_line_free, lemma_free_sub, lemma_free_concat, lemma_no_line_feed_single, lemma_no_line_feed_concat,
    lemma_no_line_feed_sub, lemma_no_line_feed_update, lemma_split_no_line_feed,
};

verus! {

/// The lines after removing the selected range `s..e`; a range within one line is cut out of
/// the line at row `caret.0`.
pub open spec fn deleted_selection(lines: Seq<Seq<char>>, caret: TextCoord, s: TextCoord, e: TextCoord) -> Seq<Seq<char>> {
    if s.0 == e.0 {
        let line = lines[s.0 as int];
        lines.update(caret.0 as int, line.take(s.1 as int) + line.skip(e.1 as int))
    } else {
        lines.take(s.0 as int) + seq![lines[s.0 as int].take(s.1 as int) + lines[e.0 as int].skip(e.1 as int)]
            + lines.skip(e.0 + 1)
    }
}

/// The lines that take the place of one line when `parts` (the pieces of the input between its
/// line feeds) are inserted into it in front of `right`, behind `left`.
pub open spec fn inserted_block(left: Seq<char>, parts: Seq<Seq<char>>, right: Seq<char>) -> Seq<Seq<char>> {
    if parts.len() == 1 {
        seq![left + parts[0] + right]
    } else {
        seq![left + parts[0]] + parts.subrange(1, parts.len() - 1) + seq![parts.last() + right]
    }
}

/// The lines after inserting `input` at caret `c`, and the caret behind the inserted text.
pub open spec fn inserted_input(lines: Seq<Seq<char>>, c: TextCoord, input: Seq<char>) -> (Seq<Seq<char>>, TextCoord) {
    let parts = split_lines(input);
    let line = lines[c.0 as int];
    let block = inserted_block(line.take(c.1 as int), parts, line.skip(c.1 as int));
    let new_lines = lines.take(c.0 as int) + block + lines.skip(c.0 + 1);
    if parts.len() == 1 {
        (new_lines, TextCoord(c.0, (c.1 + input.len()) as usize))
    } else {
        (new_lines, TextCoord((c.0 + parts.len() - 1) as usize, parts.last().len() as usize))
    }
}

/// What an edit at `caret` that types `input` does to the text box: it first removes the
/// selection, then inserts `input` where the selection began (or at `caret`); the second and
/// third components are what it removed and what it inserted, as recorded in the history, and
/// the fourth is the caret at which it is recorded.
pub open spec fn edited_text_box(v: TextBoxView, input: Seq<char>, caret: TextCoord)
    -> (TextBoxView, Option<EditDetailView>, Option<EditDetailView>, TextCoord)
{
    let (after_delete, start, del) = match selection_range(v.selection) {
        Some((s, e)) => (
            TextBoxView { lines: deleted_selection(v.lines, caret, s, e), caret: s, selection: None },
            s,
            Some(EditDetailView { content: text_between(v.lines, s, e), end: e }),
        ),
        None => (v, caret, None),
    };
    if input.len() > 0 {
        let (lines, new_caret) = inserted_input(after_delete.lines, start, input);
        (
            TextBoxView { lines: lines, caret: new_caret, selection: None },
            del,
            Some(EditDetailView { content: input, end: new_caret }),
            start,
        )
    } else {
        (after_delete, del, None, start)
    }
}

#[derive(Clone, Copy, Debug, PartialEq, Eq, Structural)]
pub enum InputType {
    Text,
    Password,
}

/// The input type named by a lowercase name.
pub open spec fn input_type_named(name: Seq<char>) -> Option<InputType> {
    if name == seq!['t', 'e', 'x', 't'] {
        Some(InputType::Text)
    } else if name == seq!['p', 'a', 's', 's', 'w', 'o', 'r', 'd'] {
        Some(InputType::Password)
    } else {
        None
    }
}

/// The name by which scripts know an input type.
pub open spec fn input_type_name(t: InputType) -> Seq<char> {
    match t {
        InputType::Text => seq!['t', 'e', 'x', 't'],
        InputType::Password => seq!['p', 'a', 's', 's', 'w', 'o', 'r', 'd'],
    }
}

impl InputType {
    /// The type's name: `text` or `password`.
    pub fn as_str(self) -> (res: &'static str)
        ensures
            res@ == input_type_name(self),
    {
        proof {
            reveal_strlit("text");
            reveal_strlit("password");
        }
        match self {
            InputType::Text => "text",
            InputType::Password => "password",
        }
    }

    /// Whether an input method may compose text for a field of this type: not for passwords.
    pub fn allows_ime(self) -> (res: bool)
        ensures
            res == (self == InputType::Text),
    {
        match self {
            InputType::Text => true,
            InputType::Password => false,
        }
    }

    /// The input type named by `value` in any case; `None` for any other name.
    pub fn from_str(value: &str) -> (res: Option<InputType>)
        ensures
            res == input_type_named(lowercase(value@)),
    {
        let lower = to_lowercase(value);
        Self::from_lowercase(lower.as_str())
    }

    /// The input type named by the lowercase name `name`.
    pub fn from_lowercase(name: &str) -> (res: Option<InputType>)
        ensures
            res == input_type_named(name@),
    {
        proof {
            reveal_strlit("text");
            reveal_strlit("password");
            assert("text"@ =~= seq!['t', 'e', 'x', 't']);
            assert("password"@ =~= seq!['p', 'a', 's', 's', 'w', 'o', 'r', 'd']);
        }
        if str_equals(name, "text") {
            Some(InputType::Text)
        } else if str_equals(name, "password") {
            Some(InputType::Password)
        } else {
            None
        }
    }
}

pub struct EditableView {
    pub text: TextBoxView,
    pub history: EditHistoryView,
    pub multiple_line: bool,
    pub input_type: InputType,
    pub rows: u32,
    pub auto_height: bool,
    pub placeholder: Seq<char>,
    /// The text events due, oldest first, not yet taken by the application.
    pub events: Seq<TextEventView>,
    /// The field's own disabled flag, which no operation sets: a field is disabled through the
    /// form element around it (see `crate::element::FormState`).
    pub disabled: bool,
    /// Whether the field's element carries the `disabled` attribute. That element is no form
    /// element, so the attribute blocks nothing.
    pub disabled_attribute: bool,
    /// The flags of the field's element: whether it takes the focus, whether an input method
    /// may compose text in it, and the names of the script events it emits.
    pub focusable: bool,
    pub allow_ime: bool,
    pub js_registry: JsEventRegistry,
}

/// The flags of a field's element, as plain values: its form state (no form element; its
/// `disabled` attribute; whether it takes the focus), whether an input method may compose text
/// in it, and the names of the script events it registers.
pub struct ElementFlags {
    pub form: FormState,
    pub allow_ime: bool,
    pub js_events: Vec<String>,
}

/// An event that a change of the text makes due.
pub enum TextEvent {
    Update(TextUpdateEvent),
    Change(TextChangeEvent),
}

pub enum TextEventView {
    Update(Seq<char>),
    Change(Seq<char>),
}

pub open spec fn text_event_view(e: TextEvent) -> TextEventView {
    match e {
        TextEvent::Update(u) => TextEventView::Update(u.value@),
        TextEvent::Change(c) => TextEventView::Change(c.value@),
    }
}

/// The events that a change of the text to `lines` makes due: a text update and a text change,
/// each carrying the whole new text.
pub open spec fn text_events(lines: Seq<Seq<char>>) -> Seq<TextEventView> {
    seq![TextEventView::Update(join_lines(lines)), TextEventView::Change(join_lines(lines))]
}

/// The text state of an editable field: its lines, caret and selection, and its edit history.
pub struct Editable {
    paragraph: TextBox,
    placeholder: TextBox,
    multiple_line: bool,
    input_type: InputType,
    edit_history: EditHistory,
    rows: u32,
    auto_height: bool,
    events: Vec<TextEvent>,
    disabled: bool,
    disabled_attribute: bool,
    focusable: bool,
    allow_ime: bool,
    js_registry: JsEventRegistry,
}

impl View for Editable {
    type V = EditableView;

    closed spec fn view(&self) -> EditableView {
        EditableView {
            text: self.paragraph@,
            history: self.edit_history@,
            multiple_line: self.multiple_line,
            input_type: self.input_type,
            rows: self.rows,
            auto_height: self.auto_height,
            placeholder: join_lines(self.placeholder@.lines),
            events: self.events@.map_values(|e: TextEvent| text_event_view(e)),
            disabled: self.disabled,
            disabled_attribute: self.disabled_attribute,
            focusable: self.focusable,
            allow_ime: self.allow_ime,
            js_registry: self.js_registry,
        }
    }
}

/// The text box of an editable field: at least one line, the caret and the selection inside
/// the text, and a size that fits the machine.
pub open spec fn text_box_wf(v: TextBoxView) -> bool {
    &&& v.lines.len() >= 1
    &&& valid_coord(v.lines, v.caret)
    &&& (selection_range(v.selection) matches Some((a, b)) ==> valid_coord(v.lines, a) && valid_coord(v.lines, b))
    &&& lines_fit(v.lines)
}

pub open spec fn editable_wf(v: EditableView) -> bool {
    text_box_wf(v.text) && history_wf(v.history)
}

/// The states that an editable field can be in: well formed, the caret at a selection within
/// one line, and no line feed inside a line.
pub open spec fn editable_valid(v: EditableView) -> bool {
    &&& editable_wf(v)
    &&& caret_fits_selection(v.text, v.text.caret)
    &&& no_line_feed(v.text.lines)
}

/// Whether `edited_text_box` may run on `v`: the caret and the text fit, and the selection's
/// ends lie in the text.
pub open spec fn can_edit(v: TextBoxView, input: Seq<char>, caret: TextCoord) -> bool {
    &&& valid_coord(v.lines, caret)
    &&& join_lines(v.lines).len() + 2 * v.lines.len() + 2 * input.len() + 2 < usize::MAX
}

proof fn lemma_lines_len_bound(lines: Seq<Seq<char>>)
    ensures
        lines.len() <= join_lines(lines).len() + 1,
    decreases lines.len(),
{
    if lines.len() > 1 {
        lemma_lines_len_bound(lines.drop_last());
    }
}

/// The joined text of an inserted block is the input with `left` in front and `right` behind.
proof fn lemma_join_block(left: Seq<char>, input: Seq<char>, right: Seq<char>)
    ensures
        join_lines(inserted_block(left, split_lines(input), right)) == left + input + right,
        inserted_block(left, split_lines(input), right).len() == split_lines(input).len(),
{
    lemma_join_split(input);
    let parts = split_lines(input);
    let k = parts.len();
    if k == 1 {
        assert(join_lines(parts) == parts[0]);
        assert(join_lines(inserted_block(left, parts, right)) == left + parts[0] + right);
    } else {
        let x1 = parts.update(0, left + parts[0]);
        lemma_join_update_first(parts, left + parts[0]);
        let jp = join_lines(parts);
        let n0 = parts[0].len() as int;
        lemma_join_at(parts, 0);
        assert(jp.take(n0) == parts[0]);
        assert(jp =~= jp.take(n0) + jp.skip(n0));
        assert(join_lines(x1) =~= left + input);
        let x2 = x1.update(k - 1, parts.last() + right);
        lemma_join_update_last(x1, parts.last() + right);
        assert(x1.last() == parts.last());
        assert(join_lines(x1).take(join_lines(x1).len() - x1.last().len()) + x1.last() =~= join_lines(x1));
        assert(join_lines(x2) =~= left + input + right);
        assert(x2 =~= inserted_block(left, parts, right));
    }
}

/// Cutting out the selection splices the joined text; the caret at its start keeps its offset.
pub proof fn lemma_delete_splices(lines: Seq<Seq<char>>, caret: TextCoord, s: TextCoord, e: TextCoord)
    requires
        valid_coord(lines, s),
        valid_coord(lines, e),
        coord_le(s, e),
        s.0 == e.0 ==> caret.0 == s.0,
    ensures
        join_lines(deleted_selection(lines, caret, s, e))
            == join_lines(lines).take(coord_offset(lines, s)) + join_lines(lines).skip(coord_offset(lines, e)),
        valid_coord(deleted_selection(lines, caret, s, e), s),
        coord_offset(deleted_selection(lines, caret, s, e), s) == coord_offset(lines, s),
        deleted_selection(lines, caret, s, e).len() <= lines.len(),
{
    let l = lines[s.0 as int].take(s.1 as int) + lines[e.0 as int].skip(e.1 as int);
    let d = deleted_selection(lines, caret, s, e);
    lemma_join_replace(lines, s.0 as int, e.0 as int, seq![l]);
    assert(d =~= lines.take(s.0 as int) + seq![l] + lines.skip(e.0 + 1));
    lemma_coord_offset(lines, s);
    lemma_coord_offset(lines, e);
    assert(join_lines(seq![l]) == l);
    assert(d.take(s.0 as int) =~= lines.take(s.0 as int));
    assert(head_of(d, s.0 as int) == head_of(lines, s.0 as int));
    assert(join_lines(d) =~= join_lines(lines).take(coord_offset(lines, s)) + join_lines(lines).skip(coord_offset(lines, e)));
}

/// Inserting `input` at `c` splices it into the joined text, and leaves the caret behind it.
pub proof fn lemma_insert_splices(lines: Seq<Seq<char>>, c: TextCoord, input: Seq<char>)
    requires
        valid_coord(lines, c),
        c.0 + split_lines(input).len() <= usize::MAX,
        c.1 + input.len() <= usize::MAX,
        input.len() <= usize::MAX,
    ensures
        ({
            let (nl, nc) = inserted_input(lines, c, input);
            &&& join_lines(nl) == join_lines(lines).take(coord_offset(lines, c)) + input
                + join_lines(lines).skip(coord_offset(lines, c))
            &&& valid_coord(nl, nc)
            &&& coord_offset(nl, nc) == coord_offset(lines, c) + input.len()
            &&& nl.len() == lines.len() + split_lines(input).len() - 1
            &&& valid_coord(nl, c)
            &&& coord_offset(nl, c) == coord_offset(lines, c)
        }),
{
    let parts = split_lines(input);
    lemma_join_split(input);
    lemma_split_lines_len(input);
    let k = parts.len();
    let line = lines[c.0 as int];
    let left = line.take(c.1 as int);
    let right = line.skip(c.1 as int);
    let block = inserted_block(left, parts, right);
    lemma_join_block(left, input, right);
    let (nl, nc) = inserted_input(lines, c, input);
    lemma_join_replace(lines, c.0 as int, c.0 as int, block);
    lemma_coord_offset(lines, c);
    let t = join_lines(lines);
    assert(join_lines(nl) =~= t.take(coord_offset(lines, c)) + input + t.skip(coord_offset(lines, c)));
    assert(nl.take(c.0 as int) =~= lines.take(c.0 as int));
    assert(head_of(nl, c.0 as int) == head_of(lines, c.0 as int));
    assert(nl[c.0 as int] == block[0]);
    let r = nc.0 as int;
    lemma_join_at(nl, r);
    if k == 1 {
        assert(nl[r] == left + parts[0] + right);
        assert(parts[0] == input);
    } else {
        assert(nl[r] == parts.last() + right);
        assert(nl.skip(r + 1) =~= lines.skip(c.0 + 1));
        assert(tail_of(nl, r) == tail_of(lines, c.0 as int));
        assert(t.skip(coord_offset(lines, c)) == right + tail_of(lines, c.0 as int));
        assert(head_of(nl, r).len() + parts.last().len() + right.len() + tail_of(lines, c.0 as int).len()
            == coord_offset(lines, c) + input.len() + right.len() + tail_of(lines, c.0 as int).len());
    }
}

/// Cutting out a selection keeps the lines free of line feeds.
proof fn lemma_delete_keeps_no_line_feed(lines: Seq<Seq<char>>, caret: TextCoord, s: TextCoord, e: TextCoord)
    requires
        no_line_feed(lines),
        valid_coord(lines, s),
        valid_coord(lines, e),
        valid_coord(lines, caret),
        coord_le(s, e),
    ensures
        no_line_feed(deleted_selection(lines, caret, s, e)),
{
    lemma_line_free(lines, s.0 as int);
    lemma_line_free(lines, e.0 as int);
    lemma_free_sub(lines[s.0 as int], 0, s.1 as int);
    lemma_free_sub(lines[e.0 as int], e.1 as int, lines[e.0 as int].len() as int);
    if s.0 == e.0 {
        let line = lines[s.0 as int];
        lemma_free_sub(line, e.1 as int, line.len() as int);
        lemma_free_concat(line.take(s.1 as int), line.skip(e.1 as int));
        lemma_no_line_feed_update(lines, caret.0 as int, line.take(s.1 as int) + line.skip(e.1 as int));
    } else {
        let l = lines[s.0 as int].take(s.1 as int) + lines[e.0 as int].skip(e.1 as int);
        lemma_free_concat(lines[s.0 as int].take(s.1 as int), lines[e.0 as int].skip(e.1 as int));
        lemma_no_line_feed_single(l);
        lemma_no_line_feed_sub(lines, 0, s.0 as int);
        lemma_no_line_feed_sub(lines, e.0 + 1, lines.len() as int);
        lemma_no_line_feed_concat(lines.take(s.0 as int), seq![l]);
        lemma_no_line_feed_concat(lines.take(s.0 as int) + seq![l], lines.skip(e.0 + 1));
    }
}

/// Inserting a text keeps the lines free of line feeds: its line feeds start new lines.
proof fn lemma_insert_keeps_no_line_feed(lines: Seq<Seq<char>>, c: TextCoord, input: Seq<char>)
    requires
        no_line_feed(lines),
        valid_coord(lines, c),
    ensures
        no_line_feed(inserted_input(lines, c, input).0),
{
    let parts = split_lines(input);
    lemma_split_lines_len(input);
    lemma_split_no_line_feed(input);
    let line = lines[c.0 as int];
    lemma_line_free(lines, c.0 as int);
    lemma_free_sub(line, 0, c.1 as int);
    lemma_free_sub(line, c.1 as int, line.len() as int);
    let left = line.take(c.1 as int);
    let right = line.skip(c.1 as int);
    lemma_line_free(parts, 0);
    lemma_line_free(parts, parts.len() - 1);
    let block = inserted_block(left, parts, right);
    if parts.len() == 1 {
        lemma_free_concat(left, parts[0]);
        lemma_free_concat(left + parts[0], right);
        lemma_no_line_feed_single(left + parts[0] + right);
    } else {
        lemma_free_concat(left, parts[0]);
        lemma_free_concat(parts.last(), right);
        lemma_no_line_feed_single(left + parts[0]);
        lemma_no_line_feed_single(parts.last() + right);
        lemma_no_line_feed_sub(parts, 1, parts.len() - 1);
        lemma_no_line_feed_concat(seq![left + parts[0]], parts.subrange(1, parts.len() - 1));
        lemma_no_line_feed_concat(seq![left + parts[0]] + parts.subrange(1, parts.len() - 1), seq![parts.last() + right]);
    }
    lemma_no_line_feed_sub(lines, 0, c.0 as int);
    lemma_no_line_feed_sub(lines, c.0 + 1, lines.len() as int);
    lemma_no_line_feed_concat(lines.take(c.0 as int), block);
    lemma_no_line_feed_concat(lines.take(c.0 as int) + block, lines.skip(c.0 + 1));
}

/// An edit keeps the lines free of line feeds.
pub proof fn lemma_edit_keeps_no_line_feed(v: TextBoxView, input: Seq<char>, caret: TextCoord)
    requires
        text_box_wf(v),
        can_edit(v, input, caret),
        caret_fits_selection(v, caret),
        no_line_feed(v.lines),
    ensures
        no_line_feed(edited_text_box(v, input, caret).0.lines),
{
    let (after_delete, start) = match selection_range(v.selection) {
        Some((s, e)) => {
            lemma_coord_order(v.lines, s, e);
            lemma_delete_keeps_no_line_feed(v.lines, caret, s, e);
            lemma_delete_splices(v.lines, caret, s, e);
            (deleted_selection(v.lines, caret, s, e), s)
        },
        None => (v.lines, caret),
    };
    if input.len() > 0 {
        lemma_insert_keeps_no_line_feed(after_delete, start, input);
    }
}

/// `edited_text_box` replaces the selected text (or nothing, where nothing is selected) by the
/// input in the joined text, and leaves the caret right behind the input.
#[verifier::rlimit(40)]
pub proof fn lemma_edit_splices(v: TextBoxView, input: Seq<char>, caret: TextCoord)
    requires
        text_box_wf(v),
        can_edit(v, input, caret),
        selection_range(v.selection) matches Some((s, e)) ==> (s.0 == e.0 ==> caret.0 == s.0),
    ensures
        ({
            let (nv, del, ins, start) = edited_text_box(v, input, caret);
            let t = join_lines(v.lines);
            let (a, b) = match selection_range(v.selection) {
                Some((s, e)) => (coord_offset(v.lines, s), coord_offset(v.lines, e)),
                None => (coord_offset(v.lines, caret), coord_offset(v.lines, caret)),
            };
            &&& join_lines(nv.lines) == t.take(a) + input + t.skip(b)
            &&& text_box_wf(nv)
            &&& input.len() > 0 ==> coord_offset(nv.lines, nv.caret) == a + input.len()
            &&& valid_coord(nv.lines, start)
            &&& a <= b
            &&& a == coord_offset(v.lines, start)
            &&& valid_coord(nv.lines, start)
            &&& coord_offset(nv.lines, start) == a
            &&& nv.lines.len() <= v.lines.len() + input.len()
            &&& b <= t.len()
        }),
{
    let t = join_lines(v.lines);
    lemma_lines_len_bound(v.lines);
    lemma_split_lines_len(input);
    let (nv, del, ins, start) = edited_text_box(v, input, caret);
    let (lines1, c1) = match selection_range(v.selection) {
        Some((s, e)) => {
            lemma_delete_splices(v.lines, caret, s, e);
            lemma_coord_order(v.lines, s, e);
            lemma_coord_offset(v.lines, s);
            lemma_coord_offset(v.lines, e);
            (deleted_selection(v.lines, caret, s, e), s)
        },
        None => {
            lemma_coord_offset(v.lines, caret);
            (v.lines, caret)
        },
    };
    let (a, b) = match selection_range(v.selection) {
        Some((s, e)) => (coord_offset(v.lines, s), coord_offset(v.lines, e)),
        None => (coord_offset(v.lines, caret), coord_offset(v.lines, caret)),
    };
    assert(join_lines(lines1) =~= t.take(a) + t.skip(b));
    lemma_coord_offset(lines1, c1);
    lemma_lines_len_bound(lines1);
    if input.len() > 0 {
        lemma_insert_splices(lines1, c1, input);
        let t1 = join_lines(lines1);
        assert(t1.take(a) =~= t.take(a));
        assert(t1.skip(a) =~= t.skip(b));
        lemma_lines_len_bound(nv.lines);
    } else {
        assert(t.take(a) + input + t.skip(b) =~= t.take(a) + t.skip(b));
    }
}

/// Splits `input` at its line feeds.
fn split_input(input: &str) -> (res: Vec<String>)
    ensures
        lines_view(res@) == split_lines(input@),
{
    let n = input.unicode_len();
    let mut parts: Vec<String> = Vec::new();
    let mut start: usize = 0;
    let mut i: usize = 0;
    proof {
        assert(input@.take(0) =~= Seq::<char>::empty());
        assert(lines_view(parts@).push(input@.subrange(0, 0)) =~= seq![Seq::<char>::empty()]);
    }
    while i < n
        invariant
            n == input@.len(),
            start <= i <= n,
            split_lines(input@.take(i as int)) == lines_view(parts@).push(input@.subrange(start as int, i as int)),
        decreases n - i,
    {
        let c = input.get_char(i);
        let ghost pre = input@.take(i as int);
        let ghost next = input@.take(i + 1);
        proof {
            assert(next.drop_last() =~= pre);
            assert(next.last() == c);
        }
        if c == '\n' {
            let piece = input.substring_char(start, i).to_owned();
            let ghost old_parts = lines_view(parts@);
            parts.push(piece);
            proof {
                assert(lines_view(parts@) =~= old_parts.push(piece@));
                assert(input@.subrange((i + 1) as int, (i + 1) as int) =~= Seq::<char>::empty());
            }
            start = i + 1;
        } else {
            proof {
                let rest = split_lines(pre);
                assert(rest.last() == input@.subrange(start as int, i as int));
                assert(input@.subrange(start as int, i + 1) =~= input@.subrange(start as int, i as int).push(c));
                assert(lines_view(parts@).push(input@.subrange(start as int, i + 1))
                    =~= rest.update(rest.len() - 1, rest.last().push(c)));
            }
        }
        i = i + 1;
    }
    let piece = input.substring_char(start, n).to_owned();
    let ghost old_parts = lines_view(parts@);
    parts.push(piece);
    proof {
        assert(input@.take(n as int) =~= input@);
        assert(lines_view(parts@) =~= old_parts.push(piece@));
    }
    parts
}

/// `s` without the carriage returns at its end.
pub open spec fn trim_line_end(s: Seq<char>) -> Seq<char>
    decreases s.len(),
{
    if s.len() > 0 && s.last() == '\r' {
        trim_line_end(s.drop_last())
    } else {
        s
    }
}

fn trim_line_endings(s: &str) -> (res: String)
    ensures
        res@ == trim_line_end(s@),
{
    let mut end = s.unicode_len();
    assert(s@.take(end as int) =~= s@);
    while end > 0 && s.get_char(end - 1) == '\r'
        invariant
            end <= s@.len(),
            trim_line_end(s@.take(end as int)) == trim_line_end(s@),
        decreases end,
    {
        proof {
            assert(s@.take(end as int).drop_last() =~= s@.take(end - 1));
        }
        end = end - 1;
    }
    proof {
        assert(s@.take(end as int) =~= s@.subrange(0, end as int));
    }
    s.substring_char(0, end).to_owned()
}

pub open spec fn history_after(h: EditHistoryView, record: bool, start: TextCoord, del: Option<EditDetailView>, ins: Option<EditDetailView>) -> EditHistoryView {
    if record {
        recorded_history(h, start, del, ins)
    } else {
        h
    }
}

/// Whether the caret may stand for the selection's start in an edit: a selection within one
/// line is cut out of the caret's line.
pub open spec fn caret_fits_selection(v: TextBoxView, caret: TextCoord) -> bool {
    selection_range(v.selection) matches Some((s, e)) ==> (s.0 == e.0 ==> caret.0 == s.0)
}

/// Cuts the range `start..end` out of the paragraph's lines.
fn delete_range(paragraph: &mut TextBox, start: TextCoord, end: TextCoord, caret: TextCoord)
    requires
        valid_coord(old(paragraph)@.lines, start),
        valid_coord(old(paragraph)@.lines, end),
        coord_le(start, end),
        start.0 == end.0 ==> caret.0 < old(paragraph)@.lines.len(),
    ensures
        final(paragraph)@ == (TextBoxView {
            lines: deleted_selection(old(paragraph)@.lines, caret, start, end),
            ..old(paragraph)@
        }),
{
    let ghost lv0 = paragraph@.lines;
    if start.0 == end.0 {
        let line_text = match paragraph.get_line_text(start.0) {
            Some(t) => t,
            None => String::new(),
        };
        let ls = line_text.as_str();
        let len = ls.unicode_len();
        let mut new_text = ls.substring_char(0, start.1).to_owned();
        new_text.append(ls.substring_char(end.1, len));
        proof {
            assert(new_text@ =~= lv0[start.0 as int].take(start.1 as int) + lv0[start.0 as int].skip(end.1 as int));
        }
        paragraph.update_line(caret.0, new_text);
    } else {
        let first_line = match paragraph.get_line_text(start.0) {
            Some(t) => t,
            None => String::new(),
        };
        let fs = first_line.as_str();
        let mut new_text = fs.substring_char(0, start.1).to_owned();
        let last_line = match paragraph.get_line_text(end.0) {
            Some(t) => t,
            None => String::new(),
        };
        let ls = last_line.as_str();
        let len = ls.unicode_len();
        new_text.append(ls.substring_char(end.1, len));
        proof {
            assert(new_text@ =~= lv0[start.0 as int].take(start.1 as int) + lv0[end.0 as int].skip(end.1 as int));
        }
        paragraph.update_line(start.0, new_text);
        let ghost l1 = paragraph@.lines;
        let mut j = start.0;
        while j < end.0
            invariant
                start.0 <= j <= end.0,
                end.0 < lv0.len(),
                l1.len() == lv0.len(),
                paragraph@.lines == l1.take(start.0 + 1) + l1.skip(j + 1),
                paragraph@.caret == old(paragraph)@.caret,
                paragraph@.selection == old(paragraph)@.selection,
            decreases end.0 - j,
        {
            self_delete(paragraph, start.0 + 1);
            proof {
                assert(paragraph@.lines =~= l1.take(start.0 + 1) + l1.skip(j + 2));
            }
            j = j + 1;
        }
        proof {
            assert(paragraph@.lines =~= deleted_selection(lv0, caret, start, end));
        }
    }
}

fn self_delete(paragraph: &mut TextBox, row: usize)
    requires
        row < old(paragraph)@.lines.len(),
    ensures
        final(paragraph)@ == (TextBoxView { lines: old(paragraph)@.lines.remove(row as int), ..old(paragraph)@ }),
{
    paragraph.delete_line(row);
}

/// Inserts `input` into the paragraph's lines at `caret` and returns the caret behind it.
fn insert_input(paragraph: &mut TextBox, input: &str, caret: TextCoord) -> (res: TextCoord)
    requires
        valid_coord(old(paragraph)@.lines, caret),
        input@.len() > 0,
        caret.0 + old(paragraph)@.lines.len() + input@.len() + 2 < usize::MAX,
        caret.1 + input@.len() < usize::MAX,
    ensures
        (final(paragraph)@.lines, res) == inserted_input(old(paragraph)@.lines, caret, input@),
        final(paragraph)@.caret == old(paragraph)@.caret,
        final(paragraph)@.selection == old(paragraph)@.selection,
{
    let ghost lv1 = paragraph@.lines;
    let parts = split_input(input);
    let k = parts.len();
    proof {
        lemma_split_lines_len(input@);
    }
    let line_text = match paragraph.get_line_text(caret.0) {
        Some(t) => t,
        None => String::new(),
    };
    let ls = line_text.as_str();
    let len = ls.unicode_len();
    let left = ls.substring_char(0, caret.1);
    let right = ls.substring_char(caret.1, len);
    let ghost block = inserted_block(left@, split_lines(input@), right@);
    proof {
        assert(left@ =~= lv1[caret.0 as int].take(caret.1 as int));
        assert(right@ =~= lv1[caret.0 as int].skip(caret.1 as int));
    }
    if k == 1 {
        let mut t = left.to_owned();
        t.append(input);
        t.append(right);
        paragraph.update_line(caret.0, t);
        proof {
            assert(split_lines(input@)[0] == input@) by {
                lemma_join_split(input@);
            }
            assert(paragraph@.lines =~= lv1.take(caret.0 as int) + block + lv1.skip(caret.0 + 1));
        }
        TextCoord(caret.0, caret.1 + input.unicode_len())
    } else {
        let mut first = left.to_owned();
        first.append(parts[0].as_str());
        paragraph.insert_line(caret.0, first);
        let mut i: usize = 1;
        while i < k - 1
            invariant
                1 <= i <= k - 1,
                k == split_lines(input@).len(),
                k >= 2,
                lines_view(parts@) == split_lines(input@),
                caret.0 < lv1.len(),
                caret.0 + k + lv1.len() < usize::MAX,
                paragraph@.lines == lv1.take(caret.0 as int) + seq![left@ + split_lines(input@)[0]]
                    + split_lines(input@).subrange(1, i as int) + lv1.skip(caret.0 as int),
                paragraph@.caret == old(paragraph)@.caret,
                paragraph@.selection == old(paragraph)@.selection,
            decreases k - i,
        {
            paragraph.insert_line(caret.0 + i, parts[i].clone());
            proof {
                assert(paragraph@.lines =~= lv1.take(caret.0 as int) + seq![left@ + split_lines(input@)[0]]
                    + split_lines(input@).subrange(1, i + 1) + lv1.skip(caret.0 as int));
            }
            i = i + 1;
        }
        let mut last = parts[k - 1].clone();
        let last_len = last.as_str().unicode_len();
        last.append(right);
        paragraph.update_line(caret.0 + k - 1, last);
        proof {
            assert(paragraph@.lines =~= lv1.take(caret.0 as int) + block + lv1.skip(caret.0 + 1));
        }
        TextCoord(caret.0 + k - 1, last_len)
    }
}


pub open spec fn delete_content(op: EditOpView) -> Seq<char> {
    match op.delete {
        Some(d) => d.content,
        None => Seq::empty(),
    }
}

pub open spec fn insert_content(op: EditOpView) -> Seq<char> {
    match op.insert {
        Some(i) => i.content,
        None => Seq::empty(),
    }
}

/// The text box with the range `caret..end` selected, where `end` is given.
pub open spec fn select_for(t: TextBoxView, caret: TextCoord, end: Option<TextCoord>) -> TextBoxView {
    match end {
        Some(e) => TextBoxView { caret: e, selection: Some((caret, e)), ..t },
        None => t,
    }
}

pub open spec fn detail_end(d: Option<EditDetailView>) -> Option<TextCoord> {
    match d {
        Some(x) => Some(x.end),
        None => None,
    }
}

/// Whether an edit of the history, replayed by selecting `caret..end` and typing `content`,
/// fits the current text: its carets lie in the text, in order, and the result fits the machine.
pub open spec fn replay_fits(t: TextBoxView, caret: TextCoord, end: Option<TextCoord>, content: Seq<char>) -> bool {
    &&& (end matches Some(e) ==> valid_coord(t.lines, e) && coord_le(caret, e))
    &&& can_edit(select_for(t, caret, end), content, caret)
    &&& caret_fits_selection(select_for(t, caret, end), caret)
}

/// The field after an undo: the last applied edit is reverted by selecting what it inserted and
/// typing back what it removed; the new text is due in a text update and a text change event.
/// Where nothing is left to undo, nothing changes; where the edit does not fit the current
/// text, the history steps back and the text stays.
pub open spec fn undone_editable(v: EditableView) -> EditableView {
    let (h1, op) = undone_history(v.history);
    match op {
        Some(o) => if replay_fits(v.text, o.caret, detail_end(o.insert), delete_content(o)) {
            EditableView {
                text: edited_text_box(select_for(v.text, o.caret, detail_end(o.insert)), delete_content(o), o.caret).0,
                history: h1,
                events: v.events + text_events(
                    edited_text_box(select_for(v.text, o.caret, detail_end(o.insert)), delete_content(o), o.caret).0.lines),
                ..v
            }
        } else {
            EditableView { history: h1, ..v }
        },
        None => v,
    }
}

/// The field after a redo: the next undone edit is applied again by selecting what it removed
/// and typing what it inserted; the new text is due in a text update and a text change event.
/// Where nothing is left to redo, nothing changes; where the edit does not fit the current
/// text, the history steps forward and the text stays.
pub open spec fn redone_editable(v: EditableView) -> EditableView {
    let (h1, op) = redone_history(v.history);
    match op {
        Some(o) => if replay_fits(v.text, o.caret, detail_end(o.delete), insert_content(o)) {
            EditableView {
                text: edited_text_box(select_for(v.text, o.caret, detail_end(o.delete)), insert_content(o), o.caret).0,
                history: h1,
                events: v.events + text_events(
                    edited_text_box(select_for(v.text, o.caret, detail_end(o.delete)), insert_content(o), o.caret).0.lines),
                ..v
            }
        } else {
            EditableView { history: h1, ..v }
        },
        None => v,
    }
}

/// The caret one line up or down, its column kept where the line is long enough.
pub open spec fn vertical_caret(lines: Seq<Seq<char>>, c: TextCoord, is_up: bool) -> TextCoord {
    if is_up && c.0 == 0 || !is_up && c.0 + 1 >= lines.len() {
        c
    } else {
        let row = if is_up { (c.0 - 1) as usize } else { (c.0 + 1) as usize };
        let len = lines[row as int].len();
        TextCoord(row, if c.1 <= len { c.1 } else { len as usize })
    }
}

/// Whether `n` more characters fit into the text.
pub open spec fn text_room(v: EditableView, n: int) -> bool {
    join_lines(v.text.lines).len() + 2 * v.text.lines.len() + 2 * n + 2 < usize::MAX
}

/// The text after typing `input` at the caret, recorded in the history; the new text is due
/// in a text update and a text change event.
pub open spec fn input_editable(v: EditableView, input: Seq<char>) -> EditableView {
    let (tv, del, ins, start) = edited_text_box(v.text, input, v.text.caret);
    EditableView {
        text: tv,
        history: recorded_history(v.history, start, del, ins),
        events: v.events + text_events(tv.lines),
        ..v
    }
}

/// The lines that a text sets: its pieces between line feeds, without trailing carriage returns.
pub open spec fn text_lines(text: Seq<char>) -> Seq<Seq<char>> {
    split_lines(text).map_values(|l: Seq<char>| trim_line_end(l))
}

proof fn lemma_trim_len(s: Seq<char>)
    ensures
        trim_line_end(s).len() <= s.len(),
        trim_line_end(s) == s.take(trim_line_end(s).len() as int),
    decreases s.len(),
{
    if s.len() > 0 && s.last() == '\r' {
        lemma_trim_len(s.drop_last());
        assert(s.drop_last().take(trim_line_end(s).len() as int) =~= s.take(trim_line_end(s).len() as int));
    } else {
        assert(s.take(s.len() as int) =~= s);
    }
}

/// The lines that a text sets hold no line feed.
proof fn lemma_text_lines_no_line_feed(text: Seq<char>)
    ensures
        no_line_feed(text_lines(text)),
{
    let parts = split_lines(text);
    lemma_split_no_line_feed(text);
    let tl = text_lines(text);
    assert forall|i: int, j: int| 0 <= i < tl.len() && 0 <= j < tl[i].len() implies #[trigger] tl[i][j] != '\n' by {
        lemma_trim_len(parts[i]);
        assert(tl[i] == trim_line_end(parts[i]));
        assert(tl[i][j] == parts[i][j]);
        assert(parts[i][j] != '\n');
    }
}

proof fn lemma_join_trim_len(lines: Seq<Seq<char>>)
    ensures
        join_lines(lines.map_values(|l: Seq<char>| trim_line_end(l))).len() <= join_lines(lines).len(),
    decreases lines.len(),
{
    let m = lines.map_values(|l: Seq<char>| trim_line_end(l));
    if lines.len() == 1 {
        lemma_trim_len(lines[0]);
    } else if lines.len() > 1 {
        lemma_join_trim_len(lines.drop_last());
        assert(m.drop_last() =~= lines.drop_last().map_values(|l: Seq<char>| trim_line_end(l)));
        lemma_trim_len(lines.last());
    }
}


/// Which entries of a field's context menu are enabled.
pub struct EditMenu {
    pub cut: bool,
    pub copy: bool,
    pub paste: bool,
    pub select_all: bool,
}

/// Whether "select all" would change something: the text is not empty and not already the
/// whole selection.
pub open spec fn select_all_useful(v: EditableView) -> bool {
    let t = join_lines(v.text.lines);
    &&& t.len() > 0
    &&& match selection_range(v.text.selection) {
        Some((a, b)) => text_between(v.text.lines, a, b) != t,
        None => true,
    }
}

/// What a key press asks of the application besides the edit: to put a text on the clipboard,
/// or to paste the clipboard's text.
pub enum KeyAction {
    Nothing,
    Copy(String),
    Paste,
}

pub enum KeyActionView {
    Nothing,
    Copy(Seq<char>),
    Paste,
}

pub open spec fn key_action_view(a: KeyAction) -> KeyActionView {
    match a {
        KeyAction::Nothing => KeyActionView::Nothing,
        KeyAction::Copy(s) => KeyActionView::Copy(s@),
        KeyAction::Paste => KeyActionView::Paste,
    }
}

/// The field after an input method shows the composition `content` with its cursor at the
/// `offset`-th character: the composition is typed at the caret like any input, then selected
/// (the caret at its end); where the cursor lies inside it, the caret moves back to the cursor,
/// which drops the selection.
pub open spec fn preedit_editable(v: EditableView, content: Seq<char>, offset: Option<usize>) -> EditableView {
    let w = input_editable(v, content);
    if content.len() == 0 {
        w
    } else {
        let lines = w.text.lines;
        let end = w.text.caret;
        let start = coord_at(lines, coord_offset(lines, end) - content.len());
        let w1 = EditableView { text: TextBoxView { caret: end, selection: Some((start, end)), ..w.text }, ..w };
        match offset {
            Some(k) => if k < content.len() {
                moved_editable(w1, k - content.len())
            } else {
                w1
            },
            None => w1,
        }
    }
}

/// The field with its caret moved `delta` characters through the text and no selection.
pub open spec fn moved_editable(v: EditableView, delta: int) -> EditableView {
    let lines = v.text.lines;
    let off = clamp_offset(coord_offset(lines, v.text.caret) + delta, join_lines(lines).len() as int);
    EditableView { text: TextBoxView { caret: coord_at(lines, off), selection: None, ..v.text }, ..v }
}

pub open spec fn vertical_editable(v: EditableView, is_up: bool) -> EditableView {
    EditableView {
        text: TextBoxView { caret: vertical_caret(v.text.lines, v.text.caret, is_up), selection: None, ..v.text },
        ..v
    }
}

pub open spec fn select_all_editable(v: EditableView) -> EditableView {
    let e = TextCoord((v.text.lines.len() - 1) as usize, v.text.lines.last().len() as usize);
    EditableView { text: TextBoxView { caret: e, selection: Some((TextCoord(0, 0), e)), ..v.text }, ..v }
}

/// Backspace: without a selection the character in front of the caret is selected first; then
/// the selection is removed.
pub open spec fn backspace_editable(v: EditableView) -> EditableView {
    let end = v.text.caret;
    let v1 = if selection_range(v.text.selection) is None && (end.0 > 0 || end.1 > 0) {
        let m = moved_editable(v, -1);
        EditableView { text: TextBoxView { caret: end, selection: Some((m.text.caret, end)), ..m.text }, ..m }
    } else {
        v
    };
    input_editable(v1, Seq::empty())
}

/// The text that a copy takes.
pub open spec fn copy_text(v: EditableView) -> Seq<char> {
    match (v.input_type, selection_range(v.text.selection)) {
        (InputType::Text, Some((a, b))) => text_between(v.text.lines, a, b),
        _ => Seq::empty(),
    }
}

pub open spec fn copy_action(v: EditableView) -> KeyActionView {
    if copy_text(v).len() > 0 {
        KeyActionView::Copy(copy_text(v))
    } else {
        KeyActionView::Nothing
    }
}

/// What a named key pressed without modifiers does to the field.
pub open spec fn named_key_editable(v: EditableView, nk: NamedKey) -> EditableView {
    match nk {
        NamedKey::Backspace => backspace_editable(v),
        NamedKey::Enter => if v.multiple_line { input_editable(v, seq!['\n']) } else { v },
        NamedKey::ArrowLeft => moved_editable(v, -1),
        NamedKey::ArrowRight => moved_editable(v, 1),
        NamedKey::ArrowUp => vertical_editable(v, true),
        NamedKey::ArrowDown => vertical_editable(v, false),
        NamedKey::Space => input_editable(v, seq![' ']),
        NamedKey::Tab => input_editable(v, seq![' ', ' ', ' ']),
        NamedKey::Other => v,
    }
}

/// What a key pressed with the shortcut modifier does: `c`, `x`, `v`, `a` and `z` copy, cut,
/// paste, select all and undo.
pub open spec fn shortcut_editable(v: EditableView, k: Seq<char>) -> (EditableView, KeyActionView) {
    if k == seq!['c'] {
        (v, copy_action(v))
    } else if k == seq!['x'] {
        (input_editable(v, Seq::empty()), copy_action(v))
    } else if k == seq!['v'] {
        (v, KeyActionView::Paste)
    } else if k == seq!['a'] {
        (select_all_editable(v), KeyActionView::Nothing)
    } else if k == seq!['z'] {
        (undone_editable(v), KeyActionView::Nothing)
    } else {
        (v, KeyActionView::Nothing)
    }
}

/// What a key press does to the field, and what it asks of the application. Without
/// modifiers, named keys edit or move the caret and other keys type their text; with shift,
/// keys type their text; with the shortcut modifier see `shortcut_editable`; with control and
/// shift, `z` (in any case) redoes.
pub open spec fn key_down_editable(
    v: EditableView,
    modifiers: u32,
    named_key: Option<NamedKey>,
    key: Option<Seq<char>>,
    shortcut_modifier: u32,
) -> (EditableView, KeyActionView) {
    if modifiers == 0 {
        match named_key {
            Some(nk) => (named_key_editable(v, nk), KeyActionView::Nothing),
            None => match key {
                Some(k) => (input_editable(v, k), KeyActionView::Nothing),
                None => (v, KeyActionView::Nothing),
            },
        }
    } else if modifiers == KEY_MOD_SHIFT {
        match key {
            Some(k) => (input_editable(v, k), KeyActionView::Nothing),
            None => (v, KeyActionView::Nothing),
        }
    } else if modifiers == shortcut_modifier {
        match key {
            Some(k) => shortcut_editable(v, k),
            None => (v, KeyActionView::Nothing),
        }
    } else if modifiers == (KEY_MOD_CTRL | KEY_MOD_SHIFT) {
        match key {
            Some(k) => if lowercase(k) == seq!['z'] {
                (redone_editable(v), KeyActionView::Nothing)
            } else {
                (v, KeyActionView::Nothing)
            },
            None => (v, KeyActionView::Nothing),
        }
    } else {
        (v, KeyActionView::Nothing)
    }
}

pub open spec fn key_len(key: Option<Seq<char>>) -> int {
    match key {
        Some(k) => k.len() as int,
        None => 0,
    }
}

pub open spec fn key_view(key: Option<String>) -> Option<Seq<char>> {
    match key {
        Some(k) => Some(k@),
        None => None,
    }
}
/// After an edit, the caret stands on no selection.
proof fn lemma_caret_after_edit(v: TextBoxView, input: Seq<char>, caret: TextCoord)
    ensures
        caret_fits_selection(edited_text_box(v, input, caret).0, edited_text_box(v, input, caret).0.caret)
            || edited_text_box(v, input, caret).0 == v,
{
}

impl Editable {
    pub open spec fn wf(&self) -> bool {
        editable_valid(self@)
    }

    /// Removes the selection, inserts `input` where it began (or at `caret`), and records the
    /// edit in the history where `record_history` holds.
    fn insert_text(&mut self, input: &str, caret: TextCoord, record_history: bool)
        requires
            editable_wf(old(self)@),
            can_edit(old(self)@.text, input@, caret),
            caret_fits_selection(old(self)@.text, caret),
        ensures
            ({
                let (tv, del, ins, start) = edited_text_box(old(self)@.text, input@, caret);
                &&& final(self)@.text == tv
                &&& final(self)@.history == history_after(old(self)@.history, record_history, start, del, ins)
            }),
            final(self)@.multiple_line == old(self)@.multiple_line,
            final(self)@.input_type == old(self)@.input_type,
            final(self)@.rows == old(self)@.rows,
            final(self)@.auto_height == old(self)@.auto_height,
            editable_wf(final(self)@),
            no_line_feed(old(self)@.text.lines) ==> no_line_feed(final(self)@.text.lines),
            final(self).placeholder@ == old(self).placeholder@,
            final(self)@.events == old(self)@.events + text_events(final(self)@.text.lines),
            final(self)@.disabled == old(self)@.disabled,
            final(self)@.disabled_attribute == old(self)@.disabled_attribute,
            final(self)@.focusable == old(self)@.focusable,
            final(self)@.allow_ime == old(self)@.allow_ime,
            final(self)@.js_registry == old(self)@.js_registry,
    {
        let ghost v0 = self.paragraph@;
        let ghost lv0 = v0.lines;
        proof {
            lemma_edit_splices(v0, input@, caret);
            if no_line_feed(lv0) {
                lemma_edit_keeps_no_line_feed(v0, input@, caret);
            }
        }
        let ghost caret0 = caret;
        let mut caret = caret;
        let mut delete_detail: Option<EditDetail> = None;
        let mut insert_detail: Option<EditDetail> = None;
        let selection = self.paragraph.get_selection();
        if let Some((start, end)) = selection {
            let selected_text = match self.paragraph.get_selection_text() {
                Some(t) => t,
                None => String::new(),
            };
            delete_range(&mut self.paragraph, start, end, caret);
            self.paragraph.unselect();
            self.paragraph.update_caret_value(start);
            caret = start;
            if start != end {
                delete_detail = Some(EditDetail { content: selected_text, end });
            }
        }
        let start_caret = caret;
        let ghost lv1 = self.paragraph@.lines;
        proof {
            match selection_range(v0.selection) {
                Some((s, e)) => {
                    lemma_delete_splices(lv0, caret0, s, e);
                    lemma_coord_order(lv0, s, e);
                    lemma_coord_offset(lv0, s);
                    lemma_coord_offset(lv0, e);
                },
                None => {},
            }
            lemma_coord_offset(lv1, caret);
            assert(join_lines(lv1).len() <= join_lines(lv0).len());
            assert(lv1.len() <= lv0.len());
        }
        if !input.is_empty() {
            let new_caret = insert_input(&mut self.paragraph, input, caret);
            self.paragraph.update_caret_value(new_caret);
            insert_detail = Some(EditDetail { content: input.to_owned(), end: self.paragraph.get_caret() });
        }
        if record_history {
            self.edit_history.record_input(start_caret, delete_detail, insert_detail);
        }
        self.queue_text_events();
    }

    /// Queues a text update and a text change event, both with the whole text.
    fn queue_text_events(&mut self)
        ensures
            final(self)@ == (EditableView { events: old(self)@.events + text_events(old(self)@.text.lines), ..old(self)@ }),
            final(self).placeholder@ == old(self).placeholder@,
            final(self).paragraph@ == old(self).paragraph@,
            final(self).edit_history@ == old(self).edit_history@,
            final(self).edit_history.wf() == old(self).edit_history.wf(),
    {
        let text = self.paragraph.get_text();
        let copy = text.clone();
        let ghost before = self.events@;
        self.events.push(TextEvent::Update(TextUpdateEvent { value: copy }));
        self.events.push(TextEvent::Change(TextChangeEvent { value: text }));
        proof {
            assert(self.events@.map_values(|e: TextEvent| text_event_view(e))
                =~= before.map_values(|e: TextEvent| text_event_view(e)) + text_events(old(self)@.text.lines));
        }
    }

    /// An empty single-line text field that keeps ten edits of history. It is enabled, its element
/// takes the focus and lets an input method compose text, and it emits the `caretchange` script
/// event.
    pub fn new() -> (res: Editable)
        ensures
            res.wf(),
            res@.text == (TextBoxView { lines: seq![Seq::empty()], caret: TextCoord(0, 0), selection: None }),
            res@.history.max_history == 10,
            res@.history.ops.len() == 0,
            res@.history.ptr == 0,
            res@.multiple_line == false,
            res@.input_type == InputType::Text,
            res@.rows == 5,
            res@.auto_height == true,
            res@.placeholder == Seq::<char>::empty(),
            res@.events == Seq::<TextEventView>::empty(),
            !res@.disabled,
            !res@.disabled_attribute,
            res@.focusable,
            res@.allow_ime,
            res@.js_registry.names_spec() == seq![seq!['c', 'a', 'r', 'e', 't', 'c', 'h', 'a', 'n', 'g', 'e']],
            res@.js_registry.next_listener_id_spec() == 1,
    {
        let mut paragraph = TextBox::new();
        paragraph.add_line(String::new());
        let mut js_registry = JsEventRegistry::new();
        js_registry.register_js_event("caretchange");
        let res = Editable {
            paragraph,
            placeholder: TextBox::new(),
            multiple_line: false,
            input_type: InputType::Text,
            edit_history: EditHistory::new(10),
            rows: 5,
            auto_height: true,
            events: Vec::new(),
            disabled: false,
            disabled_attribute: false,
            focusable: true,
            allow_ime: true,
            js_registry,
        };
        proof {
            reveal_strlit("caretchange");
            assert("caretchange"@ =~= seq!['c', 'a', 'r', 'e', 't', 'c', 'h', 'a', 'n', 'g', 'e']);
            assert(res@.text.lines =~= seq![Seq::<char>::empty()]);
            assert(join_lines(res@.text.lines) == Seq::<char>::empty());
            assert(res@.events =~= Seq::<TextEventView>::empty());
        }
        res
    }

    /// The text: the lines joined by line feeds.
    pub fn get_text(&self) -> (res: String)
        ensures
            res@ == join_lines(self@.text.lines),
    {
        self.paragraph.get_text()
    }

    /// Replaces the text where it differs, one line per piece between line feeds, and puts the
    /// caret at the start.
    pub fn set_text(&mut self, text: String)
        requires
            old(self).wf(),
            2 * text@.len() + 2 < usize::MAX,
        ensures
            final(self).wf(),
            text@ == join_lines(old(self)@.text.lines) ==> final(self)@ == old(self)@,
            text@ != join_lines(old(self)@.text.lines) ==> final(self)@ == (EditableView {
                text: TextBoxView { lines: text_lines(text@), caret: TextCoord(0, 0), selection: None },
                ..old(self)@
            }),
    {
        let old_text = self.get_text();
        if text != old_text {
            self.paragraph.clear();
            let lines = split_input(text.as_str());
            let mut i: usize = 0;
            let ghost parts = split_lines(text@);
            proof {
                lemma_split_lines_len(text@);
                lemma_join_split(text@);
            }
            while i < lines.len()
                invariant
                    i <= lines@.len(),
                    lines_view(lines@) == parts,
                    self.paragraph@.lines == parts.take(i as int).map_values(|l: Seq<char>| trim_line_end(l)),
                    self.paragraph@.caret == TextCoord(0, 0),
                    self.paragraph@.selection is None,
                    self.edit_history@ == old(self).edit_history@,
                    self.edit_history.wf(),
                    self.multiple_line == old(self).multiple_line,
                    self.input_type == old(self).input_type,
                    self.rows == old(self).rows,
                    self.auto_height == old(self).auto_height,
                    self.placeholder@ == old(self).placeholder@,
                    self.events@ == old(self).events@,
                    self.disabled == old(self).disabled,
                    self.disabled_attribute == old(self).disabled_attribute,
                    self.focusable == old(self).focusable,
                    self.allow_ime == old(self).allow_ime,
                    self.js_registry == old(self).js_registry,
                decreases lines@.len() - i,
            {
                let ln = trim_line_endings(lines[i].as_str());
                self.paragraph.add_line(ln);
                proof {
                    assert(parts.take(i + 1).map_values(|l: Seq<char>| trim_line_end(l))
                        =~= parts.take(i as int).map_values(|l: Seq<char>| trim_line_end(l)).push(trim_line_end(parts[i as int])));
                }
                i = i + 1;
            }
            self.paragraph.update_caret_value(TextCoord::new((0, 0)));
            proof {
                assert(parts.take(i as int) =~= parts);
                lemma_join_trim_len(parts);
                lemma_text_lines_no_line_feed(text@);
                assert(text_lines(text@) =~= parts.map_values(|l: Seq<char>| trim_line_end(l)));
            }
        }
    }

    /// Types `input` at the caret: it replaces the selection, and the edit is recorded.
    fn type_input(&mut self, input: &str)
        requires
            old(self).wf(),
            text_room(old(self)@, input@.len() as int),
        ensures
            final(self).wf(),
            final(self)@ == input_editable(old(self)@, input@),
    {
        let caret = self.paragraph.get_caret();
        self.insert_text(input, caret, true);
        proof {
            lemma_caret_after_edit(old(self)@.text, input@, caret);
        }
    }

    /// Whether an edit replayed by selecting `caret..end` and typing `content` fits the text.
    fn replay_check(&self, caret: TextCoord, end: Option<TextCoord>, content: &str) -> (res: bool)
        requires
            self.wf(),
        ensures
            res == replay_fits(self@.text, caret, end, content@),
    {
        if !self.paragraph.is_valid_coord(caret) {
            return false;
        }
        let fits_selection = match end {
            Some(e) => {
                if !self.paragraph.is_valid_coord(e) {
                    return false;
                }
                if !(caret.0 < e.0 || (caret.0 == e.0 && caret.1 <= e.1)) {
                    return false;
                }
                true
            },
            None => match self.paragraph.get_selection() {
                Some((s, e)) => s.0 != e.0 || caret.0 == s.0,
                None => true,
            },
        };
        let total = self.paragraph.text_len() as u128;
        let lines = self.paragraph.line_count() as u128;
        let n = content.unicode_len() as u128;
        fits_selection && total + 2 * lines + 2 * n + 2 < usize::MAX as u128
    }

    /// Reverts the last applied edit: selects what it inserted and types back what it removed.
    fn undo_edit(&mut self)
        requires
            old(self).wf(),
        ensures
            final(self).wf(),
            final(self)@ == undone_editable(old(self)@),
    {
        proof {
            reveal_strlit("");
        }
        let fits = match self.edit_history.peek_undo() {
            Some(op) => {
                let end = match &op.insert {
                    Some(i) => Some(i.end),
                    None => None,
                };
                match &op.delete {
                    Some(d) => self.replay_check(op.caret, end, d.content.as_str()),
                    None => self.replay_check(op.caret, end, ""),
                }
            },
            None => false,
        };
        if !fits {
            let _ = self.edit_history.undo();
            return;
        }
        if let Some(op) = self.edit_history.undo() {
            if let Some(insert) = op.insert {
                self.paragraph.select(op.caret, insert.end);
            }
            let delete_content = match op.delete {
                Some(d) => d.content,
                None => String::new(),
            };
            self.insert_text(delete_content.as_str(), op.caret, false);
        }
    }

    /// Applies the next undone edit again: selects what it removed and types what it inserted.
    fn redo_edit(&mut self)
        requires
            old(self).wf(),
        ensures
            final(self).wf(),
            final(self)@ == redone_editable(old(self)@),
    {
        proof {
            reveal_strlit("");
        }
        let fits = match self.edit_history.peek_redo() {
            Some(op) => {
                let end = match &op.delete {
                    Some(d) => Some(d.end),
                    None => None,
                };
                match &op.insert {
                    Some(i) => self.replay_check(op.caret, end, i.content.as_str()),
                    None => self.replay_check(op.caret, end, ""),
                }
            },
            None => false,
        };
        if !fits {
            let _ = self.edit_history.redo();
            return;
        }
        if let Some(op) = self.edit_history.redo() {
            if let Some(delete) = op.delete {
                self.paragraph.select(op.caret, delete.end);
            }
            let insert_content = match op.insert {
                Some(i) => i.content,
                None => String::new(),
            };
            self.insert_text(insert_content.as_str(), op.caret, false);
        }
    }

    /// The text that a copy takes: the selected text of a plain text field, nothing for a
    /// password field.
    pub fn get_text_for_copy(&self) -> (res: String)
        requires
            self.wf(),
        ensures
            res@ == (match (self@.input_type, selection_range(self@.text.selection)) {
                (InputType::Text, Some((a, b))) => text_between(self@.text.lines, a, b),
                _ => Seq::empty(),
            }),
    {
        if self.input_type == InputType::Text {
            match self.paragraph.get_selection_text() {
                Some(t) => t,
                None => String::new(),
            }
        } else {
            String::new()
        }
    }

    /// Whether a press of mouse button `button` opens the context menu: the secondary button (2).
    pub fn mouse_down_opens_menu(button: i32) -> (res: bool)
        ensures
            res == (button == 2),
    {
        button == 2
    }

    /// The context menu's entries: cut and copy where there is text to copy, paste where the
    /// clipboard holds text, and select all where it would change something.
    pub fn edit_menu(&self, clipboard_has_text: bool) -> (res: EditMenu)
        requires
            self.wf(),
        ensures
            res.copy == (copy_text(self@).len() > 0),
            res.cut == (copy_text(self@).len() > 0),
            res.paste == clipboard_has_text,
            res.select_all == select_all_useful(self@),
    {
        let text_for_copy = self.get_text_for_copy();
        let has_copy = text_for_copy.unicode_len() > 0;
        let content = self.paragraph.get_text();
        let allow_select_all = if content.unicode_len() == 0 {
            false
        } else {
            match self.paragraph.get_selection_text() {
                Some(selected) => !str_equals(selected.as_str(), content.as_str()),
                None => true,
            }
        };
        EditMenu { cut: has_copy, copy: has_copy, paste: clipboard_has_text, select_all: allow_select_all }
    }

    /// Selects the whole text.
    pub fn select_all(&mut self)
        requires
            old(self).wf(),
        ensures
            final(self).wf(),
            final(self)@ == (EditableView {
                text: TextBoxView {
                    caret: TextCoord((old(self)@.text.lines.len() - 1) as usize, old(self)@.text.lines.last().len() as usize),
                    selection: Some((TextCoord(0, 0), TextCoord((old(self)@.text.lines.len() - 1) as usize, old(self)@.text.lines.last().len() as usize))),
                    ..old(self)@.text
                },
                ..old(self)@
            }),
    {
        self.paragraph.select_all();
        proof {
            let lines = old(self)@.text.lines;
            let e = TextCoord((lines.len() - 1) as usize, lines.last().len() as usize);
            if e == TextCoord(0, 0) {
            } else {
                assert(coord_le(TextCoord(0, 0), e));
            }
        }
    }

    /// Moves the caret `delta` characters through the text and drops the selection.
    pub fn move_caret(&mut self, delta: isize)
        requires
            old(self).wf(),
        ensures
            final(self).wf(),
            final(self)@.text.lines == old(self)@.text.lines,
            final(self)@.text.selection is None,
            coord_offset(final(self)@.text.lines, final(self)@.text.caret) == clamp_offset(
                coord_offset(old(self)@.text.lines, old(self)@.text.caret) + delta,
                join_lines(old(self)@.text.lines).len() as int,
            ),
            final(self)@.history == old(self)@.history,
            final(self)@.multiple_line == old(self)@.multiple_line,
            final(self)@.input_type == old(self)@.input_type,
            final(self)@.rows == old(self)@.rows,
            final(self)@.auto_height == old(self)@.auto_height,
            final(self)@.placeholder == old(self)@.placeholder,
            final(self)@.events == old(self)@.events,
            final(self)@.disabled == old(self)@.disabled,
            final(self)@.disabled_attribute == old(self)@.disabled_attribute,
            final(self)@.focusable == old(self)@.focusable,
            final(self)@.allow_ime == old(self)@.allow_ime,
            final(self)@.js_registry == old(self)@.js_registry,
    {
        self.paragraph.move_caret(delta);
    }

    /// Moves the caret one line up or down, keeping its column where the line is long enough
    /// and going to the line's end where not; on the first (last) line it stays.
    pub fn move_caret_vertical(&mut self, is_up: bool)
        requires
            old(self).wf(),
        ensures
            final(self).wf(),
            final(self)@ == (EditableView {
                text: TextBoxView {
                    caret: vertical_caret(old(self)@.text.lines, old(self)@.text.caret, is_up),
                    selection: None,
                    ..old(self)@.text
                },
                ..old(self)@
            }),
    {
        let caret = self.paragraph.get_caret();
        let n = self.paragraph.line_count();
        let row = if is_up {
            if caret.0 == 0 { return self.paragraph.update_caret_value(caret); } else { caret.0 - 1 }
        } else {
            if caret.0 + 1 >= n { return self.paragraph.update_caret_value(caret); } else { caret.0 + 1 }
        };
        let line = match self.paragraph.get_line_text(row) {
            Some(t) => t,
            None => String::new(),
        };
        let len = line.as_str().unicode_len();
        let col = if caret.1 <= len { caret.1 } else { len };
        self.paragraph.update_caret_value(TextCoord(row, col));
    }

    /// Selects from the `start`-th to the `end`-th character of the text, where both lie in it.
    pub fn set_selection_by_char_offset(&mut self, start: usize, end: usize)
        requires
            old(self).wf(),
        ensures
            final(self).wf(),
            ({
                let lines = old(self)@.text.lines;
                let len = join_lines(lines).len();
                if start <= len && end <= len {
                    &&& final(self)@.text.lines == lines
                    &&& final(self)@.text.selection matches Some((a, b))
                    &&& valid_coord(lines, a) && coord_offset(lines, a) == start
                    &&& valid_coord(lines, b) && coord_offset(lines, b) == end
                    &&& final(self)@.text.caret == b
                    &&& final(self)@.history == old(self)@.history
                    &&& final(self)@.input_type == old(self)@.input_type
                    &&& final(self)@.multiple_line == old(self)@.multiple_line
                    &&& final(self)@.rows == old(self)@.rows
                    &&& final(self)@.auto_height == old(self)@.auto_height
                    &&& final(self)@.placeholder == old(self)@.placeholder
                    &&& final(self)@.events == old(self)@.events
                    &&& final(self)@.disabled == old(self)@.disabled
                    &&& final(self)@.disabled_attribute == old(self)@.disabled_attribute
                    &&& final(self)@.focusable == old(self)@.focusable
                    &&& final(self)@.allow_ime == old(self)@.allow_ime
                    &&& final(self)@.js_registry == old(self)@.js_registry
                } else {
                    final(self)@ == old(self)@
                }
            }),
    {
        let ghost lines = self@.text.lines;
        if let Some(start_caret) = self.paragraph.get_text_coord_by_char_offset(start) {
            proof {
                lemma_coord_offset(lines, start_caret);
            }
            if let Some(end_caret) = self.paragraph.get_text_coord_by_char_offset(end) {
                proof {
                    lemma_coord_offset(lines, end_caret);
                }
                self.paragraph.select(start_caret, end_caret);
                proof {
                    let lines = self@.text.lines;
                    if coord_le(start_caret, end_caret) {
                        if start_caret.0 == end_caret.0 {
                        }
                    } else {
                        lemma_coord_order(lines, end_caret, start_caret);
                    }
                }
            }
        }
    }

    /// The caret.
    pub fn get_caret(&self) -> (res: TextCoord)
        ensures
            res == self@.text.caret,
    {
        self.paragraph.get_caret()
    }

    /// Selects from `start` to `end`, both in the text, and puts the caret at `end`.
    pub fn select(&mut self, start: TextCoord, end: TextCoord)
        requires
            old(self).wf(),
            valid_coord(old(self)@.text.lines, start),
            valid_coord(old(self)@.text.lines, end),
        ensures
            final(self).wf(),
            final(self)@ == (EditableView {
                text: TextBoxView { caret: end, selection: Some((start, end)), ..old(self)@.text },
                ..old(self)@
            }),
    {
        self.paragraph.select(start, end);
    }

    /// Puts the caret at the `char_offset`-th character, where it lies in the text.
    pub fn set_caret_by_char_offset(&mut self, char_offset: usize)
        requires
            old(self).wf(),
        ensures
            final(self).wf(),
            ({
                let lines = old(self)@.text.lines;
                if char_offset <= join_lines(lines).len() {
                    &&& final(self)@.text.lines == lines
                    &&& valid_coord(lines, final(self)@.text.caret)
                    &&& coord_offset(lines, final(self)@.text.caret) == char_offset
                    &&& final(self)@.text.selection is None
                    &&& final(self)@.history == old(self)@.history
                    &&& final(self)@.input_type == old(self)@.input_type
                    &&& final(self)@.multiple_line == old(self)@.multiple_line
                    &&& final(self)@.rows == old(self)@.rows
                    &&& final(self)@.auto_height == old(self)@.auto_height
                    &&& final(self)@.placeholder == old(self)@.placeholder
                    &&& final(self)@.events == old(self)@.events
                    &&& final(self)@.disabled == old(self)@.disabled
                    &&& final(self)@.disabled_attribute == old(self)@.disabled_attribute
                    &&& final(self)@.focusable == old(self)@.focusable
                    &&& final(self)@.allow_ime == old(self)@.allow_ime
                    &&& final(self)@.js_registry == old(self)@.js_registry
                } else {
                    final(self)@ == old(self)@
                }
            }),
    {
        if let Some(caret) = self.paragraph.get_text_coord_by_char_offset(char_offset) {
            proof {
                lemma_coord_offset(self@.text.lines, caret);
            }
            self.paragraph.update_caret_value(caret);
        }
    }

    pub fn set_type(&mut self, input_type: InputType)
        requires
            old(self).wf(),
        ensures
            final(self).wf(),
            final(self)@ == (EditableView { input_type: input_type, ..old(self)@ }),
    {
        self.input_type = input_type;
    }

    pub fn get_type(&self) -> (res: InputType)
        ensures
            res == self@.input_type,
    {
        self.input_type
    }

    pub fn set_multiple_line(&mut self, multiple_line: bool)
        requires
            old(self).wf(),
        ensures
            final(self).wf(),
            final(self)@ == (EditableView { multiple_line: multiple_line, ..old(self)@ }),
    {
        self.multiple_line = multiple_line;
    }

    pub fn is_multiple_line(&self) -> (res: bool)
        ensures
            res == self@.multiple_line,
    {
        self.multiple_line
    }

    pub fn set_rows(&mut self, rows: u32)
        requires
            old(self).wf(),
        ensures
            final(self).wf(),
            final(self)@ == (EditableView { rows: rows, ..old(self)@ }),
    {
        self.rows = rows;
    }

    pub fn set_auto_height(&mut self, value: bool)
        requires
            old(self).wf(),
        ensures
            final(self).wf(),
            final(self)@ == (EditableView { auto_height: value, ..old(self)@ }),
    {
        self.auto_height = value;
    }

    pub fn set_max_history(&mut self, max_history: usize)
        requires
            old(self).wf(),
        ensures
            final(self).wf(),
            final(self)@ == (EditableView {
                history: EditHistoryView { max_history: max_history as nat, ..old(self)@.history },
                ..old(self)@
            }),
    {
        self.edit_history.set_max_history(max_history);
    }

    pub fn get_max_history(&self) -> (res: usize)
        ensures
            res == self@.history.max_history,
    {
        self.edit_history.get_max_history()
    }

    /// Shows `placeholder` as the one line of the placeholder.
    pub fn set_placeholder(&mut self, placeholder: String)
        requires
            old(self).wf(),
        ensures
            final(self).wf(),
            final(self)@ == (EditableView { placeholder: placeholder@, ..old(self)@ }),
    {
        self.placeholder.clear();
        self.placeholder.add_line(placeholder);
        proof {
            assert(self.placeholder@.lines =~= seq![placeholder@]);
        }
    }

    pub fn get_placeholder(&self) -> (res: String)
        ensures
            res@ == self@.placeholder,
    {
        self.placeholder.get_text()
    }

    /// Types `input` at the caret: it replaces the selection, and the edit is recorded.
    pub fn handle_input(&mut self, input: &str)
        requires
            old(self).wf(),
            text_room(old(self)@, input@.len() as int),
        ensures
            final(self).wf(),
            final(self)@ == input_editable(old(self)@, input@),
    {
        self.type_input(input);
    }

    /// Shows the composition `content` of an input method, its cursor at the `offset`-th
    /// character (see `preedit_editable`).
    pub fn handle_preedit(&mut self, content: &str, offset: Option<usize>)
        requires
            old(self).wf(),
            text_room(old(self)@, content@.len() as int),
        ensures
            final(self).wf(),
            final(self)@ == preedit_editable(old(self)@, content@, offset),
    {
        let ghost v0 = self@;
        proof {
            lemma_edit_splices(v0.text, content@, v0.text.caret);
            lemma_coord_offset(v0.text.lines, v0.text.caret);
        }
        self.type_input(content);
        let n = content.unicode_len();
        if n == 0 {
            return;
        }
        let ghost w = self@;
        let end = self.paragraph.get_caret();
        let off = self.paragraph.caret_offset();
        proof {
            lemma_coord_offset(w.text.lines, end);
        }
        let start = match self.paragraph.get_text_coord_by_char_offset(off - n) {
            Some(c) => c,
            None => {
                proof {
                    assert(false);
                }
                return;
            },
        };
        proof {
            lemma_coord_unique(w.text.lines, start, start);
        }
        self.select(start, end);
        let ghost w1 = self@;
        if let Some(k) = offset {
            if k < n {
                let delta = (k as isize) - (n as isize);
                self.move_caret(delta);
                proof {
                    let lines = w1.text.lines;
                    lemma_coord_unique(lines, self@.text.caret, self@.text.caret);
                    assert(self@.text == moved_editable(w1, k - n).text);
                }
            }
        }
    }

    /// Reverts the last applied edit (see `undone_editable`).
    pub fn undo(&mut self)
        requires
            old(self).wf(),
        ensures
            final(self).wf(),
            final(self)@ == undone_editable(old(self)@),
    {
        self.undo_edit();
    }

    /// Applies the next undone edit again (see `redone_editable`).
    pub fn redo(&mut self)
        requires
            old(self).wf(),
        ensures
            final(self).wf(),
            final(self)@ == redone_editable(old(self)@),
    {
        self.redo_edit();
    }

    /// The field's own disabled flag (see `EditableView::disabled`).
    pub fn is_disabled(&self) -> (res: bool)
        ensures
            res == self@.disabled,
    {
        self.disabled
    }

    /// Sets or removes the `disabled` attribute of the field's element. That element is no form
    /// element, so this blocks no input and leaves `is_disabled` as it was.
    pub fn set_disabled(&mut self, disabled: bool)
        requires
            old(self).wf(),
        ensures
            final(self).wf(),
            final(self)@ == (EditableView { disabled_attribute: disabled, ..old(self)@ }),
    {
        self.disabled_attribute = disabled;
    }

    /// Hands out the text events due, oldest first, and forgets them.
    pub fn take_events(&mut self) -> (res: Vec<TextEvent>)
        requires
            old(self).wf(),
        ensures
            final(self).wf(),
            res@.map_values(|e: TextEvent| text_event_view(e)) == old(self)@.events,
            final(self)@ == (EditableView { events: Seq::empty(), ..old(self)@ }),
    {
        let mut taken: Vec<TextEvent> = Vec::new();
        std::mem::swap(&mut taken, &mut self.events);
        proof {
            assert(self@.events =~= Seq::<TextEventView>::empty());
        }
        taken
    }

    /// The flags of the field's element.
    pub fn element_flags(&self) -> (res: ElementFlags)
        ensures
            res.form == (FormState { is_form_element: false, disabled_attribute: self@.disabled_attribute, focusable: self@.focusable }),
            res.allow_ime == self@.allow_ime,
            res.js_events@.map_values(|n: String| n@) == self@.js_registry.names_spec(),
    {
        let names = self.js_registry.names();
        ElementFlags {
            form: FormState { is_form_element: false, disabled_attribute: self.disabled_attribute, focusable: self.focusable },
            allow_ime: self.allow_ime,
            js_events: names,
        }
    }

    /// Adds a script listener to the field's element (see `JsEventRegistry::add_js_event_listener`).
    pub fn add_js_event_listener(&mut self, name: &str, factory_accepts: bool) -> (res: Result<u32, DeftError>)
        requires
            old(self).wf(),
            old(self)@.js_registry.next_listener_id_spec() < u32::MAX,
        ensures
            final(self).wf(),
            listener_added(old(self)@.js_registry, final(self)@.js_registry, name@, factory_accepts, res),
            final(self)@ == (EditableView { js_registry: final(self)@.js_registry, ..old(self)@ }),
    {
        self.js_registry.add_js_event_listener(name, factory_accepts)
    }

    /// Acts on a key press; `shortcut_modifier` is the platform's shortcut modifier bit.
    pub fn handle_key_down(&mut self, event: &KeyEventDetail, shortcut_modifier: u32) -> (res: KeyAction)
        requires
            old(self).wf(),
            text_room(old(self)@, key_len(key_view(event.key_str)) + 3),
        ensures
            final(self).wf(),
            (final(self)@, key_action_view(res)) == key_down_editable(
                old(self)@, event.modifiers, event.named_key, key_view(event.key_str), shortcut_modifier),
    {
        assert(KEY_MOD_CTRL | KEY_MOD_SHIFT == 9u32) by (bit_vector);
        if event.modifiers == 0 {
            if let Some(nk) = event.named_key {
                self.handle_named_key(nk);
            } else if let Some(text) = &event.key_str {
                self.type_input(text.as_str());
            }
            KeyAction::Nothing
        } else if event.modifiers == KEY_MOD_SHIFT {
            if let Some(text) = &event.key_str {
                self.type_input(text.as_str());
            }
            KeyAction::Nothing
        } else if event.modifiers == shortcut_modifier {
            if let Some(text) = &event.key_str {
                self.handle_shortcut(text.as_str())
            } else {
                KeyAction::Nothing
            }
        } else if event.modifiers == KEY_MOD_CTRL | KEY_MOD_SHIFT {
            if let Some(text) = &event.key_str {
                let lower = to_lowercase(text.as_str());
                proof {
                    reveal_strlit("z");
                    assert("z"@ =~= seq!['z']);
                }
                if str_equals(lower.as_str(), "z") {
                    self.redo_edit();
                }
            }
            KeyAction::Nothing
        } else {
            KeyAction::Nothing
        }
    }

    fn handle_named_key(&mut self, nk: NamedKey)
        requires
            old(self).wf(),
            text_room(old(self)@, 3),
        ensures
            final(self).wf(),
            final(self)@ == named_key_editable(old(self)@, nk),
    {
        proof {
            reveal_strlit("\n");
            reveal_strlit(" ");
            reveal_strlit("   ");
            assert("\n"@ =~= seq!['\n']);
            assert(" "@ =~= seq![' ']);
            assert("   "@ =~= seq![' ', ' ', ' ']);
        }
        match nk {
            NamedKey::Backspace => {
                self.backspace();
            },
            NamedKey::Enter => {
                if self.multiple_line {
                    self.type_input("\n");
                }
            },
            NamedKey::ArrowLeft => {
                self.move_caret(-1);
                proof {
                    lemma_coord_unique(self@.text.lines, self@.text.caret, coord_at(self@.text.lines, coord_offset(self@.text.lines, self@.text.caret)));
                }
            },
            NamedKey::ArrowRight => {
                self.move_caret(1);
                proof {
                    lemma_coord_unique(self@.text.lines, self@.text.caret, coord_at(self@.text.lines, coord_offset(self@.text.lines, self@.text.caret)));
                }
            },
            NamedKey::ArrowUp => {
                self.move_caret_vertical(true);
            },
            NamedKey::ArrowDown => {
                self.move_caret_vertical(false);
            },
            NamedKey::Space => {
                self.type_input(" ");
            },
            NamedKey::Tab => {
                self.type_input("   ");
            },
            NamedKey::Other => {},
        }
    }

    fn handle_shortcut(&mut self, t: &str) -> (res: KeyAction)
        requires
            old(self).wf(),
            text_room(old(self)@, 0),
        ensures
            final(self).wf(),
            (final(self)@, key_action_view(res)) == shortcut_editable(old(self)@, t@),
    {
        proof {
            reveal_strlit("");
            reveal_strlit("c");
            reveal_strlit("x");
            reveal_strlit("v");
            reveal_strlit("a");
            reveal_strlit("z");
            assert(""@ =~= Seq::<char>::empty());
            assert("c"@ =~= seq!['c']);
            assert("x"@ =~= seq!['x']);
            assert("v"@ =~= seq!['v']);
            assert("a"@ =~= seq!['a']);
            assert("z"@ =~= seq!['z']);
        }
        if str_equals(t, "c") {
            self.copy_request()
        } else if str_equals(t, "x") {
            let action = self.copy_request();
            self.type_input("");
            action
        } else if str_equals(t, "v") {
            KeyAction::Paste
        } else if str_equals(t, "a") {
            self.select_all();
            KeyAction::Nothing
        } else if str_equals(t, "z") {
            self.undo_edit();
            KeyAction::Nothing
        } else {
            KeyAction::Nothing
        }
    }

    /// Removes the selection, or else the character in front of the caret.
    fn backspace(&mut self)
        requires
            old(self).wf(),
            text_room(old(self)@, 0),
        ensures
            final(self).wf(),
            final(self)@ == backspace_editable(old(self)@),
    {
        proof {
            reveal_strlit("");
        }
        let end = self.paragraph.get_caret();
        if self.paragraph.get_selection().is_none() {
            if end.0 > 0 || end.1 > 0 {
                let ghost v0 = self@;
                self.move_caret(-1);
                let start = self.paragraph.get_caret();
                proof {
                    let lines = v0.text.lines;
                    lemma_coord_offset(lines, v0.text.caret);
                    lemma_coord_unique(lines, start, coord_at(lines, coord_offset(lines, start)));
                    if end.0 > 0 {
                        lemma_head_prefix(lines, 0, end.0 as int);
                    }
                    lemma_offset_order(lines, start, end);
                }
                self.paragraph.select(start, end);
                proof {
                    let m = moved_editable(v0, -1);
                    assert(self@ == (EditableView {
                        text: TextBoxView { caret: end, selection: Some((m.text.caret, end)), ..m.text },
                        ..m
                    }));
                }
            }
        }
        self.type_input("");
    }

    /// The copy request for the current selection, where it has text to copy.
    fn copy_request(&self) -> (res: KeyAction)
        requires
            self.wf(),
        ensures
            key_action_view(res) == copy_action(self@),
    {
        let text = self.get_text_for_copy();
        if text.as_str().is_empty() {
            KeyAction::Nothing
        } else {
            KeyAction::Copy(text)
        }
    }
}

} // verus!
