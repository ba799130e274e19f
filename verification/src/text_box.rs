use vstd::prelude::*;
use crate::edit_history::TextCoord;
use crate::text_model::{lemma_head_prefix, join_lines, head_of, valid_coord, coord_offset, coord_le, lemma_join_at, lemma_coord_offset, lemma_head_next, lemma_next_row_text, lemma_same_row_text};

verus! {

/// The lines of a text box, its caret and its selection (anchor, focus).
pub struct TextBoxView {
    pub lines: Seq<Seq<char>>,
    pub caret: TextCoord,
    pub selection: Option<(TextCoord, TextCoord)>,
}

/// The text content of a paragraph of lines, with a caret and a selection.
pub struct TextBox {
    lines: Vec<String>,
    caret: TextCoord,
    selection: Option<(TextCoord, TextCoord)>,
}

pub open spec fn lines_view(lines: Seq<String>) -> Seq<Seq<char>> {
    lines.map_values(|s: String| s@)
}

/// The selected range with its ends in text order, or `None` where nothing is selected.
pub open spec fn selection_range(sel: Option<(TextCoord, TextCoord)>) -> Option<(TextCoord, TextCoord)> {
    match sel {
        Some((a, b)) => if a == b {
            None
        } else if coord_le(a, b) {
            Some((a, b))
        } else {
            Some((b, a))
        },
        None => None,
    }
}

/// The text between two carets.
pub open spec fn text_between(lines: Seq<Seq<char>>, a: TextCoord, b: TextCoord) -> Seq<char> {
    join_lines(lines).subrange(coord_offset(lines, a), coord_offset(lines, b))
}

pub open spec fn clamp_offset(off: int, len: int) -> int {
    if off < 0 {
        0
    } else if off > len {
        len
    } else {
        off
    }
}

impl View for TextBox {
    type V = TextBoxView;

    closed spec fn view(&self) -> TextBoxView {
        TextBoxView { lines: lines_view(self.lines@), caret: self.caret, selection: self.selection }
    }
}

/// Lengths that every text in memory keeps below `usize::MAX`.
pub open spec fn lines_fit(lines: Seq<Seq<char>>) -> bool {
    join_lines(lines).len() + lines.len() < usize::MAX
}

proof fn lemma_line_len_le_join(lines: Seq<Seq<char>>, r: int)
    requires
        0 <= r < lines.len(),
    ensures
        lines[r].len() <= join_lines(lines).len(),
        head_of(lines, r).len() + lines[r].len() <= join_lines(lines).len(),
{
    lemma_join_at(lines, r);
}

impl TextBox {
    pub fn new() -> (res: TextBox)
        ensures
            res@.lines.len() == 0,
            res@.caret == TextCoord(0, 0),
            res@.selection is None,
    {
        let res = TextBox { lines: Vec::new(), caret: TextCoord(0, 0), selection: None };
        assert(res@.lines =~= Seq::<Seq<char>>::empty());
        res
    }

    pub fn add_line(&mut self, line: String)
        ensures
            final(self)@ == (TextBoxView { lines: old(self)@.lines.push(line@), ..old(self)@ }),
    {
        self.lines.push(line);
        assert(lines_view(self.lines@) =~= lines_view(old(self).lines@).push(line@));
    }

    pub fn insert_line(&mut self, index: usize, line: String)
        requires
            index <= old(self)@.lines.len(),
        ensures
            final(self)@ == (TextBoxView { lines: old(self)@.lines.insert(index as int, line@), ..old(self)@ }),
    {
        self.lines.insert(index, line);
        assert(lines_view(self.lines@) =~= lines_view(old(self).lines@).insert(index as int, line@));
    }

    pub fn delete_line(&mut self, index: usize)
        requires
            index < old(self)@.lines.len(),
        ensures
            final(self)@ == (TextBoxView { lines: old(self)@.lines.remove(index as int), ..old(self)@ }),
    {
        self.lines.remove(index);
        assert(lines_view(self.lines@) =~= lines_view(old(self).lines@).remove(index as int));
    }

    pub fn update_line(&mut self, index: usize, line: String)
        requires
            index < old(self)@.lines.len(),
        ensures
            final(self)@ == (TextBoxView { lines: old(self)@.lines.update(index as int, line@), ..old(self)@ }),
    {
        self.lines.set(index, line);
        assert(lines_view(self.lines@) =~= lines_view(old(self).lines@).update(index as int, line@));
    }

    pub fn clear(&mut self)
        ensures
            final(self)@ == (TextBoxView { lines: Seq::empty(), caret: TextCoord(0, 0), selection: None }),
    {
        self.lines.clear();
        self.caret = TextCoord(0, 0);
        self.selection = None;
        assert(lines_view(self.lines@) =~= Seq::<Seq<char>>::empty());
    }

    pub fn line_count(&self) -> (res: usize)
        ensures
            res == self@.lines.len(),
    {
        self.lines.len()
    }

    pub fn get_line_text(&self, row: usize) -> (res: Option<String>)
        ensures
            match res {
                Some(s) => row < self@.lines.len() && s@ == self@.lines[row as int],
                None => row >= self@.lines.len(),
            },
    {
        if row < self.lines.len() {
            Some(self.lines[row].clone())
        } else {
            None
        }
    }

    /// The lines joined by line feeds.
    pub fn get_text(&self) -> (res: String)
        ensures
            res@ == join_lines(self@.lines),
    {
        let ghost lv = self@.lines;
        if self.lines.len() == 0 {
            return String::new();
        }
        let mut acc = self.lines[0].clone();
        let mut i: usize = 1;
        proof {
            reveal_strlit("\n");
            assert(lv.take(1).len() == 1);
            assert(join_lines(lv.take(1)) == lv[0]);
        }
        while i < self.lines.len()
            invariant
                1 <= i <= self.lines@.len(),
                lv == lines_view(self.lines@),
                acc@ == join_lines(lv.take(i as int)),
            decreases self.lines@.len() - i,
        {
            acc.append("\n");
            acc.append(self.lines[i].as_str());
            proof {
                reveal_strlit("\n");
                assert(lv.take(i + 1).drop_last() =~= lv.take(i as int));
                assert(lv.take(i + 1).last() == lv[i as int]);
            }
            i = i + 1;
        }
        assert(lv.take(i as int) =~= lv);
        acc
    }

    pub fn get_caret(&self) -> (res: TextCoord)
        ensures
            res == self@.caret,
    {
        self.caret
    }

    /// Puts the caret at `new_caret` and drops the selection.
    pub fn update_caret_value(&mut self, new_caret: TextCoord)
        ensures
            final(self)@ == (TextBoxView { caret: new_caret, selection: None, ..old(self)@ }),
    {
        self.caret = new_caret;
        self.selection = None;
    }

    /// Selects from `start` to `end` and puts the caret at `end`.
    pub fn select(&mut self, start: TextCoord, end: TextCoord)
        ensures
            final(self)@ == (TextBoxView { caret: end, selection: Some((start, end)), ..old(self)@ }),
    {
        self.selection = Some((start, end));
        self.caret = end;
    }

    pub fn unselect(&mut self)
        ensures
            final(self)@ == (TextBoxView { selection: None, ..old(self)@ }),
    {
        self.selection = None;
    }

    /// The selected range, its ends in text order; `None` where nothing is selected.
    pub fn get_selection(&self) -> (res: Option<(TextCoord, TextCoord)>)
        ensures
            res == selection_range(self@.selection),
    {
        match self.selection {
            Some((a, b)) => {
                if a == b {
                    None
                } else if a.0 < b.0 || (a.0 == b.0 && a.1 <= b.1) {
                    Some((a, b))
                } else {
                    Some((b, a))
                }
            },
            None => None,
        }
    }

    /// Selects the whole text.
    pub fn select_all(&mut self)
        ensures
            old(self)@.lines.len() == 0 ==> final(self)@ == old(self)@,
            old(self)@.lines.len() > 0 ==> final(self)@ == (TextBoxView {
                caret: TextCoord((old(self)@.lines.len() - 1) as usize, old(self)@.lines.last().len() as usize),
                selection: Some((TextCoord(0, 0), TextCoord((old(self)@.lines.len() - 1) as usize, old(self)@.lines.last().len() as usize))),
                ..old(self)@
            }),
    {
        let n = self.lines.len();
        if n == 0 {
            return;
        }
        let last_len = self.lines[n - 1].as_str().unicode_len();
        self.select(TextCoord(0, 0), TextCoord(n - 1, last_len));
    }

    pub fn is_valid_coord(&self, c: TextCoord) -> (res: bool)
        ensures
            res == valid_coord(self@.lines, c),
    {
        c.0 < self.lines.len() && c.1 <= self.line_len(c.0)
    }

    /// The number of characters of line `row`.
    fn line_len(&self, row: usize) -> (res: usize)
        requires
            row < self@.lines.len(),
        ensures
            res == self@.lines[row as int].len(),
    {
        self.lines[row].as_str().unicode_len()
    }

    /// The selected text; `None` where nothing is selected.
    pub fn get_selection_text(&self) -> (res: Option<String>)
        requires
            selection_range(self@.selection) matches Some((a, b)) ==> valid_coord(self@.lines, a) && valid_coord(self@.lines, b),
        ensures
            match selection_range(self@.selection) {
                Some((a, b)) => res matches Some(s) && s@ == text_between(self@.lines, a, b),
                None => res is None,
            },
    {
        let (s, e) = match self.get_selection() {
            Some(r) => r,
            None => return None,
        };
        let ghost lv = self@.lines;
        if s.0 == e.0 {
            let line = self.lines[s.0].as_str();
            let r = line.substring_char(s.1, e.1).to_owned();
            proof {
                lemma_same_row_text(lv, s.0, s.1, e.1);
            }
            return Some(r);
        }
        let first = self.lines[s.0].as_str();
        let first_len = first.unicode_len();
        let mut acc = first.substring_char(s.1, first_len).to_owned();
        proof {
            lemma_same_row_text(lv, s.0, s.1, first_len);
            lemma_line_len_le_join(lv, s.0 as int);
        }
        let mut r = s.0;
        while r + 1 < e.0
            invariant
                s.0 <= r < e.0,
                e.0 < lv.len(),
                valid_coord(lv, s),
                valid_coord(lv, e),
                lv == lines_view(self.lines@),
                lv[r as int].len() <= usize::MAX,
                coord_offset(lv, s) <= coord_offset(lv, TextCoord(r, lv[r as int].len() as usize)),
                acc@ == text_between(lv, s, TextCoord(r, lv[r as int].len() as usize)),
            decreases e.0 - r,
        {
            let line = self.lines[r + 1].as_str();
            let len = line.unicode_len();
            acc.append("\n");
            acc.append(line);
            proof {
                reveal_strlit("\n");
                lemma_next_row_text(lv, r, len);
                let t = join_lines(lv);
                let o0 = coord_offset(lv, s);
                let o1 = coord_offset(lv, TextCoord(r, lv[r as int].len() as usize));
                let o2 = coord_offset(lv, TextCoord((r + 1) as usize, len));
                lemma_coord_offset(lv, TextCoord((r + 1) as usize, len));
                lemma_coord_offset(lv, TextCoord(r, lv[r as int].len() as usize));
                lemma_coord_offset(lv, s);
                assert(lv[r + 1].take(len as int) =~= lv[r + 1]);
                assert(t.subrange(o0, o2) =~= t.subrange(o0, o1) + t.subrange(o1, o2));
            }
            r = r + 1;
        }
        let last = self.lines[e.0].as_str();
        let tail = last.substring_char(0, e.1);
        acc.append("\n");
        acc.append(tail);
        proof {
            reveal_strlit("\n");
            lemma_next_row_text(lv, r, e.1);
            let t = join_lines(lv);
            let o0 = coord_offset(lv, s);
            let o1 = coord_offset(lv, TextCoord(r, lv[r as int].len() as usize));
            lemma_coord_offset(lv, e);
            lemma_coord_offset(lv, TextCoord(r, lv[r as int].len() as usize));
            lemma_coord_offset(lv, s);
            assert(lv[e.0 as int].subrange(0, e.1 as int) =~= lv[e.0 as int].take(e.1 as int));
            assert(t.subrange(o0, coord_offset(lv, e)) =~= t.subrange(o0, o1) + t.subrange(o1, coord_offset(lv, e)));
        }
        Some(acc)
    }

    /// The caret standing `char_offset` characters into the joined text; `None` past its end.
    pub fn get_text_coord_by_char_offset(&self, char_offset: usize) -> (res: Option<TextCoord>)
        ensures
            match res {
                Some(c) => valid_coord(self@.lines, c) && coord_offset(self@.lines, c) == char_offset,
                None => self@.lines.len() == 0 || char_offset > join_lines(self@.lines).len(),
            },
    {
        let ghost lv = self@.lines;
        let n = self.lines.len();
        if n == 0 {
            return None;
        }
        let mut rest = char_offset;
        let mut r: usize = 0;
        while r < n
            invariant
                n == lv.len(),
                lv == lines_view(self.lines@),
                r < n,
                rest + head_of(lv, r as int).len() == char_offset,
            decreases n - r,
        {
            let len = self.line_len(r);
            if rest <= len {
                return Some(TextCoord(r, rest));
            }
            if r + 1 == n {
                proof {
                    lemma_join_at(lv, r as int);
                }
                return None;
            }
            proof {
                lemma_head_next(lv, r as int);
            }
            rest = rest - len - 1;
            r = r + 1;
        }
        None
    }

    /// The caret's position in the joined text.
    pub fn caret_offset(&self) -> (res: usize)
        requires
            valid_coord(self@.lines, self@.caret),
            lines_fit(self@.lines),
        ensures
            res == coord_offset(self@.lines, self@.caret),
    {
        let ghost lv = self@.lines;
        let mut off: usize = 0;
        let mut r: usize = 0;
        proof {
            lemma_line_len_le_join(lv, self.caret.0 as int);
        }
        while r < self.caret.0
            invariant
                lv == lines_view(self.lines@),
                r <= self.caret.0 < lv.len(),
                off == head_of(lv, r as int).len(),
                lines_fit(lv),
                head_of(lv, self.caret.0 as int).len() + lv[self.caret.0 as int].len() <= join_lines(lv).len(),
            decreases self.caret.0 - r,
        {
            proof {
                lemma_head_next(lv, r as int);
                lemma_head_prefix(lv, r as int + 1, self.caret.0 as int);
            }
            let len = self.line_len(r);
            off = off + len + 1;
            r = r + 1;
        }
        off + self.caret.1
    }

    /// Moves the caret `delta` characters through the joined text, stopping at its ends, and
    /// drops the selection.
    pub fn move_caret(&mut self, delta: isize)
        requires
            valid_coord(old(self)@.lines, old(self)@.caret),
            lines_fit(old(self)@.lines),
        ensures
            final(self)@.lines == old(self)@.lines,
            final(self)@.selection is None,
            valid_coord(final(self)@.lines, final(self)@.caret),
            coord_offset(final(self)@.lines, final(self)@.caret) == clamp_offset(
                coord_offset(old(self)@.lines, old(self)@.caret) + delta,
                join_lines(old(self)@.lines).len() as int,
            ),
    {
        let ghost lv = self@.lines;
        let off = self.caret_offset();
        proof {
            lemma_coord_offset(lv, self.caret);
        }
        let total = self.text_len();
        let target: usize = if delta >= 0 {
            let d = delta as usize;
            if d >= total - off { total } else { off + d }
        } else {
            let d = ((-(delta + 1)) as usize) + 1;
            if d >= off { 0 } else { off - d }
        };
        match self.get_text_coord_by_char_offset(target) {
            Some(c) => {
                self.caret = c;
            },
            None => {},
        }
        self.selection = None;
    }

    /// The number of characters of the joined text.
    pub fn text_len(&self) -> (res: usize)
        requires
            lines_fit(self@.lines),
        ensures
            res == join_lines(self@.lines).len(),
    {
        let ghost lv = self@.lines;
        let n = self.lines.len();
        if n == 0 {
            return 0;
        }
        let mut total = self.line_len(0);
        let mut r: usize = 0;
        proof {
            assert(lv.take(1).len() == 1);
            assert(join_lines(lv.take(1)) == lv[0]);
            lemma_join_prefix_len(lv, 1);
        }
        while r + 1 < n
            invariant
                n == lv.len(),
                lv == lines_view(self.lines@),
                r < n,
                total == join_lines(lv.take(r + 1)).len(),
                lines_fit(lv),
            decreases n - r,
        {
            proof {
                assert(lv.take(r + 2).drop_last() =~= lv.take(r + 1));
                assert(lv.take(r + 2).last() == lv[r + 1]);
                lemma_join_prefix_len(lv, r + 2);
            }
            let len = self.line_len(r + 1);
            total = total + 1 + len;
            r = r + 1;
        }
        assert(lv.take(r + 1) =~= lv);
        total
    }
}

proof fn lemma_join_prefix_len(lines: Seq<Seq<char>>, k: int)
    requires
        1 <= k <= lines.len(),
    ensures
        join_lines(lines.take(k)).len() <= join_lines(lines).len(),
{
    if k < lines.len() {
        lemma_join_at(lines, k);
        lemma_join_at(lines, 0);
        let h = head_of(lines, k);
        assert(h == join_lines(lines.take(k)) + seq!['\n']);
    } else {
        assert(lines.take(k) =~= lines);
    }
}

} // verus!
