use vstd::prelude::*;

verus! {

/// A caret position in a multi-line text: `(row, column)`, the column counted in characters.
#[derive(Clone, Copy, Debug, PartialEq, Eq, Structural)]
pub struct TextCoord(pub usize, pub usize);

impl TextCoord {
    pub fn new(coord: (usize, usize)) -> (res: TextCoord)
        ensures
            res == TextCoord(coord.0, coord.1),
    {
        TextCoord(coord.0, coord.1)
    }
}

/// What an edit removed or inserted: the text, and the caret position at its end.
#[derive(Debug)]
pub struct EditDetail {
    pub content: String,
    pub end: TextCoord,
}

/// One entry of the edit history.
#[derive(Debug)]
pub struct EditOp {
    pub caret: TextCoord,
    pub delete: Option<EditDetail>,
    pub insert: Option<EditDetail>,
}

pub struct EditDetailView {
    pub content: Seq<char>,
    pub end: TextCoord,
}

pub struct EditOpView {
    pub caret: TextCoord,
    pub delete: Option<EditDetailView>,
    pub insert: Option<EditDetailView>,
}

impl View for EditDetail {
    type V = EditDetailView;

    open spec fn view(&self) -> EditDetailView {
        EditDetailView { content: self.content@, end: self.end }
    }
}

pub open spec fn detail_view(d: Option<EditDetail>) -> Option<EditDetailView> {
    match d {
        Some(x) => Some(x@),
        None => None,
    }
}

impl View for EditOp {
    type V = EditOpView;

    open spec fn view(&self) -> EditOpView {
        EditOpView { caret: self.caret, delete: detail_view(self.delete), insert: detail_view(self.insert) }
    }
}

impl Clone for EditDetail {
    fn clone(&self) -> (res: Self)
        ensures
            res@ == self@,
    {
        EditDetail { content: self.content.clone(), end: self.end }
    }
}

fn clone_detail(d: &Option<EditDetail>) -> (res: Option<EditDetail>)
    ensures
        detail_view(res) == detail_view(*d),
{
    match d {
        Some(x) => Some(x.clone()),
        None => None,
    }
}

impl Clone for EditOp {
    fn clone(&self) -> (res: Self)
        ensures
            res@ == self@,
    {
        EditOp { caret: self.caret, delete: clone_detail(&self.delete), insert: clone_detail(&self.insert) }
    }
}

/// An undo/redo history of text edits: `ops` are the recorded edits, `ptr` the number of them
/// that are currently applied.
pub struct EditHistoryView {
    pub max_history: nat,
    pub ops: Seq<EditOpView>,
    pub ptr: nat,
}

pub struct EditHistory {
    max_history: usize,
    history: Vec<EditOp>,
    history_ptr: usize,
}

impl View for EditHistory {
    type V = EditHistoryView;

    closed spec fn view(&self) -> EditHistoryView {
        EditHistoryView {
            max_history: self.max_history as nat,
            ops: self.history@.map_values(|op: EditOp| op@),
            ptr: self.history_ptr as nat,
        }
    }
}

/// Whether the text starts with a tab, a carriage return, a line feed or a space.
pub open spec fn starts_with_whitespace_spec(s: Seq<char>) -> bool {
    s.len() > 0 && (s[0] == '\t' || s[0] == '\r' || s[0] == '\n' || s[0] == ' ')
}

/// The history after folding a new edit into the last one, or `None` where it cannot be folded:
/// typing that continues right where the last insertion ended (and does not start with
/// whitespace) extends that insertion; a deletion that ends where the last deletion began
/// extends that deletion backwards.
pub open spec fn merged_history(
    h: EditHistoryView,
    caret: TextCoord,
    del: Option<EditDetailView>,
    ins: Option<EditDetailView>,
) -> Option<EditHistoryView> {
    if h.ptr == 0 || h.ptr != h.ops.len() {
        None
    } else {
        let i = h.ptr - 1;
        let last = h.ops[i];
        match (del, ins, last.delete, last.insert) {
            (None, Some(new_ins), None, Some(last_ins)) => {
                if last_ins.end == caret && !starts_with_whitespace_spec(new_ins.content) {
                    Some(EditHistoryView {
                        max_history: h.max_history,
                        ops: h.ops.update(i, EditOpView {
                            caret: last.caret,
                            delete: None,
                            insert: Some(EditDetailView {
                                content: last_ins.content + new_ins.content,
                                end: new_ins.end,
                            }),
                        }),
                        ptr: h.ptr,
                    })
                } else {
                    None
                }
            },
            (Some(new_del), None, Some(last_del), None) => {
                if new_del.end == last.caret {
                    Some(EditHistoryView {
                        max_history: h.max_history,
                        ops: h.ops.update(i, EditOpView {
                            caret: caret,
                            delete: Some(EditDetailView {
                                content: new_del.content + last_del.content,
                                end: last_del.end,
                            }),
                            insert: None,
                        }),
                        ptr: h.ptr,
                    })
                } else {
                    None
                }
            },
            _ => None,
        }
    }
}

/// The history after appending `op`: the undone edits are dropped, and the oldest edit too
/// where the history is full.
pub open spec fn pushed_history(h: EditHistoryView, op: EditOpView) -> EditHistoryView {
    let kept = h.ops.take(h.ptr as int);
    if kept.len() >= h.max_history {
        EditHistoryView { max_history: h.max_history, ops: kept.drop_first().push(op), ptr: h.ptr }
    } else {
        EditHistoryView { max_history: h.max_history, ops: kept.push(op), ptr: h.ptr + 1 }
    }
}

/// The history after recording an edit at `caret` that removed `del` and inserted `ins`.
pub open spec fn recorded_history(
    h: EditHistoryView,
    caret: TextCoord,
    del: Option<EditDetailView>,
    ins: Option<EditDetailView>,
) -> EditHistoryView {
    if h.max_history == 0 || (del is None && ins is None) {
        h
    } else {
        match merged_history(h, caret, del, ins) {
            Some(m) => m,
            None => pushed_history(h, EditOpView { caret: caret, delete: del, insert: ins }),
        }
    }
}

/// The history after an undo, and the edit to revert.
pub open spec fn undone_history(h: EditHistoryView) -> (EditHistoryView, Option<EditOpView>) {
    if h.ptr == 0 {
        (h, None)
    } else {
        (EditHistoryView { max_history: h.max_history, ops: h.ops, ptr: (h.ptr - 1) as nat }, Some(h.ops[h.ptr - 1]))
    }
}

/// The history after a redo, and the edit to apply again.
pub open spec fn redone_history(h: EditHistoryView) -> (EditHistoryView, Option<EditOpView>) {
    if h.ops.len() == 0 || h.ptr >= h.ops.len() {
        (h, None)
    } else {
        (EditHistoryView { max_history: h.max_history, ops: h.ops, ptr: h.ptr + 1 }, Some(h.ops[h.ptr as int]))
    }
}

pub open spec fn history_wf(h: EditHistoryView) -> bool {
    h.ptr <= h.ops.len()
}

pub open spec fn op_view_of(op: Option<EditOp>) -> Option<EditOpView> {
    match op {
        Some(o) => Some(o@),
        None => None,
    }
}

impl EditHistory {
    pub open spec fn wf(&self) -> bool {
        history_wf(self@)
    }

    pub fn new(max_history: usize) -> (res: Self)
        ensures
            res.wf(),
            res@.max_history == max_history,
            res@.ops.len() == 0,
            res@.ptr == 0,
    {
        let res = EditHistory { history: Vec::new(), history_ptr: 0, max_history };
        assert(res@.ops =~= Seq::<EditOpView>::empty());
        res
    }

    pub fn set_max_history(&mut self, max_history: usize)
        ensures
            final(self)@ == (EditHistoryView { max_history: max_history as nat, ..old(self)@ }),
    {
        self.max_history = max_history;
    }

    pub fn get_max_history(&self) -> (res: usize)
        ensures
            res == self@.max_history,
    {
        self.max_history
    }

    /// Records an edit at `caret` that removed `delete_detail` and inserted `insert_detail`.
    pub fn record_input(
        &mut self,
        caret: TextCoord,
        delete_detail: Option<EditDetail>,
        insert_detail: Option<EditDetail>,
    )
        requires
            old(self).wf(),
        ensures
            final(self).wf(),
            final(self)@ == recorded_history(old(self)@, caret, detail_view(delete_detail), detail_view(insert_detail)),
    {
        if self.max_history == 0 || (delete_detail.is_none() && insert_detail.is_none()) {
            return;
        }
        if !self.merge_input(caret, &delete_detail, &insert_detail) {
            let op = EditOp { caret, delete: delete_detail, insert: insert_detail };
            assert(op@ == EditOpView { caret: caret, delete: detail_view(delete_detail), insert: detail_view(insert_detail) });
            self.push_op(op);
        }
    }

    /// Steps back over the last applied edit and hands it out to be reverted.
    pub fn undo(&mut self) -> (res: Option<EditOp>)
        requires
            old(self).wf(),
        ensures
            final(self).wf(),
            (final(self)@, op_view_of(res)) == undone_history(old(self)@),
    {
        if self.history_ptr == 0 {
            return None;
        }
        let prev_op = self.history[self.history_ptr - 1].clone();
        self.history_ptr -= 1;
        Some(prev_op)
    }

    /// Steps forward over the next undone edit and hands it out to be applied again.
    pub fn redo(&mut self) -> (res: Option<EditOp>)
        requires
            old(self).wf(),
        ensures
            final(self).wf(),
            (final(self)@, op_view_of(res)) == redone_history(old(self)@),
    {
        if self.history.len() == 0 || self.history_ptr >= self.history.len() {
            return None;
        }
        let next_op = self.history[self.history_ptr].clone();
        self.history_ptr += 1;
        Some(next_op)
    }

    /// The edit that an undo would revert, left in place.
    pub fn peek_undo(&self) -> (res: Option<&EditOp>)
        requires
            self.wf(),
        ensures
            match res {
                Some(op) => undone_history(self@).1 == Some(op@),
                None => undone_history(self@).1 is None,
            },
    {
        if self.history_ptr == 0 {
            None
        } else {
            Some(&self.history[self.history_ptr - 1])
        }
    }

    /// The edit that a redo would apply again, left in place.
    pub fn peek_redo(&self) -> (res: Option<&EditOp>)
        requires
            self.wf(),
        ensures
            match res {
                Some(op) => redone_history(self@).1 == Some(op@),
                None => redone_history(self@).1 is None,
            },
    {
        if self.history.len() == 0 || self.history_ptr >= self.history.len() {
            None
        } else {
            Some(&self.history[self.history_ptr])
        }
    }

    fn merge_input(
        &mut self,
        caret: TextCoord,
        delete_detail: &Option<EditDetail>,
        insert_detail: &Option<EditDetail>,
    ) -> (res: bool)
        requires
            old(self).wf(),
        ensures
            final(self).wf(),
            res == merged_history(old(self)@, caret, detail_view(*delete_detail), detail_view(*insert_detail)) is Some,
            res ==> Some(final(self)@) == merged_history(old(self)@, caret, detail_view(*delete_detail), detail_view(*insert_detail)),
            !res ==> final(self)@ == old(self)@,
    {
        if self.history_ptr == 0 || self.history_ptr != self.history.len() {
            return false;
        }
        let i = self.history_ptr - 1;
        let ghost old_ops = self.history@;
        match (delete_detail, insert_detail, &self.history[i].delete, &self.history[i].insert) {
            (None, Some(insert_detail), None, Some(last_insert)) => {
                if last_insert.end == caret && !Self::starts_with_whitespace(insert_detail.content.as_str()) {
                    let mut content = last_insert.content.clone();
                    content.append(insert_detail.content.as_str());
                    let new_op = EditOp {
                        caret: self.history[i].caret,
                        delete: None,
                        insert: Some(EditDetail { content, end: insert_detail.end }),
                    };
                    self.history.set(i, new_op);
                    proof {
                        assert(self.history@.map_values(|op: EditOp| op@) =~= old_ops.map_values(|op: EditOp| op@).update(i as int, new_op@));
                    }
                    true
                } else {
                    false
                }
            },
            (Some(delete_detail), None, Some(last_delete), None) => {
                if delete_detail.end == self.history[i].caret {
                    let mut content = delete_detail.content.clone();
                    content.append(last_delete.content.as_str());
                    let new_op = EditOp {
                        caret,
                        delete: Some(EditDetail { content, end: last_delete.end }),
                        insert: None,
                    };
                    self.history.set(i, new_op);
                    proof {
                        assert(self.history@.map_values(|op: EditOp| op@) =~= old_ops.map_values(|op: EditOp| op@).update(i as int, new_op@));
                    }
                    true
                } else {
                    false
                }
            },
            _ => false,
        }
    }

    fn push_op(&mut self, op: EditOp)
        requires
            old(self).wf(),
            old(self)@.max_history > 0,
        ensures
            final(self).wf(),
            final(self)@ == pushed_history(old(self)@, op@),
    {
        let ghost old_view = self@;
        let expected_len = self.history_ptr;
        while self.history.len() > expected_len
            invariant
                expected_len == old_view.ptr,
                expected_len <= self.history@.len() <= old_view.ops.len(),
                self.history@.map_values(|o: EditOp| o@) =~= old_view.ops.take(self.history@.len() as int),
                self.history_ptr == expected_len,
                self.max_history == old_view.max_history,
            decreases self.history.len(),
        {
            self.history.pop();
        }
        assert(self.history@.map_values(|o: EditOp| o@) =~= old_view.ops.take(old_view.ptr as int));
        if self.history.len() >= self.max_history {
            let ghost before = self.history@;
            self.history.remove(0);
            self.history_ptr -= 1;
            assert(self.history@.map_values(|o: EditOp| o@) =~= old_view.ops.take(old_view.ptr as int).drop_first());
        }
        let ghost before_push = self.history@;
        self.history.push(op);
        self.history_ptr += 1;
        proof {
            assert(self.history@.map_values(|o: EditOp| o@) =~= before_push.map_values(|o: EditOp| o@).push(op@));
        }
    }

    fn starts_with_whitespace(content: &str) -> (res: bool)
        ensures
            res == starts_with_whitespace_spec(content@),
    {
        if content.is_empty() {
            return false;
        }
        let first = content.get_char(0);
        first == '\t' || first == '\r' || first == '\n' || first == ' '
    }
}

} // verus!
