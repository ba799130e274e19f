use vstd::prelude::*;
use crate::edit_history::{
    TextCoord, EditHistoryView, EditOpView, EditDetailView, merged_history, recorded_history, pushed_history,
    undone_history, redone_history, history_wf,
};
use crate::text_box::{TextBoxView, selection_range, clamp_offset};
use crate::text_model::{
    join_lines, valid_coord, coord_offset, coord_le, lemma_coord_offset, lemma_offset_order,
    lemma_join_injective, coord_at, lemma_coord_unique, lemma_coord_exists,
};
use crate::computed::{ComputedView, add_id, notifications, ids_of, values_of, removed_id};
use crate::editable::{
    EditableView, editable_wf, text_box_wf, caret_fits_selection, text_room, input_editable,
    undone_editable, redone_editable, edited_text_box, replay_fits, select_for, detail_end,
    delete_content, insert_content, can_edit, lemma_edit_splices,
    editable_valid, lemma_edit_keeps_no_line_feed, moved_editable, named_key_editable, preedit_editable,
};
use crate::text_box::text_between;
use crate::event::NamedKey;
use crate::element::{EventKind, FormState, form_event};

verus! {

/// Room for an edit and for reverting it: the text, twice, and the input, four times over.
pub open spec fn room_to_revert(v: EditableView, input: Seq<char>) -> bool {
    2 * join_lines(v.text.lines).len() + 2 * v.text.lines.len() + 4 * input.len() + 2 < usize::MAX
}

/// The edit that typing `input` at the caret records, and whether it folds into the previous one.
pub open spec fn input_folds(v: EditableView, input: Seq<char>) -> bool {
    let (tv, del, ins, start) = edited_text_box(v.text, input, v.text.caret);
    merged_history(v.history, start, del, ins) is Some
}

/// Typing replaces the selected text (or nothing) by the input, and leaves the caret right
/// behind the input.
pub proof fn law_input_splices_text(v: EditableView, input: Seq<char>)
    requires
        editable_wf(v),
        caret_fits_selection(v.text, v.text.caret),
        text_room(v, input.len() as int),
    ensures
        ({
            let t = join_lines(v.text.lines);
            let (a, b) = match selection_range(v.text.selection) {
                Some((s, e)) => (coord_offset(v.text.lines, s), coord_offset(v.text.lines, e)),
                None => (coord_offset(v.text.lines, v.text.caret), coord_offset(v.text.lines, v.text.caret)),
            };
            let w = input_editable(v, input);
            &&& join_lines(w.text.lines) == t.take(a) + input + t.skip(b)
            &&& input.len() > 0 ==> coord_offset(w.text.lines, w.text.caret) == a + input.len()
        }),
{
    lemma_edit_splices(v.text, input, v.text.caret);
}

/// The edit that typing `input` records, where it is kept as an entry of its own: the history
/// gains it as its last applied entry, which an undo then hands out.
proof fn lemma_typed_edit_recorded(v: EditableView, input: Seq<char>)
    requires
        editable_wf(v),
        v.history.max_history > 0,
        input.len() > 0 || selection_range(v.text.selection) is Some,
        !input_folds(v, input),
    ensures
        ({
            let (tv, del, ins, start) = edited_text_box(v.text, input, v.text.caret);
            let op = EditOpView { caret: start, delete: del, insert: ins };
            &&& input_editable(v, input).history == pushed_history(v.history, op)
            &&& input_editable(v, input).text == tv
            &&& undone_history(input_editable(v, input).history).1 == Some(op)
        }),
{
    let (tv, del, ins, start) = edited_text_box(v.text, input, v.text.caret);
    let op = EditOpView { caret: start, delete: del, insert: ins };
    assert(del is Some || ins is Some);
    let h = pushed_history(v.history, op);
    assert(h.ops.len() >= 1);
    assert(h.ops[h.ptr - 1] == op);
}

/// Putting back the piece `a..b` of `t` where `input` replaced it gives `t` again.
proof fn lemma_splice_back(t: Seq<char>, a: int, b: int, input: Seq<char>)
    requires
        0 <= a <= b <= t.len(),
    ensures
        ({
            let t1 = t.take(a) + input + t.skip(b);
            t1.take(a) + t.subrange(a, b) + t1.skip(a + input.len()) == t
        }),
{
    let t1 = t.take(a) + input + t.skip(b);
    assert(t1.take(a) =~= t.take(a));
    assert(t1.skip(a + input.len()) =~= t.skip(b));
    assert(t.take(a) + t.subrange(a, b) + t.skip(b) =~= t);
}

/// What the typed edit removed is the selected piece of the text, and where it is recorded.
proof fn lemma_typed_edit_parts(v: EditableView, input: Seq<char>)
    requires
        editable_wf(v),
        caret_fits_selection(v.text, v.text.caret),
        room_to_revert(v, input),
    ensures
        ({
            let t = join_lines(v.text.lines);
            let (tv, del, ins, start) = edited_text_box(v.text, input, v.text.caret);
            let (a, b) = match selection_range(v.text.selection) {
                Some((s, e)) => (coord_offset(v.text.lines, s), coord_offset(v.text.lines, e)),
                None => (coord_offset(v.text.lines, v.text.caret), coord_offset(v.text.lines, v.text.caret)),
            };
            let op = EditOpView { caret: start, delete: del, insert: ins };
            &&& 0 <= a <= b <= t.len()
            &&& delete_content(op) == t.subrange(a, b)
            &&& join_lines(tv.lines) == t.take(a) + input + t.skip(b)
            &&& text_box_wf(tv)
            &&& valid_coord(tv.lines, start)
            &&& coord_offset(tv.lines, start) == a
            &&& (input.len() > 0 ==> ins == Some(EditDetailView { content: input, end: tv.caret }))
            &&& (input.len() > 0 ==> coord_offset(tv.lines, tv.caret) == a + input.len())
            &&& (input.len() == 0 ==> ins is None)
            &&& tv.lines.len() <= v.text.lines.len() + input.len()
        }),
{
    let t = join_lines(v.text.lines);
    lemma_edit_splices(v.text, input, v.text.caret);
    let (a, b) = match selection_range(v.text.selection) {
        Some((s, e)) => (coord_offset(v.text.lines, s), coord_offset(v.text.lines, e)),
        None => (coord_offset(v.text.lines, v.text.caret), coord_offset(v.text.lines, v.text.caret)),
    };
    lemma_coord_offset(v.text.lines, v.text.caret);
    if selection_range(v.text.selection) is None {
        assert(t.subrange(a, b) =~= Seq::<char>::empty());
    }
}

/// Replaying the inverse of a typed edit (selecting what it inserted and typing back what it
/// removed) fits the edited text and gives back the text from before the edit.
#[verifier::rlimit(40)]
proof fn lemma_inverse_replay(v: EditableView, input: Seq<char>)
    requires
        editable_wf(v),
        caret_fits_selection(v.text, v.text.caret),
        room_to_revert(v, input),
    ensures
        ({
            let (tv, del, ins, start) = edited_text_box(v.text, input, v.text.caret);
            let op = EditOpView { caret: start, delete: del, insert: ins };
            let end = detail_end(ins);
            let content = delete_content(op);
            &&& replay_fits(tv, start, end, content)
            &&& join_lines(edited_text_box(select_for(tv, start, end), content, start).0.lines)
                == join_lines(v.text.lines)
        }),
{
    let t = join_lines(v.text.lines);
    let (tv, del, ins, start) = edited_text_box(v.text, input, v.text.caret);
    let (a, b) = match selection_range(v.text.selection) {
        Some((s, e)) => (coord_offset(v.text.lines, s), coord_offset(v.text.lines, e)),
        None => (coord_offset(v.text.lines, v.text.caret), coord_offset(v.text.lines, v.text.caret)),
    };
    let op = EditOpView { caret: start, delete: del, insert: ins };
    let content = delete_content(op);
    let end = detail_end(ins);
    lemma_typed_edit_parts(v, input);
    let t1 = join_lines(tv.lines);
    if input.len() > 0 {
        lemma_offset_order(tv.lines, start, tv.caret);
        lemma_coord_offset(tv.lines, tv.caret);
    }
    lemma_coord_offset(tv.lines, start);
    let u = select_for(tv, start, end);
    assert(u.lines == tv.lines);
    assert(text_box_wf(u));
    assert(t1.len() == t.len() - (b - a) + input.len());
    assert(end matches Some(e) ==> valid_coord(tv.lines, e) && coord_le(start, e));
    assert(valid_coord(u.lines, start));
    assert(join_lines(u.lines).len() + 2 * u.lines.len() + 2 * content.len() + 2 < usize::MAX);
    assert(can_edit(u, content, start));
    assert(caret_fits_selection(u, start));
    assert(replay_fits(tv, start, end, content));
    lemma_edit_splices(u, content, start);
    lemma_splice_back(t, a, b, input);
    if input.len() == 0 {
        assert(t1.skip(a) =~= t.skip(b));
        assert(t1.take(a) + content + t1.skip(a) =~= t);
    }
}

/// The inverse replay of a typed edit gives back the very lines from before the edit, with no
/// selection.
proof fn lemma_inverse_replay_lines(v: EditableView, input: Seq<char>)
    requires
        editable_valid(v),
        room_to_revert(v, input),
    ensures
        ({
            let (tv, del, ins, start) = edited_text_box(v.text, input, v.text.caret);
            let op = EditOpView { caret: start, delete: del, insert: ins };
            let u2 = edited_text_box(select_for(tv, start, detail_end(ins)), delete_content(op), start).0;
            &&& replay_fits(tv, start, detail_end(ins), delete_content(op))
            &&& u2.lines == v.text.lines
            &&& text_box_wf(u2)
            &&& selection_range(u2.selection) is None
        }),
{
    let (tv, del, ins, start) = edited_text_box(v.text, input, v.text.caret);
    let op = EditOpView { caret: start, delete: del, insert: ins };
    let u = select_for(tv, start, detail_end(ins));
    let content = delete_content(op);
    lemma_inverse_replay(v, input);
    lemma_typed_edit_parts(v, input);
    lemma_edit_keeps_no_line_feed(v.text, input, v.text.caret);
    assert(u.lines == tv.lines);
    assert(text_box_wf(u));
    lemma_edit_splices(u, content, start);
    lemma_edit_keeps_no_line_feed(u, content, start);
    let u2 = edited_text_box(u, content, start).0;
    lemma_join_injective(u2.lines, v.text.lines);
}

/// Replaying a typed edit on the lines from before it (selecting what it removed and typing
/// what it inserted) fits them and gives the lines that the edit made.
proof fn lemma_replay_lines(v: EditableView, input: Seq<char>, u2: crate::text_box::TextBoxView)
    requires
        editable_valid(v),
        room_to_revert(v, input),
        u2.lines == v.text.lines,
        text_box_wf(u2),
        selection_range(u2.selection) is None,
    ensures
        ({
            let (tv, del, ins, start) = edited_text_box(v.text, input, v.text.caret);
            let op = EditOpView { caret: start, delete: del, insert: ins };
            &&& replay_fits(u2, start, detail_end(del), insert_content(op))
            &&& edited_text_box(select_for(u2, start, detail_end(del)), insert_content(op), start).0.lines == tv.lines
        }),
{
    let t = join_lines(v.text.lines);
    let (tv, del, ins, start) = edited_text_box(v.text, input, v.text.caret);
    let op = EditOpView { caret: start, delete: del, insert: ins };
    lemma_typed_edit_parts(v, input);
    lemma_edit_keeps_no_line_feed(v.text, input, v.text.caret);
    assert(insert_content(op) == input);
    let x = select_for(u2, start, detail_end(del));
    match selection_range(v.text.selection) {
        Some((s, e)) => {
            assert(start == s);
            assert(detail_end(del) == Some(e));
            assert(s != e);
            assert(coord_le(s, e));
            assert(selection_range(x.selection) == Some((s, e)));
        },
        None => {
            assert(x == u2);
        },
    }
    assert(text_box_wf(x));
    assert(can_edit(x, input, start));
    assert(caret_fits_selection(x, start));
    assert(replay_fits(u2, start, detail_end(del), input));
    lemma_edit_splices(x, input, start);
    lemma_edit_keeps_no_line_feed(x, input, start);
    let r = edited_text_box(x, input, start).0;
    lemma_join_injective(r.lines, tv.lines);
}

/// An edit typed at the caret and then undone gives back the lines it started from, where the
/// edit changed something and was kept as an entry of its own in a history that keeps entries;
/// the history steps back over the edit.
pub proof fn law_undo_reverts_input(v: EditableView, input: Seq<char>)
    requires
        editable_valid(v),
        room_to_revert(v, input),
        v.history.max_history > 0,
        input.len() > 0 || selection_range(v.text.selection) is Some,
        !input_folds(v, input),
    ensures
        undone_editable(input_editable(v, input)).text.lines == v.text.lines,
        undone_editable(input_editable(v, input)).history == undone_history(input_editable(v, input).history).0,
{
    lemma_typed_edit_recorded(v, input);
    lemma_inverse_replay_lines(v, input);
}

/// Redoing an edit that was typed and then undone gives back the lines that the edit made, and
/// the history it made.
pub proof fn law_redo_reapplies_input(v: EditableView, input: Seq<char>)
    requires
        editable_valid(v),
        room_to_revert(v, input),
        v.history.max_history > 0,
        input.len() > 0 || selection_range(v.text.selection) is Some,
        !input_folds(v, input),
    ensures
        redone_editable(undone_editable(input_editable(v, input))).text.lines == input_editable(v, input).text.lines,
        redone_editable(undone_editable(input_editable(v, input))).history == input_editable(v, input).history,
{
    let w = input_editable(v, input);
    let (tv, del, ins, start) = edited_text_box(v.text, input, v.text.caret);
    let op = EditOpView { caret: start, delete: del, insert: ins };
    lemma_typed_edit_recorded(v, input);
    lemma_inverse_replay_lines(v, input);
    let u = undone_editable(w);
    law_history_redo_after_undo(w.history);
    assert(redone_history(u.history) == (w.history, Some(op)));
    lemma_replay_lines(v, input, u.text);
}

/// Undoing and then redoing leaves the history as it was, and the redo hands out the edit
/// that the undo handed out.
pub proof fn law_history_redo_after_undo(h: EditHistoryView)
    requires
        history_wf(h),
        h.ptr > 0,
    ensures
        redone_history(undone_history(h).0) == (h, undone_history(h).1),
{
}

/// Redoing and then undoing leaves the history as it was, and the undo hands out the edit
/// that the redo handed out.
pub proof fn law_history_undo_after_redo(h: EditHistoryView)
    requires
        history_wf(h),
        h.ptr < h.ops.len(),
    ensures
        undone_history(redone_history(h).0) == (h, redone_history(h).1),
{
}

/// Recording an edit in a history that keeps edits leaves nothing to redo.
pub proof fn law_history_record_clears_redo(
    h: EditHistoryView,
    caret: TextCoord,
    del: Option<EditDetailView>,
    ins: Option<EditDetailView>,
)
    requires
        history_wf(h),
        h.max_history > 0,
        del is Some || ins is Some,
    ensures
        history_wf(recorded_history(h, caret, del, ins)),
        redone_history(recorded_history(h, caret, del, ins)).1 is None,
{
    let r = recorded_history(h, caret, del, ins);
    match merged_history(h, caret, del, ins) {
        Some(m) => {},
        None => {
            assert(h.ops.take(h.ptr as int).len() == h.ptr);
        },
    }
}

/// A history holds no more edits than its limit, whatever is recorded, undone or redone.
pub proof fn law_history_bounded(
    h: EditHistoryView,
    caret: TextCoord,
    del: Option<EditDetailView>,
    ins: Option<EditDetailView>,
)
    requires
        history_wf(h),
        h.ops.len() <= h.max_history,
    ensures
        recorded_history(h, caret, del, ins).ops.len() <= h.max_history,
        undone_history(h).0.ops.len() <= h.max_history,
        redone_history(h).0.ops.len() <= h.max_history,
{
    match merged_history(h, caret, del, ins) {
        Some(m) => {},
        None => {
            assert(h.ops.take(h.ptr as int).len() == h.ptr);
        },
    }
}

/// A dependency registered under `ks` is registered under each key of `ks`.
proof fn lemma_add_id_contains(m: Map<Seq<char>, Seq<u32>>, ks: Seq<Seq<char>>, id: u32, k: Seq<char>)
    requires
        ks.contains(k),
    ensures
        add_id(m, ks, id).contains_key(k),
        add_id(m, ks, id)[k].contains(id),
    decreases ks.len(),
{
    let m1 = add_id(m, ks.drop_last(), id);
    let l = if m1.contains_key(ks.last()) { m1[ks.last()] } else { Seq::empty() };
    if ks.last() == k {
        assert(l.push(id)[l.len() as int] == id);
    } else {
        let i = choose|i: int| 0 <= i < ks.len() && ks[i] == k;
        assert(ks.drop_last()[i] == k);
        lemma_add_id_contains(m, ks.drop_last(), id, k);
        let j = choose|j: int| 0 <= j < m1[k].len() && m1[k][j] == id;
        assert(add_id(m, ks, id)[k][j] == id);
    }
}

/// Each dependency among `ids` that is registered and whose keys all have values gets a
/// notification with those values.
proof fn lemma_notifications_contain<T, F>(v: ComputedView<T, F>, ids: Seq<u32>, id: u32)
    requires
        ids.contains(id),
        v.dep_keys.contains_key(id),
        v.consumers.contains_key(id),
        values_of(v.values, v.dep_keys[id]) is Some,
    ensures
        notifications(v, ids).contains((id, values_of(v.values, v.dep_keys[id])->0)),
    decreases ids.len(),
{
    let prev = notifications(v, ids.drop_last());
    let n = (id, values_of(v.values, v.dep_keys[id])->0);
    if ids.last() == id {
        assert(notifications(v, ids) == prev.push(n));
        assert(prev.push(n)[prev.len() as int] == n);
    } else {
        let i = choose|i: int| 0 <= i < ids.len() && ids[i] == id;
        assert(ids.drop_last()[i] == id);
        lemma_notifications_contain(v, ids.drop_last(), id);
        let j = choose|j: int| 0 <= j < prev.len() && prev[j] == n;
        let ns = notifications(v, ids);
        assert(ns == prev || ns == prev.push((ids.last(), values_of(v.values, v.dep_keys[ids.last()])->0)));
        assert(ns[j] == n);
    }
}

/// Every notification goes to a registered consumer.
proof fn lemma_notifications_registered<T, F>(v: ComputedView<T, F>, ids: Seq<u32>)
    ensures
        forall|i: int| 0 <= i < notifications(v, ids).len()
            ==> v.consumers.contains_key(#[trigger] notifications(v, ids)[i].0),
    decreases ids.len(),
{
    if ids.len() > 0 {
        lemma_notifications_registered(v, ids.drop_last());
        let prev = notifications(v, ids.drop_last());
        let ns = notifications(v, ids);
        assert forall|i: int| 0 <= i < ns.len() implies v.consumers.contains_key(#[trigger] ns[i].0) by {
            if i < prev.len() {
                assert(ns[i] == prev[i]);
                assert(v.consumers.contains_key(prev[i].0));
            }
        }
    }
}

/// A consumer registered for `keys` runs, with the values of its keys, when one of its keys
/// changes and all of its keys then have values.
pub proof fn law_dep_runs_on_update<T, F>(
    v: ComputedView<T, F>,
    keys: Seq<Seq<char>>,
    consumer: F,
    key: Seq<char>,
    value: T,
)
    requires
        keys.contains(key),
        values_of(v.values.insert(key, value), keys) is Some,
    ensures
        ({
            let id = v.next_id as u32;
            let w = ComputedView {
                next_id: v.next_id + 1,
                dep_keys: v.dep_keys.insert(id, keys),
                consumers: v.consumers.insert(id, consumer),
                key_ids: add_id(v.key_ids, keys, id),
                values: v.values,
            };
            let u = ComputedView { values: w.values.insert(key, value), ..w };
            notifications(u, ids_of(w, key)).contains((id, values_of(u.values, keys)->0))
        }),
{
    let id = v.next_id as u32;
    let w = ComputedView {
        next_id: v.next_id + 1,
        dep_keys: v.dep_keys.insert(id, keys),
        consumers: v.consumers.insert(id, consumer),
        key_ids: add_id(v.key_ids, keys, id),
        values: v.values,
    };
    let u = ComputedView { values: w.values.insert(key, value), ..w };
    lemma_add_id_contains(v.key_ids, keys, id, key);
    lemma_notifications_contain(u, ids_of(w, key), id);
}

/// A consumer whose registration was removed never runs again: no change notifies it.
pub proof fn law_removed_dep_never_runs<T, F>(v: ComputedView<T, F>, ids: Seq<u32>, id: u32)
    requires
        !v.consumers.contains_key(id),
    ensures
        forall|i: int| 0 <= i < notifications(v, ids).len() ==> (#[trigger] notifications(v, ids)[i]).0 != id,
{
    lemma_notifications_registered(v, ids);
    assert forall|i: int| 0 <= i < notifications(v, ids).len() implies (#[trigger] notifications(v, ids)[i]).0 != id by {
        assert(v.consumers.contains_key(notifications(v, ids)[i].0));
    }
}

/// A caret's character offset leads back to the caret: the caret found for the offset of a
/// caret in the text is that caret.
pub proof fn law_offset_leads_back_to_caret(lines: Seq<Seq<char>>, c: TextCoord)
    requires
        valid_coord(lines, c),
    ensures
        coord_at(lines, coord_offset(lines, c)) == c,
{
    lemma_coord_unique(lines, c, c);
}

/// Moving the caret by `d` characters and then back by `d` brings it where it was, where the
/// first move stays within the text.
pub proof fn law_move_caret_back(v: EditableView, d: int)
    requires
        editable_valid(v),
        0 <= coord_offset(v.text.lines, v.text.caret) + d <= join_lines(v.text.lines).len(),
    ensures
        moved_editable(moved_editable(v, d), -d).text == (TextBoxView { selection: None, ..v.text }),
        moved_editable(moved_editable(v, d), -d).history == v.history,
{
    let lines = v.text.lines;
    let off = coord_offset(lines, v.text.caret);
    lemma_coord_exists(lines, off + d);
    let c1 = coord_at(lines, off + d);
    assert(clamp_offset(off + d, join_lines(lines).len() as int) == off + d);
    assert(moved_editable(v, d).text.caret == c1);
    assert(clamp_offset(off + d - d, join_lines(lines).len() as int) == off) by {
        lemma_coord_offset(lines, v.text.caret);
    }
    lemma_coord_unique(lines, v.text.caret, v.text.caret);
}

/// One call on a computed value, as it acts on its registry: `ComputedValue::dep` (registering a
/// consumer under the next id), `remove_dep` and `update_value`.
pub enum ComputedStep<T, F> {
    Register(Seq<Seq<char>>, F),
    Unregister(u32),
    Update(Seq<char>, T),
}

/// The registry after one call, as the calls' contracts state it.
pub open spec fn computed_after<T, F>(v: ComputedView<T, F>, step: ComputedStep<T, F>) -> ComputedView<T, F> {
    match step {
        ComputedStep::Register(keys, f) => ComputedView {
            next_id: v.next_id + 1,
            dep_keys: v.dep_keys.insert(v.next_id as u32, keys),
            consumers: v.consumers.insert(v.next_id as u32, f),
            key_ids: add_id(v.key_ids, keys, v.next_id as u32),
            values: v.values,
        },
        ComputedStep::Unregister(id) => ComputedView {
            consumers: v.consumers.remove(id),
            key_ids: removed_id(v, id),
            ..v
        },
        ComputedStep::Update(k, value) => ComputedView { values: v.values.insert(k, value), ..v },
    }
}

/// The registry after a run of calls.
pub open spec fn computed_run<T, F>(v: ComputedView<T, F>, steps: Seq<ComputedStep<T, F>>) -> ComputedView<T, F>
    decreases steps.len(),
{
    if steps.len() == 0 {
        v
    } else {
        computed_after(computed_run(v, steps.drop_last()), steps.last())
    }
}

/// How many registrations a run makes.
pub open spec fn registrations<T, F>(steps: Seq<ComputedStep<T, F>>) -> nat
    decreases steps.len(),
{
    if steps.len() == 0 {
        0
    } else {
        registrations(steps.drop_last()) + (if steps.last() is Register { 1nat } else { 0nat })
    }
}

/// Ids are handed out in order: after a run, the next id has grown by the number of
/// registrations, whatever removals and updates came between. So a fresh registry (next id 1)
/// gives its registrations the ids 1, 2, 3, ..., each once.
pub proof fn law_dep_ids_in_order<T, F>(v: ComputedView<T, F>, steps: Seq<ComputedStep<T, F>>)
    ensures
        computed_run(v, steps).next_id == v.next_id + registrations(steps),
    decreases steps.len(),
{
    if steps.len() > 0 {
        law_dep_ids_in_order(v, steps.drop_last());
    }
}

proof fn lemma_run_prefix<T, F>(v: ComputedView<T, F>, steps: Seq<ComputedStep<T, F>>, j: int)
    requires
        0 < j <= steps.len(),
    ensures
        computed_run(v, steps.take(j)) == computed_after(computed_run(v, steps.take(j - 1)), steps[j - 1]),
{
    assert(steps.take(j).drop_last() =~= steps.take(j - 1));
}

/// A consumer removed from the registry is not registered again by any later call, so no later
/// change ever runs it: every notification of every later state goes to another consumer.
pub proof fn law_removed_dep_stays_removed<T, F>(v: ComputedView<T, F>, steps: Seq<ComputedStep<T, F>>, i: int, id: u32)
    requires
        0 <= i < steps.len(),
        steps[i] == ComputedStep::<T, F>::Unregister(id),
        id < computed_run(v, steps.take(i)).next_id,
        v.next_id + registrations(steps) <= u32::MAX,
    ensures
        forall|j: int| i < j <= steps.len() ==> {
            &&& !(#[trigger] computed_run(v, steps.take(j))).consumers.contains_key(id)
            &&& forall|ids: Seq<u32>, n: int| 0 <= n < notifications(computed_run(v, steps.take(j)), ids).len()
                ==> (#[trigger] notifications(computed_run(v, steps.take(j)), ids)[n]).0 != id
        },
{
    assert forall|j: int| i < j <= steps.len() implies {
        &&& !(#[trigger] computed_run(v, steps.take(j))).consumers.contains_key(id)
        &&& forall|ids: Seq<u32>, n: int| 0 <= n < notifications(computed_run(v, steps.take(j)), ids).len()
            ==> (#[trigger] notifications(computed_run(v, steps.take(j)), ids)[n]).0 != id
    } by {
        lemma_removed_until(v, steps, i, id, j);
        let w = computed_run(v, steps.take(j));
        assert forall|ids: Seq<u32>, n: int| 0 <= n < notifications(w, ids).len()
            implies (#[trigger] notifications(w, ids)[n]).0 != id by {
            law_removed_dep_never_runs(w, ids, id);
        }
    }
}

proof fn lemma_registrations_prefix<T, F>(steps: Seq<ComputedStep<T, F>>, k: int)
    requires
        0 <= k <= steps.len(),
    ensures
        registrations(steps.take(k)) <= registrations(steps),
    decreases steps.len() - k,
{
    if k < steps.len() {
        lemma_registrations_prefix(steps, k + 1);
        assert(steps.take(k + 1).drop_last() =~= steps.take(k));
    } else {
        assert(steps.take(k) =~= steps);
    }
}

proof fn lemma_removed_until<T, F>(v: ComputedView<T, F>, steps: Seq<ComputedStep<T, F>>, i: int, id: u32, j: int)
    requires
        0 <= i < steps.len(),
        steps[i] == ComputedStep::<T, F>::Unregister(id),
        id < computed_run(v, steps.take(i)).next_id,
        i < j <= steps.len(),
        v.next_id + registrations(steps) <= u32::MAX,
    ensures
        !computed_run(v, steps.take(j)).consumers.contains_key(id),
        id < computed_run(v, steps.take(j)).next_id,
    decreases j - i,
{
    lemma_run_prefix(v, steps, j);
    lemma_registrations_prefix(steps, j - 1);
    law_dep_ids_in_order(v, steps.take(j - 1));
    if j > i + 1 {
        lemma_removed_until(v, steps, i, id, j - 1);
    }
}

/// One call on an edit history: recording an edit, undo or redo.
pub enum HistoryStep {
    Record(TextCoord, Option<EditDetailView>, Option<EditDetailView>),
    Undo,
    Redo,
}

pub open spec fn history_after(h: EditHistoryView, step: HistoryStep) -> EditHistoryView {
    match step {
        HistoryStep::Record(caret, del, ins) => recorded_history(h, caret, del, ins),
        HistoryStep::Undo => undone_history(h).0,
        HistoryStep::Redo => redone_history(h).0,
    }
}

/// The history after a run of calls.
pub open spec fn history_run(h: EditHistoryView, steps: Seq<HistoryStep>) -> EditHistoryView
    decreases steps.len(),
{
    if steps.len() == 0 {
        h
    } else {
        history_after(history_run(h, steps.drop_last()), steps.last())
    }
}

proof fn lemma_history_step_wf(h: EditHistoryView, step: HistoryStep)
    requires
        history_wf(h),
        h.ops.len() <= h.max_history,
    ensures
        history_wf(history_after(h, step)),
        history_after(h, step).ops.len() <= h.max_history,
        history_after(h, step).max_history == h.max_history,
{
    match step {
        HistoryStep::Record(caret, del, ins) => {
            law_history_bounded(h, caret, del, ins);
            match merged_history(h, caret, del, ins) {
                Some(m) => {},
                None => {
                    assert(h.ops.take(h.ptr as int).len() == h.ptr);
                },
            }
        },
        HistoryStep::Undo => {},
        HistoryStep::Redo => {},
    }
}

/// A history that starts within its limit holds no more edits than the limit after any run
/// of recordings, undos and redos; when it is full, a new entry pushes the oldest out.
pub proof fn law_history_run_bounded(h: EditHistoryView, steps: Seq<HistoryStep>)
    requires
        history_wf(h),
        h.ops.len() <= h.max_history,
    ensures
        history_wf(history_run(h, steps)),
        history_run(h, steps).ops.len() <= h.max_history,
        history_run(h, steps).max_history == h.max_history,
    decreases steps.len(),
{
    if steps.len() > 0 {
        law_history_run_bounded(h, steps.drop_last());
        lemma_history_step_wf(history_run(h, steps.drop_last()), steps.last());
    }
}

/// The history after `n` undos in a row.
pub open spec fn undos(h: EditHistoryView, n: nat) -> EditHistoryView
    decreases n,
{
    if n == 0 {
        h
    } else {
        undone_history(undos(h, (n - 1) as nat)).0
    }
}

proof fn lemma_undos(h: EditHistoryView, n: nat)
    ensures
        undos(h, n).ops == h.ops,
        undos(h, n).max_history == h.max_history,
        undos(h, n).ptr == (if h.ptr >= n { h.ptr - n } else { 0 }),
    decreases n,
{
    if n > 0 {
        lemma_undos(h, (n - 1) as nat);
    }
}

/// At most as many undos in a row as the history's limit hand out an edit: in a history within
/// its limit, the undo after `max_history` undos hands out nothing.
pub proof fn law_history_undo_limit(h: EditHistoryView, n: nat)
    requires
        history_wf(h),
        h.ops.len() <= h.max_history,
        n >= h.max_history,
    ensures
        undone_history(undos(h, n)).1 is None,
{
    lemma_undos(h, n);
}

/// Each id is the counter's value at its call, and each call moves the counter on by one.
pub open spec fn counter_chain(counters: Seq<u64>, ids: Seq<u64>) -> bool {
    forall|k: int| 0 <= k < ids.len() ==> (#[trigger] ids[k]) == counters[k] && counters[k + 1] == counters[k] + 1
}

/// Contexts made one after another from one counter carry the ids `start`, `start + 1`, ...:
/// each call hands out the counter's value and moves the counter on by one, so the ids are
/// distinct and increasing.
pub proof fn law_event_ids_increase(start: u64, counters: Seq<u64>, ids: Seq<u64>)
    requires
        counters.len() == ids.len() + 1,
        counters[0] == start,
        counter_chain(counters, ids),
    ensures
        forall|i: int| 0 <= i < ids.len() ==> #[trigger] ids[i] == start + i,
        forall|i: int, j: int| 0 <= i < j < ids.len() ==> #[trigger] ids[i] < #[trigger] ids[j],
{
    assert forall|i: int| 0 <= i < ids.len() implies #[trigger] ids[i] == start + i by {
        lemma_counter_at(start, counters, ids, i);
    }
    assert forall|i: int, j: int| 0 <= i < j < ids.len() implies #[trigger] ids[i] < #[trigger] ids[j] by {
        lemma_counter_at(start, counters, ids, i);
        lemma_counter_at(start, counters, ids, j);
    }
}

proof fn lemma_counter_at(start: u64, counters: Seq<u64>, ids: Seq<u64>, i: int)
    requires
        counters.len() == ids.len() + 1,
        counters[0] == start,
        counter_chain(counters, ids),
        0 <= i <= ids.len(),
    ensures
        counters[i] == start + i,
        i < ids.len() ==> ids[i] == start + i,
    decreases i,
{
    if i > 0 {
        lemma_counter_at(start, counters, ids, i - 1);
        assert(ids[i - 1] == counters[i - 1]);
    }
}

/// ArrowUp moves the caret to the line above and ArrowDown to the line below, keeping its
/// column where that line is long enough and going to its end where not; on the first line
/// ArrowUp, and on the last line ArrowDown, leave the caret where it is. The text and the
/// history stay, and the selection is dropped.
pub proof fn law_arrow_keys_change_line(v: EditableView)
    requires
        editable_valid(v),
    ensures
        ({
            let c = v.text.caret;
            let lines = v.text.lines;
            let up = named_key_editable(v, NamedKey::ArrowUp);
            let down = named_key_editable(v, NamedKey::ArrowDown);
            &&& up.text.lines == lines && down.text.lines == lines
            &&& up.history == v.history && down.history == v.history
            &&& up.text.selection is None && down.text.selection is None
            &&& c.0 > 0 ==> up.text.caret.0 == c.0 - 1
                && up.text.caret.1 == (if c.1 <= lines[c.0 - 1].len() { c.1 as int } else { lines[c.0 - 1].len() as int })
            &&& c.0 == 0 ==> up.text.caret == c
            &&& c.0 + 1 < lines.len() ==> down.text.caret.0 == c.0 + 1
                && down.text.caret.1 == (if c.1 <= lines[c.0 + 1].len() { c.1 as int } else { lines[c.0 + 1].len() as int })
            &&& c.0 + 1 >= lines.len() ==> down.text.caret == c
        }),
{
}

/// A disabled form element takes no form input: clicks, mouse buttons, text input and key
/// presses and releases are all stopped, each of them; other events (focus, scrolling, moves)
/// pass.
pub proof fn law_disabled_form_blocks_input(f: FormState, kind: EventKind)
    requires
        f.is_form_element,
        f.disabled_attribute,
    ensures
        (kind == EventKind::Click || kind == EventKind::MouseDown || kind == EventKind::MouseUp
            || kind == EventKind::TextInput || kind == EventKind::KeyDown || kind == EventKind::KeyUp)
            ==> (f.is_form_element && form_event(kind) && f.disabled_attribute),
        (kind == EventKind::Focus || kind == EventKind::Blur || kind == EventKind::Scroll
            || kind == EventKind::MouseMove || kind == EventKind::MouseWheel)
            ==> !form_event(kind),
        form_event(EventKind::KeyDown) == form_event(EventKind::KeyUp),
        form_event(EventKind::KeyDown) == form_event(EventKind::TextInput),
{
}

/// Typing that starts with whitespace (a tab, a carriage return, a line feed or a space) is
/// never folded into the previous entry: in a history that keeps entries, recording it leaves
/// it as the last entry, exactly as it was recorded, with nothing left to redo.
pub proof fn law_whitespace_starts_new_entry(h: EditHistoryView, caret: TextCoord, ins: EditDetailView)
    requires
        history_wf(h),
        h.max_history > 0,
        ins.content.len() > 0,
        ins.content[0] == '\n' || ins.content[0] == '\t' || ins.content[0] == '\r' || ins.content[0] == ' ',
    ensures
        ({
            let r = recorded_history(h, caret, None, Some(ins));
            &&& r.ops.len() > 0
            &&& r.ops.last() == (EditOpView { caret: caret, delete: None, insert: Some(ins) })
            &&& r.ptr == r.ops.len()
            &&& r.ops.drop_last() == (if h.ptr >= h.max_history {
                    h.ops.take(h.ptr as int).drop_first()
                } else {
                    h.ops.take(h.ptr as int)
                })
        }),
{
    let r = recorded_history(h, caret, None, Some(ins));
    assert(merged_history(h, caret, None, Some(ins)) is None);
    let kept = h.ops.take(h.ptr as int);
    let op = EditOpView { caret: caret, delete: None, insert: Some(ins) };
    if kept.len() >= h.max_history {
        assert(kept.drop_first().push(op).drop_last() =~= kept.drop_first());
    } else {
        assert(kept.push(op).drop_last() =~= kept);
    }
}

/// The offsets in the joined text of what typing replaces: the selection, or the caret.
pub open spec fn replaced_range(v: EditableView) -> (int, int) {
    match selection_range(v.text.selection) {
        Some((s, e)) => (coord_offset(v.text.lines, s), coord_offset(v.text.lines, e)),
        None => (coord_offset(v.text.lines, v.text.caret), coord_offset(v.text.lines, v.text.caret)),
    }
}

/// A composition shown with its cursor at (or past) its end stays selected: the text holds it
/// in place of what was selected (or at the caret), the selection covers exactly it, and the
/// caret stands at its end.
pub proof fn law_preedit_keeps_composition_selected(v: EditableView, content: Seq<char>, offset: Option<usize>)
    requires
        editable_valid(v),
        text_room(v, content.len() as int),
        content.len() > 0,
        offset matches Some(k) ==> k >= content.len(),
    ensures
        ({
            let t = join_lines(v.text.lines);
            let (a, b) = replaced_range(v);
            let w = preedit_editable(v, content, offset);
            &&& join_lines(w.text.lines) == t.take(a) + content + t.skip(b)
            &&& w.text.selection matches Some((s, e))
            &&& selection_range(w.text.selection) == Some((s, e))
            &&& valid_coord(w.text.lines, s) && valid_coord(w.text.lines, e)
            &&& coord_offset(w.text.lines, s) == a
            &&& coord_offset(w.text.lines, e) == a + content.len()
            &&& text_between(w.text.lines, s, e) == content
            &&& w.text.caret == e
        }),
{
    lemma_preedit_selected(v, content, offset);
}

/// A composition shown with its cursor inside it leaves no selection and puts the caret at the
/// cursor: that many characters past the composition's start.
pub proof fn law_preedit_cursor_inside(v: EditableView, content: Seq<char>, k: usize)
    requires
        editable_valid(v),
        text_room(v, content.len() as int),
        k < content.len(),
    ensures
        ({
            let t = join_lines(v.text.lines);
            let (a, b) = replaced_range(v);
            let w = preedit_editable(v, content, Some(k));
            &&& join_lines(w.text.lines) == t.take(a) + content + t.skip(b)
            &&& w.text.selection is None
            &&& valid_coord(w.text.lines, w.text.caret)
            &&& coord_offset(w.text.lines, w.text.caret) == a + k
        }),
{
    lemma_preedit_selected(v, content, None);
    let w1 = preedit_editable(v, content, None);
    let lines = w1.text.lines;
    let off = clamp_offset(coord_offset(lines, w1.text.caret) + (k - content.len()), join_lines(lines).len() as int);
    let (a, b) = replaced_range(v);
    lemma_edit_splices(v.text, content, v.text.caret);
    assert(off == a + k);
    lemma_coord_exists(lines, off);
}

/// The composition's selection after typing `content`: the text, its lines and where the
/// composition stands.
proof fn lemma_preedit_selected(v: EditableView, content: Seq<char>, offset: Option<usize>)
    requires
        editable_valid(v),
        text_room(v, content.len() as int),
        content.len() > 0,
        offset matches Some(k) ==> k >= content.len(),
    ensures
        ({
            let t = join_lines(v.text.lines);
            let (a, b) = replaced_range(v);
            let w = preedit_editable(v, content, offset);
            &&& w == preedit_editable(v, content, None)
            &&& w.text.lines == input_editable(v, content).text.lines
            &&& text_box_wf(input_editable(v, content).text)
            &&& join_lines(w.text.lines) == t.take(a) + content + t.skip(b)
            &&& 0 <= a <= b <= t.len()
            &&& w.text.selection matches Some((s, e))
            &&& selection_range(w.text.selection) == Some((s, e))
            &&& valid_coord(w.text.lines, s) && valid_coord(w.text.lines, e)
            &&& coord_offset(w.text.lines, s) == a
            &&& coord_offset(w.text.lines, e) == a + content.len()
            &&& text_between(w.text.lines, s, e) == content
            &&& w.text.caret == e
        }),
{
    let t = join_lines(v.text.lines);
    let (a, b) = replaced_range(v);
    lemma_edit_splices(v.text, content, v.text.caret);
    let w = input_editable(v, content);
    let lines = w.text.lines;
    let e = w.text.caret;
    lemma_coord_exists(lines, a);
    let s = coord_at(lines, a);
    lemma_offset_order(lines, s, e);
    assert(s != e);
    let t1 = join_lines(lines);
    assert(t1.subrange(a, a + content.len()) =~= content);
}

/// Two compositions in a row, the first with its cursor at its end: the second replaces the
/// first, so the text holds only the second in place of what was replaced.
pub proof fn law_preedit_replaces_composition(v: EditableView, c1: Seq<char>, c2: Seq<char>, offset: Option<usize>)
    requires
        editable_valid(v),
        text_room(v, (2 * (c1.len() + c2.len())) as int),
        c1.len() > 0,
    ensures
        ({
            let t = join_lines(v.text.lines);
            let (a, b) = replaced_range(v);
            let w = preedit_editable(preedit_editable(v, c1, Some(c1.len() as usize)), c2, offset);
            join_lines(w.text.lines) == t.take(a) + c2 + t.skip(b)
        }),
{
    let t = join_lines(v.text.lines);
    let (a, b) = replaced_range(v);
    lemma_preedit_selected(v, c1, Some(c1.len() as usize));
    let w1 = preedit_editable(v, c1, Some(c1.len() as usize));
    lemma_edit_splices(v.text, c1, v.text.caret);
    lemma_edit_keeps_no_line_feed(v.text, c1, v.text.caret);
    let (s, e) = w1.text.selection->0;
    assert(text_box_wf(w1.text));
    assert(caret_fits_selection(w1.text, w1.text.caret));
    assert(editable_valid(w1));
    let t1 = join_lines(w1.text.lines);
    assert(text_room(w1, c2.len() as int));
    lemma_edit_splices(w1.text, c2, w1.text.caret);
    if c2.len() > 0 {
        lemma_preedit_selected(w1, c2, None);
    }
    let w2 = preedit_editable(w1, c2, offset);
    assert(join_lines(w2.text.lines) == join_lines(input_editable(w1, c2).text.lines)) by {
        if c2.len() > 0 {
            match offset {
                Some(k) => if k < c2.len() {
                    law_preedit_cursor_inside(w1, c2, k);
                } else {
                    lemma_preedit_selected(w1, c2, offset);
                },
                None => {},
            }
        }
    }
    assert(t1.take(a) =~= t.take(a));
    assert(t1.skip(a + c1.len()) =~= t.skip(b));
}

} // verus!
