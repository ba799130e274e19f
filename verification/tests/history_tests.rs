use deft::edit_history::{EditDetail, EditHistory, TextCoord};

fn detail(content: &str, end: (usize, usize)) -> Option<EditDetail> {
    Some(EditDetail { content: content.to_string(), end: TextCoord::new(end) })
}

#[test]
fn history_merges_continued_typing() {
    let mut h = EditHistory::new(10);
    h.record_input(TextCoord(0, 0), None, detail("ab", (0, 2)));
    h.record_input(TextCoord(0, 2), None, detail("cd", (0, 4)));
    let op = h.undo().unwrap();
    assert_eq!(op.caret, TextCoord(0, 0));
    let ins = op.insert.unwrap();
    assert_eq!(ins.content, "abcd");
    assert_eq!(ins.end, TextCoord(0, 4));
    assert!(op.delete.is_none());
    assert!(h.undo().is_none());
}

#[test]
fn history_does_not_merge_after_whitespace_or_jump() {
    let mut h = EditHistory::new(10);
    h.record_input(TextCoord(0, 0), None, detail("ab", (0, 2)));
    h.record_input(TextCoord(0, 2), None, detail(" c", (0, 4)));
    h.record_input(TextCoord(0, 1), None, detail("x", (0, 2)));
    assert_eq!(h.undo().unwrap().insert.unwrap().content, "x");
    assert_eq!(h.undo().unwrap().insert.unwrap().content, " c");
    assert_eq!(h.undo().unwrap().insert.unwrap().content, "ab");
}

#[test]
fn history_merges_backward_deletes() {
    let mut h = EditHistory::new(10);
    h.record_input(TextCoord(0, 4), detail("d", (0, 5)), None);
    h.record_input(TextCoord(0, 3), detail("c", (0, 4)), None);
    let op = h.undo().unwrap();
    assert_eq!(op.caret, TextCoord(0, 3));
    let del = op.delete.unwrap();
    assert_eq!(del.content, "cd");
    assert_eq!(del.end, TextCoord(0, 5));
}

#[test]
fn history_undo_redo_round_trip() {
    let mut h = EditHistory::new(10);
    h.record_input(TextCoord(0, 0), None, detail("a", (0, 1)));
    h.record_input(TextCoord(0, 1), None, detail(" b", (0, 3)));
    assert!(h.peek_redo().is_none());
    let undone = h.undo().unwrap();
    assert_eq!(h.peek_redo().unwrap().insert.as_ref().unwrap().content, " b");
    let redone = h.redo().unwrap();
    assert_eq!(undone.insert.unwrap().content, redone.insert.unwrap().content);
    assert!(h.redo().is_none());
    assert_eq!(h.peek_undo().unwrap().insert.as_ref().unwrap().content, " b");
}

#[test]
fn history_recording_drops_redo() {
    let mut h = EditHistory::new(10);
    h.record_input(TextCoord(0, 0), None, detail("a", (0, 1)));
    h.undo();
    h.record_input(TextCoord(0, 0), None, detail("z", (0, 1)));
    assert!(h.redo().is_none());
    assert_eq!(h.undo().unwrap().insert.unwrap().content, "z");
    assert!(h.undo().is_none());
}

#[test]
fn history_keeps_at_most_max() {
    let mut h = EditHistory::new(2);
    assert_eq!(h.get_max_history(), 2);
    h.record_input(TextCoord(0, 0), None, detail("a", (0, 1)));
    h.record_input(TextCoord(0, 1), None, detail(" b", (0, 3)));
    h.record_input(TextCoord(0, 3), None, detail(" c", (0, 5)));
    assert_eq!(h.undo().unwrap().insert.unwrap().content, " c");
    assert_eq!(h.undo().unwrap().insert.unwrap().content, " b");
    assert!(h.undo().is_none());
}

#[test]
fn history_ignores_empty_edits_and_zero_limit() {
    let mut h = EditHistory::new(3);
    h.record_input(TextCoord(0, 0), None, None);
    assert!(h.undo().is_none());
    h.set_max_history(0);
    assert_eq!(h.get_max_history(), 0);
    h.record_input(TextCoord(0, 0), None, detail("a", (0, 1)));
    assert!(h.undo().is_none());
}
