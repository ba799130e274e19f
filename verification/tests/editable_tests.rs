use deft::edit_history::TextCoord;
use deft::editable::{EditMenu, Editable, InputType, KeyAction, TextEvent};
use deft::event::{KeyEventDetail, NamedKey, KEY_MOD_CTRL, KEY_MOD_SHIFT};

fn key_event(modifiers: u32, named_key: Option<NamedKey>, key: Option<&str>) -> KeyEventDetail {
    KeyEventDetail {
        modifiers,
        ctrl_key: modifiers & KEY_MOD_CTRL != 0,
        alt_key: false,
        meta_key: false,
        shift_key: modifiers & KEY_MOD_SHIFT != 0,
        named_key,
        key: key.map(|k| k.to_string()),
        key_str: key.map(|k| k.to_string()),
        repeat: false,
        pressed: true,
    }
}

#[test]
fn editable_test_caret() {
    let mut entry = Editable::new();
    entry.set_text("1\n12\n123\n1234".to_string());
    let expected_carets = vec![
        TextCoord(0, 1),
        TextCoord(1, 0),
        TextCoord(1, 1),
        TextCoord(1, 2),
        TextCoord(2, 0),
        TextCoord(2, 1),
        TextCoord(2, 2),
        TextCoord(2, 3),
        TextCoord(3, 0),
        TextCoord(3, 1),
        TextCoord(3, 2),
        TextCoord(3, 3),
        TextCoord(3, 4),
    ];
    for c in expected_carets {
        entry.move_caret(1);
        assert_eq!(entry.get_caret(), c);
    }
}

#[test]
fn entry_test_caret() {
    let mut entry = Editable::new();
    entry.set_text("1\n12\n123\n1234".to_string());
    entry.set_caret_by_char_offset(0);
    assert_eq!(entry.get_caret(), TextCoord::new((0, 0)));
    let expected_carets = vec![
        TextCoord(0, 1),
        TextCoord(1, 0), TextCoord(1, 1), TextCoord(1, 2),
        TextCoord(2, 0), TextCoord(2, 1), TextCoord(2, 2), TextCoord(2, 3),
        TextCoord(3, 0), TextCoord(3, 1), TextCoord(3, 2), TextCoord(3, 3), TextCoord(3, 4),
    ];
    for c in expected_carets {
        entry.move_caret(1);
        assert_eq!(entry.get_caret(), c);
    }
}

#[test]
fn test_edit_history() {
    let mut entry = Editable::new();
    let text1 = "hello";
    let text2 = "world";
    let text_all = "helloworld";
    // input text1
    entry.handle_input(text1);
    assert_eq!(text1, entry.get_text());
    // input text2
    entry.handle_input(text2);
    assert_eq!(text_all, entry.get_text());
    // delete text2
    entry.select(
        TextCoord(0, text1.chars().count()),
        TextCoord(0, text1.chars().count() + text2.chars().count()),
    );
    entry.handle_input("");
    assert_eq!(text1, entry.get_text());
    // undo
    entry.undo();
    assert_eq!(text_all, entry.get_text());
    assert_eq!(text_all.chars().count(), entry.get_caret().1);
    entry.undo();
    assert_eq!("", entry.get_text());
    assert_eq!(0, entry.get_caret().1);
}

#[test]
fn editable_new_is_empty() {
    let entry = Editable::new();
    assert_eq!(entry.get_text(), "");
    assert_eq!(entry.get_caret(), TextCoord(0, 0));
    assert_eq!(entry.get_type(), InputType::Text);
    assert!(!entry.is_multiple_line());
    assert_eq!(entry.get_placeholder(), "");
}

#[test]
fn editable_set_text_trims_carriage_returns() {
    let mut entry = Editable::new();
    entry.set_text("ab\r\ncd\r".to_string());
    assert_eq!(entry.get_text(), "ab\ncd");
    assert_eq!(entry.get_caret(), TextCoord(0, 0));
}

#[test]
fn editable_typing_replaces_selection() {
    let mut entry = Editable::new();
    entry.set_text("hello world".to_string());
    entry.set_selection_by_char_offset(6, 11);
    entry.handle_input("there");
    assert_eq!(entry.get_text(), "hello there");
    assert_eq!(entry.get_caret(), TextCoord(0, 11));
}

#[test]
fn editable_typing_with_line_feeds() {
    let mut entry = Editable::new();
    entry.handle_input("ab\ncd\nef");
    assert_eq!(entry.get_text(), "ab\ncd\nef");
    assert_eq!(entry.get_caret(), TextCoord(2, 2));
    entry.set_caret_by_char_offset(1);
    entry.handle_input("X\nY");
    assert_eq!(entry.get_text(), "aX\nYb\ncd\nef");
    assert_eq!(entry.get_caret(), TextCoord(1, 1));
}

#[test]
fn editable_undo_restores_text_before_typing() {
    let mut entry = Editable::new();
    entry.set_text("one\ntwo".to_string());
    entry.set_selection_by_char_offset(2, 5);
    entry.handle_input("Z\nQ");
    assert_eq!(entry.get_text(), "onZ\nQwo");
    entry.undo();
    assert_eq!(entry.get_text(), "one\ntwo");
    entry.redo();
    assert_eq!(entry.get_text(), "onZ\nQwo");
}

#[test]
fn editable_typing_folds_into_one_undo() {
    let mut entry = Editable::new();
    entry.handle_input("ab");
    entry.handle_input("cd");
    entry.handle_input(" ef");
    assert_eq!(entry.get_text(), "abcd ef");
    entry.undo();
    assert_eq!(entry.get_text(), "abcd");
    entry.undo();
    assert_eq!(entry.get_text(), "");
    entry.undo();
    assert_eq!(entry.get_text(), "");
    entry.redo();
    assert_eq!(entry.get_text(), "abcd");
    entry.redo();
    assert_eq!(entry.get_text(), "abcd ef");
    entry.redo();
    assert_eq!(entry.get_text(), "abcd ef");
}

#[test]
fn editable_no_history_no_undo() {
    let mut entry = Editable::new();
    entry.set_max_history(0);
    assert_eq!(entry.get_max_history(), 0);
    entry.handle_input("abc");
    entry.undo();
    assert_eq!(entry.get_text(), "abc");
}

#[test]
fn editable_copy_text_and_password() {
    let mut entry = Editable::new();
    entry.set_text("secret".to_string());
    entry.select_all();
    assert_eq!(entry.get_text_for_copy(), "secret");
    entry.set_type(InputType::Password);
    assert_eq!(entry.get_type(), InputType::Password);
    assert_eq!(entry.get_text_for_copy(), "");
}

#[test]
fn editable_move_caret_vertical_keeps_column() {
    let mut entry = Editable::new();
    entry.set_text("abcd\nx\nabcdef".to_string());
    entry.set_caret_by_char_offset(3);
    entry.move_caret_vertical(false);
    assert_eq!(entry.get_caret(), TextCoord(1, 1));
    entry.move_caret_vertical(false);
    assert_eq!(entry.get_caret(), TextCoord(2, 1));
    entry.move_caret_vertical(false);
    assert_eq!(entry.get_caret(), TextCoord(2, 1));
    entry.move_caret_vertical(true);
    entry.move_caret_vertical(true);
    assert_eq!(entry.get_caret(), TextCoord(0, 1));
    entry.move_caret_vertical(true);
    assert_eq!(entry.get_caret(), TextCoord(0, 1));
}

#[test]
fn editable_move_caret_clamps() {
    let mut entry = Editable::new();
    entry.set_text("ab".to_string());
    entry.move_caret(-5);
    assert_eq!(entry.get_caret(), TextCoord(0, 0));
    entry.move_caret(10);
    assert_eq!(entry.get_caret(), TextCoord(0, 2));
}

#[test]
fn editable_key_typing_and_backspace() {
    let mut entry = Editable::new();
    assert!(matches!(entry.handle_key_down(&key_event(0, None, Some("a")), KEY_MOD_CTRL), KeyAction::Nothing));
    entry.handle_key_down(&key_event(KEY_MOD_SHIFT, None, Some("B")), KEY_MOD_CTRL);
    entry.handle_key_down(&key_event(0, Some(NamedKey::Space), Some(" ")), KEY_MOD_CTRL);
    entry.handle_key_down(&key_event(0, Some(NamedKey::Tab), None), KEY_MOD_CTRL);
    assert_eq!(entry.get_text(), "aB    ");
    entry.handle_key_down(&key_event(0, Some(NamedKey::Backspace), None), KEY_MOD_CTRL);
    assert_eq!(entry.get_text(), "aB   ");
    entry.handle_key_down(&key_event(0, Some(NamedKey::ArrowLeft), None), KEY_MOD_CTRL);
    assert_eq!(entry.get_caret(), TextCoord(0, 4));
    entry.handle_key_down(&key_event(0, Some(NamedKey::ArrowRight), None), KEY_MOD_CTRL);
    assert_eq!(entry.get_caret(), TextCoord(0, 5));
}

#[test]
fn editable_backspace_at_start_does_nothing() {
    let mut entry = Editable::new();
    entry.set_text("xy".to_string());
    entry.handle_key_down(&key_event(0, Some(NamedKey::Backspace), None), KEY_MOD_CTRL);
    assert_eq!(entry.get_text(), "xy");
}

#[test]
fn editable_enter_needs_multiple_lines() {
    let mut entry = Editable::new();
    entry.set_text("ab".to_string());
    entry.set_caret_by_char_offset(1);
    entry.handle_key_down(&key_event(0, Some(NamedKey::Enter), None), KEY_MOD_CTRL);
    assert_eq!(entry.get_text(), "ab");
    entry.set_multiple_line(true);
    assert!(entry.is_multiple_line());
    entry.handle_key_down(&key_event(0, Some(NamedKey::Enter), None), KEY_MOD_CTRL);
    assert_eq!(entry.get_text(), "a\nb");
    assert_eq!(entry.get_caret(), TextCoord(1, 0));
}

#[test]
fn editable_shortcuts() {
    let mut entry = Editable::new();
    entry.set_text("copy me".to_string());
    entry.handle_key_down(&key_event(KEY_MOD_CTRL, None, Some("a")), KEY_MOD_CTRL);
    match entry.handle_key_down(&key_event(KEY_MOD_CTRL, None, Some("c")), KEY_MOD_CTRL) {
        KeyAction::Copy(s) => assert_eq!(s, "copy me"),
        _ => panic!("expected a copy"),
    }
    assert!(matches!(entry.handle_key_down(&key_event(KEY_MOD_CTRL, None, Some("v")), KEY_MOD_CTRL), KeyAction::Paste));
    match entry.handle_key_down(&key_event(KEY_MOD_CTRL, None, Some("x")), KEY_MOD_CTRL) {
        KeyAction::Copy(s) => assert_eq!(s, "copy me"),
        _ => panic!("expected a cut"),
    }
    assert_eq!(entry.get_text(), "");
    entry.handle_key_down(&key_event(KEY_MOD_CTRL, None, Some("z")), KEY_MOD_CTRL);
    assert_eq!(entry.get_text(), "copy me");
    entry.handle_key_down(&key_event(KEY_MOD_CTRL | KEY_MOD_SHIFT, None, Some("Z")), KEY_MOD_CTRL);
    assert_eq!(entry.get_text(), "");
}

#[test]
fn editable_copy_without_selection_is_nothing() {
    let mut entry = Editable::new();
    entry.set_text("abc".to_string());
    assert!(matches!(entry.handle_key_down(&key_event(KEY_MOD_CTRL, None, Some("c")), KEY_MOD_CTRL), KeyAction::Nothing));
}

#[test]
fn editable_placeholder_and_settings() {
    let mut entry = Editable::new();
    entry.set_placeholder("type here".to_string());
    assert_eq!(entry.get_placeholder(), "type here");
    entry.set_rows(3);
    entry.set_auto_height(true);
    entry.set_max_history(5);
    assert_eq!(entry.get_max_history(), 5);
}

#[test]
fn input_type_names() {
    assert_eq!(InputType::Text.as_str(), "text");
    assert_eq!(InputType::Password.as_str(), "password");
    assert_eq!(InputType::from_str("PassWord"), Some(InputType::Password));
    assert_eq!(InputType::from_str("text"), Some(InputType::Text));
    assert_eq!(InputType::from_str("number"), None);
    assert_eq!(InputType::from_lowercase("TEXT"), None);
}

#[test]
fn editable_move_caret_there_and_back() {
    let mut entry = Editable::new();
    entry.set_text("ab\ncde\nf".to_string());
    entry.set_caret_by_char_offset(2);
    let start = entry.get_caret();
    assert_eq!(start, TextCoord(0, 2));
    entry.move_caret(4);
    assert_eq!(entry.get_caret(), TextCoord(1, 3));
    entry.move_caret(-4);
    assert_eq!(entry.get_caret(), start);
}

#[test]
fn editable_redo_after_undo_of_deletion() {
    let mut entry = Editable::new();
    entry.set_text("abc\ndef".to_string());
    entry.set_selection_by_char_offset(1, 5);
    entry.handle_input("");
    assert_eq!(entry.get_text(), "aef");
    entry.undo();
    assert_eq!(entry.get_text(), "abc\ndef");
    entry.redo();
    assert_eq!(entry.get_text(), "aef");
    assert_eq!(entry.get_caret(), TextCoord(0, 1));
}

fn menu_flags(m: EditMenu) -> (bool, bool, bool, bool) {
    (m.cut, m.copy, m.paste, m.select_all)
}

#[test]
fn editable_context_menu_entries() {
    let mut entry = Editable::new();
    assert_eq!(menu_flags(entry.edit_menu(false)), (false, false, false, false));
    entry.set_text("hello".to_string());
    assert_eq!(menu_flags(entry.edit_menu(true)), (false, false, true, true));
    entry.set_selection_by_char_offset(1, 3);
    assert_eq!(menu_flags(entry.edit_menu(false)), (true, true, false, true));
    entry.select_all();
    assert_eq!(menu_flags(entry.edit_menu(false)), (true, true, false, false));
    entry.set_type(InputType::Password);
    assert_eq!(menu_flags(entry.edit_menu(false)), (false, false, false, false));
}

fn event_texts(events: Vec<TextEvent>) -> Vec<(bool, String)> {
    events
        .into_iter()
        .map(|e| match e {
            TextEvent::Update(u) => (true, u.value),
            TextEvent::Change(c) => (false, c.value),
        })
        .collect()
}

#[test]
fn editable_text_changes_queue_events() {
    let mut entry = Editable::new();
    assert!(entry.take_events().is_empty());
    entry.set_text("ab".to_string());
    assert!(entry.take_events().is_empty());
    entry.set_caret_by_char_offset(2);
    entry.handle_input("c");
    assert_eq!(
        event_texts(entry.take_events()),
        vec![(true, "abc".to_string()), (false, "abc".to_string())]
    );
    assert!(entry.take_events().is_empty());
    entry.undo();
    assert_eq!(
        event_texts(entry.take_events()),
        vec![(true, "ab".to_string()), (false, "ab".to_string())]
    );
}

#[test]
fn editable_disabled_attribute_blocks_nothing() {
    let mut entry = Editable::new();
    assert!(!entry.is_disabled());
    entry.set_disabled(true);
    assert!(!entry.is_disabled());
    assert!(entry.element_flags().form.disabled_attribute);
    assert!(!entry.element_flags().form.is_disabled());
    entry.handle_key_down(&key_event(0, Some(NamedKey::Space), Some(" ")), KEY_MOD_CTRL);
    assert_eq!(entry.get_text(), " ");
    assert_eq!(entry.get_caret(), TextCoord(0, 1));
}

#[test]
fn editable_element_flags() {
    let entry = Editable::new();
    let flags = entry.element_flags();
    assert!(flags.form.focusable);
    assert!(!flags.form.is_form_element);
    assert!(flags.allow_ime);
    assert_eq!(flags.js_events, vec!["caretchange".to_string()]);
}

#[test]
fn editable_preedit_selects_composition() {
    let mut entry = Editable::new();
    entry.set_text("ab".to_string());
    entry.set_caret_by_char_offset(1);
    entry.handle_preedit("xyz", None);
    assert_eq!(entry.get_text(), "axyzb");
    assert_eq!(entry.get_caret(), TextCoord(0, 4));
    entry.select_all();
    entry.handle_input("");
    entry.handle_preedit("pq", Some(1));
    assert_eq!(entry.get_text(), "pq");
    assert_eq!(entry.get_caret(), TextCoord(0, 1));
}

#[test]
fn editable_undo_steps_history_when_edit_no_longer_fits() {
    let mut entry = Editable::new();
    entry.handle_input("hello world");
    entry.set_text("hi".to_string());
    entry.undo();
    assert_eq!(entry.get_text(), "hi");
    entry.undo();
    assert_eq!(entry.get_text(), "hi");
}

#[test]
fn editable_script_listeners() {
    let mut entry = Editable::new();
    assert_eq!(entry.add_js_event_listener("keydown", false).ok(), Some(1));
    assert_eq!(entry.add_js_event_listener("caretchange", true).ok(), Some(2));
    assert!(entry.add_js_event_listener("caretchange", false).is_err());
    match entry.add_js_event_listener("change", true) {
        Err(e) => assert_eq!(e.message(), "unknown event_type:change"),
        Ok(_) => panic!("expected a refusal"),
    }
    assert_eq!(entry.add_js_event_listener("blur", true).ok(), Some(3));
}
