use deft::animation::SimpleFrameController;
use deft::caret::EditableState;
use deft::checkbox::Checkbox;
use deft::editable::InputType;
use deft::app::InsetType;
use deft::base::{Callback, EventContext, Id, IdKey, StateMarker};
use deft::error::DeftError;
use deft::event::{build_modifier, KEY_MOD_ALT, KEY_MOD_CTRL, KEY_MOD_META, KEY_MOD_SHIFT};
use deft::image_object::{ImageObject, ImageSource};
use deft::label::{parse_align, Label, TextAlign};
use deft::paragraph::{parse_optional_text_decoration, parse_text_decoration, LINE_THROUGH, NO_DECORATION, OVERLINE, UNDERLINE};
use deft::radio::{Radio, RadioGroup};
use deft::scroll::{Scroll, ScrollBarStrategy};
use deft::select::{Select, SelectOption};
use deft::text::intersect_range;
use deft::text_box::TextBox;
use deft::edit_history::TextCoord;
use deft::richtext::RichText;
use std::cell::Cell;
use std::rc::Rc;

#[test]
fn intersect_range_cases() {
    assert_eq!(intersect_range((1, 5), (3, 8)), Some((3, 5)));
    assert_eq!(intersect_range((3, 8), (1, 5)), Some((3, 5)));
    assert_eq!(intersect_range((1, 3), (3, 5)), None);
    assert_eq!(intersect_range((0, 10), (2, 4)), Some((2, 4)));
    assert_eq!(intersect_range((4, 4), (0, 9)), None);
}

#[test]
fn inset_type_codes() {
    assert_eq!(InsetType::from_i32(1), Some(InsetType::StatusBar));
    assert_eq!(InsetType::from_i32(2), Some(InsetType::Navigation));
    assert_eq!(InsetType::from_i32(8), Some(InsetType::Ime));
    assert_eq!(InsetType::from_i32(3), None);
}

#[test]
fn modifier_bits() {
    assert_eq!(build_modifier(false, false, false, false), 0);
    assert_eq!(build_modifier(true, true, true, true), KEY_MOD_ALT | KEY_MOD_CTRL | KEY_MOD_META | KEY_MOD_SHIFT);
    assert_eq!(build_modifier(false, true, false, true), 9);
}

#[test]
fn error_messages() {
    assert_eq!(DeftError::InvalidState.message(), "invalid state");
    assert_eq!(DeftError::InvalidParameter.message(), "invalid parameter");
    assert_eq!(DeftError::Internal("boom".to_string()).message(), "boom");
}

#[test]
fn align_names() {
    assert_eq!(parse_align("left"), TextAlign::Left);
    assert_eq!(parse_align("right"), TextAlign::Right);
    assert_eq!(parse_align("center"), TextAlign::Center);
    assert_eq!(parse_align("justify"), TextAlign::Left);
}

#[test]
fn label_text_changes() {
    let mut label = Label::new();
    assert_eq!(label.get_text(), "");
    assert!(label.set_text("hi".to_string()));
    assert!(!label.set_text("hi".to_string()));
    assert_eq!(label.get_text(), "hi");
}

#[test]
fn text_decoration_values() {
    assert_eq!(parse_text_decoration("underline").bits, UNDERLINE);
    assert_eq!(parse_text_decoration("overline").bits, OVERLINE);
    assert_eq!(parse_text_decoration("line-through").bits, LINE_THROUGH);
    assert_eq!(parse_text_decoration("none").bits, NO_DECORATION);
    assert_eq!(parse_text_decoration("blink").bits, NO_DECORATION);
    assert_eq!(parse_text_decoration("underline overline").bits, NO_DECORATION);
    assert_eq!(parse_optional_text_decoration(None).bits, NO_DECORATION);
    let v = "overline".to_string();
    assert_eq!(parse_optional_text_decoration(Some(&v)).bits, OVERLINE);
}

#[test]
fn scroll_strategy_names() {
    assert_eq!(ScrollBarStrategy::from_str("NEVER"), Some(ScrollBarStrategy::Never));
    assert_eq!(ScrollBarStrategy::from_str("Auto"), Some(ScrollBarStrategy::Auto));
    assert_eq!(ScrollBarStrategy::from_str("always"), Some(ScrollBarStrategy::Always));
    assert_eq!(ScrollBarStrategy::from_str("sometimes"), None);
    let mut scroll = Scroll::new();
    assert!(!scroll.mark_layout_dirty());
    scroll.set_auto_height(true);
    assert!(scroll.mark_layout_dirty());
}

#[test]
fn radio_group_keeps_one_checked() {
    let mut group = RadioGroup::create();
    let mut a = Radio::create();
    a.set_label("a".to_string());
    assert_eq!(a.get_label(), "a");
    assert!(a.set_checked(true));
    assert!(!a.set_checked(true));
    let mut b = Radio::create();
    b.set_checked(true);
    group.attach(a);
    group.attach(b);
    assert_eq!(group.len(), 2);
    assert!(group.is_checked(0));
    assert!(!group.is_checked(1));
    assert!(group.set_checked(1, true));
    assert!(!group.is_checked(0));
    assert!(group.is_checked(1));
    assert!(!group.set_checked(1, true));
    let removed = group.remove(1);
    assert!(removed.is_checked());
    assert_eq!(group.len(), 1);
    assert!(!group.is_checked(0));
}

#[test]
fn select_shows_option_label() {
    let mut select = Select::create();
    select.set_options(vec![
        SelectOption { value: "1".to_string(), label: "One".to_string() },
        SelectOption { value: "2".to_string(), label: "Two".to_string() },
    ]);
    assert!(select.set_value("2".to_string()));
    assert_eq!(select.get_value(), "2");
    assert_eq!(select.get_label(), "Two");
    assert!(!select.set_value("2".to_string()));
    assert!(select.set_value("3".to_string()));
    assert_eq!(select.get_label(), "3");
    assert_eq!(select.get_options().len(), 2);
    assert_eq!(select.get_options()[0].label, "One");
}

#[test]
fn data_url_decoding() {
    let (mime, data) = ImageObject::parse_data_url("image/png;base64,aGVsbG8=").unwrap();
    assert_eq!(mime, "image/png");
    assert_eq!(data, b"hello".to_vec());
    assert!(ImageObject::parse_data_url("image/png;base64,@@@").is_none());
    assert!(ImageObject::parse_data_url("image/png;utf8,abc").is_none());
    assert!(ImageObject::parse_data_url("image/png,abc").is_none());
    assert!(ImageObject::parse_data_url("no comma").is_none());
}

#[test]
fn image_sources() {
    match ImageObject::source_of("data:image/svg+xml;base64,PHN2Zy8+") {
        ImageSource::SvgData(d) => assert_eq!(d, b"<svg/>".to_vec()),
        _ => panic!("expected svg data"),
    }
    match ImageObject::source_of("data:image/png;base64,aGk=") {
        ImageSource::ImageData(d) => assert_eq!(d, b"hi".to_vec()),
        _ => panic!("expected image data"),
    }
    assert!(matches!(ImageObject::source_of("data:image/png;base64,%%"), ImageSource::Missing));
    match ImageObject::source_of("icons/logo.svg") {
        ImageSource::SvgFile(p) => assert_eq!(p, "icons/logo.svg"),
        _ => panic!("expected svg file"),
    }
    match ImageObject::source_of("photo.png") {
        ImageSource::Managed(p) => assert_eq!(p, "photo.png"),
        _ => panic!("expected managed image"),
    }
}

#[test]
fn frame_controller_paces_frames() {
    let mut fc = SimpleFrameController::new();
    assert_eq!(fc.request_next_frame(0), 16666667);
    assert_eq!(fc.request_next_frame(20000000), 13333334);
    assert_eq!(fc.request_next_frame(60000000), 0);
    assert_eq!(fc.request_next_frame(60000000), 6666668);
}

#[test]
fn ids_and_markers() {
    let mut key = IdKey::new();
    let a: Id<u8> = Id::next(&mut key);
    let b: Id<u8> = Id::next(&mut key);
    assert_eq!(a.value(), 1);
    assert_eq!(b.value(), 2);
    assert_eq!(a.clone().value(), 1);
    let mut m = StateMarker::new();
    assert!(!m.unmark());
    m.mark();
    assert!(m.unmark());
    assert!(!m.unmark());
    let mut counter: u64 = 7;
    let ctx = EventContext::new("target", &mut counter);
    assert_eq!(ctx.get_id(), 7);
    assert_eq!(counter, 8);
    let hit = Rc::new(Cell::new(false));
    let h2 = hit.clone();
    Callback::new(move || h2.set(true)).call();
    assert!(hit.get());
}

#[test]
fn text_box_lines_and_offsets() {
    let mut tb = TextBox::new();
    tb.add_line("ab".to_string());
    tb.add_line("cde".to_string());
    assert_eq!(tb.line_count(), 2);
    assert_eq!(tb.get_text(), "ab\ncde");
    assert_eq!(tb.text_len(), 6);
    assert_eq!(tb.get_line_text(1), Some("cde".to_string()));
    assert_eq!(tb.get_line_text(2), None);
    assert_eq!(tb.get_text_coord_by_char_offset(4), Some(TextCoord(1, 1)));
    assert_eq!(tb.get_text_coord_by_char_offset(7), None);
    tb.select(TextCoord(1, 2), TextCoord(0, 1));
    assert_eq!(tb.get_selection(), Some((TextCoord(0, 1), TextCoord(1, 2))));
    assert_eq!(tb.get_selection_text(), Some("b\ncd".to_string()));
    tb.insert_line(0, "z".to_string());
    tb.delete_line(2);
    tb.update_line(1, "AB".to_string());
    assert_eq!(tb.get_text(), "z\nAB");
    tb.clear();
    assert_eq!(tb.line_count(), 0);
}

#[test]
fn rich_text_lines() {
    let mut rt = RichText::create();
    rt.add_line(vec!["he".to_string(), "llo".to_string()]);
    rt.add_line(vec!["wor".to_string(), "ld".to_string()]);
    assert_eq!(rt.get_text(), "hello\nworld");
    assert_eq!(rt.get_text_coord_by_char_offset(7), Some(TextCoord(1, 1)));
    rt.select(TextCoord(0, 3), TextCoord(1, 2));
    assert_eq!(rt.get_selection_text(), Some("lo\nwo".to_string()));
    rt.update_line(0, vec!["hey".to_string()]);
    rt.insert_line(0, vec!["top".to_string()]);
    assert_eq!(rt.get_text(), "top\nhey\nworld");
    rt.delete_line(1);
    assert_eq!(rt.get_text(), "top\nworld");
    rt.clear();
    assert_eq!(rt.get_text(), "");
}

#[test]
fn text_box_offset_leads_back_to_caret() {
    let mut tb = TextBox::new();
    tb.add_line("one".to_string());
    tb.add_line("".to_string());
    tb.add_line("three".to_string());
    for c in [TextCoord(0, 0), TextCoord(0, 3), TextCoord(1, 0), TextCoord(2, 4)] {
        tb.update_caret_value(c);
        let off = tb.caret_offset();
        assert_eq!(tb.get_text_coord_by_char_offset(off), Some(c));
    }
    tb.update_caret_value(TextCoord(2, 4));
    assert_eq!(tb.caret_offset(), 9);
    tb.move_caret(-5);
    assert_eq!(tb.get_caret(), TextCoord(1, 0));
    tb.move_caret(100);
    assert_eq!(tb.get_caret(), TextCoord(2, 5));
}

#[test]
fn checkbox_states() {
    let mut cb = Checkbox::create();
    assert!(!cb.is_checked());
    assert!(!cb.mark_visible());
    cb.set_label("agree".to_string());
    assert_eq!(cb.get_label(), "agree");
    assert!(cb.click());
    assert!(cb.is_checked());
    assert!(cb.mark_visible());
    assert!(!cb.set_checked(true));
    assert!(cb.on_attribute_changed("checked", None));
    assert!(!cb.is_checked());
    assert!(!cb.on_attribute_changed("disabled", Some("")));
    assert_eq!(cb.get_checked_attribute(), Some(String::new()));
    assert!(cb.on_attribute_changed("checked", Some("")));
    assert!(cb.is_checked());
    assert!(cb.click());
    assert!(!cb.is_checked());
}

#[test]
fn input_type_ime() {
    assert!(InputType::Text.allows_ime());
    assert!(!InputType::Password.allows_ime());
}

#[test]
fn caret_blinks_only_with_focus() {
    let mut st = EditableState::new();
    assert!(!st.caret_drawn());
    assert!(st.shows_placeholder());
    st.handle_focus();
    assert!(st.caret_drawn());
    st.caret_tick();
    assert!(!st.caret_drawn());
    st.caret_tick();
    assert!(st.caret_drawn());
    st.handle_blur();
    assert!(!st.caret_drawn());
    st.caret_tick();
    assert!(!st.caret_drawn());
    st.set_text("abc");
    assert!(!st.shows_placeholder());
    st.set_text("");
    assert!(st.shows_placeholder());
}

#[test]
fn checkbox_disabled_takes_no_clicks() {
    let mut cb = Checkbox::create();
    assert!(cb.set_checked(true));
    assert_eq!(cb.get_checked_attribute(), Some(String::new()));
    cb.set_disabled(true);
    assert!(cb.is_disabled());
    assert!(!cb.click());
    assert!(cb.is_checked());
    cb.set_disabled(false);
    assert!(cb.click());
    assert!(!cb.is_checked());
    assert_eq!(cb.get_checked_attribute(), Some(String::new()));
    assert!(cb.js_events().is_registered("change"));
    assert_eq!(cb.add_js_event_listener("change", true).ok(), Some(1));
}

#[test]
fn radio_checked_attribute_follows_set_checked() {
    let mut r = Radio::create();
    assert_eq!(r.get_checked_attribute(), None);
    r.set_checked(true);
    assert_eq!(r.get_checked_attribute(), Some(String::new()));
    let mut group = RadioGroup::create();
    assert!(group.js_events().is_registered("change"));
    group.attach(r);
    group.attach(Radio::create());
    assert!(group.set_checked(1, true));
    assert!(!group.is_checked(0));
    assert!(group.has_checked_attribute(0));
    assert!(group.has_checked_attribute(1));
    assert!(!group.set_checked(1, true));
    group.set_checked(1, false);
    assert!(!group.has_checked_attribute(1));
}

#[test]
fn select_placeholder_and_events() {
    let mut select = Select::create();
    assert_eq!(select.get_placeholder(), "");
    select.set_placeholder("pick one".to_string());
    assert_eq!(select.get_placeholder(), "pick one");
    assert!(select.js_events().is_registered("change"));
    assert!(select.add_js_event_listener("nope", true).is_err());
    assert_eq!(select.add_js_event_listener("click", false).ok(), Some(1));
}
